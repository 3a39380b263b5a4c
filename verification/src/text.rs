//! Numbers as text, for messages.

use vstd::prelude::*;
use vstd::string::StringExecFns;

verus! {

/// The character of a hexadecimal digit.
pub open spec fn digit(d: nat) -> Seq<char> {
    if d == 0 {
        "0"@
    } else if d == 1 {
        "1"@
    } else if d == 2 {
        "2"@
    } else if d == 3 {
        "3"@
    } else if d == 4 {
        "4"@
    } else if d == 5 {
        "5"@
    } else if d == 6 {
        "6"@
    } else if d == 7 {
        "7"@
    } else if d == 8 {
        "8"@
    } else if d == 9 {
        "9"@
    } else if d == 10 {
        "a"@
    } else if d == 11 {
        "b"@
    } else if d == 12 {
        "c"@
    } else if d == 13 {
        "d"@
    } else if d == 14 {
        "e"@
    } else {
        "f"@
    }
}

/// `n` in decimal, without leading zeros.
pub open spec fn decimal(n: nat) -> Seq<char>
    decreases n,
{
    if n < 10 {
        digit(n)
    } else {
        decimal(n / 10) + digit(n % 10)
    }
}

/// The low `width` hexadecimal digits of `n`, padded with zeros.
pub open spec fn hex(n: nat, width: nat) -> Seq<char>
    decreases width,
{
    if width == 0 {
        Seq::empty()
    } else {
        hex(n / 16, (width - 1) as nat) + digit(n % 16)
    }
}

fn digit_text(d: u32) -> (s: &'static str)
    requires
        d < 16,
    ensures
        s@ == digit(d as nat),
{
    match d {
        0 => "0",
        1 => "1",
        2 => "2",
        3 => "3",
        4 => "4",
        5 => "5",
        6 => "6",
        7 => "7",
        8 => "8",
        9 => "9",
        10 => "a",
        11 => "b",
        12 => "c",
        13 => "d",
        14 => "e",
        _ => "f",
    }
}

/// `n` in decimal.
pub fn decimal_text(n: usize) -> (s: String)
    ensures
        s@ == decimal(n as nat),
    decreases n,
{
    if n < 10 {
        digit_text(n as u32).to_owned()
    } else {
        let mut s = decimal_text(n / 10);
        s.append(digit_text((n % 10) as u32));
        s
    }
}

/// The low `width` hexadecimal digits of `n`.
pub fn hex_text(n: u32, width: usize) -> (s: String)
    ensures
        s@ == hex(n as nat, width as nat),
    decreases width,
{
    if width == 0 {
        String::new()
    } else {
        let mut s = hex_text(n / 16, width - 1);
        s.append(digit_text(n % 16));
        s
    }
}

/// The number that a character stands for as a digit.
pub open spec fn digit_value(c: char) -> int {
    if '0' <= c <= '9' {
        c as int - '0' as int
    } else {
        c as int - 'a' as int + 10
    }
}

/// The number that digits to a base spell.
pub open spec fn digits_value(digits: Seq<char>, base: int) -> int
    decreases digits.len(),
{
    if digits.len() == 0 {
        0
    } else {
        base * digits_value(digits.drop_last(), base) + digit_value(digits.last())
    }
}

/// A digit is one character, which stands for the digit.
proof fn lemma_digit(d: nat)
    requires
        d < 16,
    ensures
        digit(d).len() == 1,
        digit_value(digit(d)[0]) == d,
        d < 10 ==> '0' <= digit(d)[0] <= '9',
        d >= 10 ==> 'a' <= digit(d)[0] <= 'f',
{
    reveal_strlit("0");
    reveal_strlit("1");
    reveal_strlit("2");
    reveal_strlit("3");
    reveal_strlit("4");
    reveal_strlit("5");
    reveal_strlit("6");
    reveal_strlit("7");
    reveal_strlit("8");
    reveal_strlit("9");
    reveal_strlit("a");
    reveal_strlit("b");
    reveal_strlit("c");
    reveal_strlit("d");
    reveal_strlit("e");
    reveal_strlit("f");
}

/// A decimal text spells its number with decimal digits, and does not begin with a zero unless
/// it is that zero.
pub proof fn law_decimal(n: nat)
    ensures
        decimal(n).len() > 0,
        digits_value(decimal(n), 10) == n,
        forall|i: int| 0 <= i < decimal(n).len() ==> '0' <= #[trigger] decimal(n)[i] <= '9',
        decimal(n)[0] == '0' ==> decimal(n).len() == 1 && n == 0,
    decreases n,
{
    lemma_digit(n % 10);
    let text = decimal(n);
    if n < 10 {
        assert(text.drop_last() =~= Seq::<char>::empty());
        assert(digits_value(text.drop_last(), 10) == 0);
    } else {
        law_decimal(n / 10);
        assert(text.drop_last() =~= decimal(n / 10));
        assert(text.last() == digit(n % 10)[0]);
        assert forall|i: int| 0 <= i < text.len() implies '0' <= #[trigger] text[i] <= '9' by {
            if i < decimal(n / 10).len() {
                assert(text[i] == decimal(n / 10)[i]);
            }
        }
        assert(text[0] == decimal(n / 10)[0]);
    }
}

/// A hexadecimal text has as many digits as it is to have, none of them a capital letter, and
/// spells a number that fits in so many digits.
pub proof fn law_hex(n: nat, width: nat)
    ensures
        hex(n, width).len() == width,
        0 <= n - digits_value(hex(n, width), 16),
        (n - digits_value(hex(n, width), 16)) % vstd::arithmetic::power::pow(16, width) == 0,
        digits_value(hex(n, width), 16) < vstd::arithmetic::power::pow(16, width),
        forall|i: int|
            0 <= i < width ==> '0' <= #[trigger] hex(n, width)[i] <= '9' || 'a' <= hex(n, width)[i]
                <= 'f',
    decreases width,
{
    reveal(vstd::arithmetic::power::pow);
    if width == 0 {
        assert(vstd::arithmetic::power::pow(16, 0) == 1);
    } else {
        let w = (width - 1) as nat;
        let text = hex(n, width);
        lemma_digit(n % 16);
        law_hex(n / 16, w);
        assert(text.drop_last() =~= hex(n / 16, w));
        assert(text.last() == digit(n % 16)[0]);
        let p = vstd::arithmetic::power::pow(16, w);
        let v = digits_value(hex(n / 16, w), 16);
        assert(vstd::arithmetic::power::pow(16, width) == 16 * p);
        vstd::arithmetic::power::lemma_pow_positive(16, w);
        let rest = n as int / 16 - v;
        assert(n - digits_value(text, 16) == 16 * rest);
        assert((16 * rest) % (16 * p) == 0) by {
            vstd::arithmetic::div_mod::lemma_fundamental_div_mod(rest, p);
            let q = rest / p;
            assert(16 * rest == q * (16 * p)) by (nonlinear_arith)
                requires
                    rest == p * q,
            ;
            vstd::arithmetic::div_mod::lemma_mod_multiples_basic(q, 16 * p);
        }
        assert forall|i: int| 0 <= i < width implies '0' <= #[trigger] text[i] <= '9' || 'a'
            <= text[i] <= 'f' by {
            if i < w {
                assert(text[i] == hex(n / 16, w)[i]);
            }
        }
    }
}

} // verus!
