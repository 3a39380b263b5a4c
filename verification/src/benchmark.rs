//! The benchmarks of indexes in RocksDB: which there are, which inputs they take, and what a run
//! of one consists of.

use vstd::prelude::*;
use vstd::string::StringExecFns;

verus! {

/// The type of the elements of a data set.
#[derive(Clone, Copy, Debug, PartialEq, Eq, Structural)]
pub enum DataType {
    Float64,
    Float32,
    Float16,
    UInt8,
    UInt16,
    UInt32,
    UInt64,
    Int8,
    Int16,
    Int32,
    Int64,
    Bool,
}

impl DataType {
    /// The name of the type.
    pub open spec fn name(self) -> Seq<char> {
        match self {
            DataType::Float64 => "float64"@,
            DataType::Float32 => "float32"@,
            DataType::Float16 => "float16"@,
            DataType::UInt8 => "uint8"@,
            DataType::UInt16 => "uint16"@,
            DataType::UInt32 => "uint32"@,
            DataType::UInt64 => "uint64"@,
            DataType::Int8 => "int8"@,
            DataType::Int16 => "int16"@,
            DataType::Int32 => "int32"@,
            DataType::Int64 => "int64"@,
            DataType::Bool => "bool"@,
        }
    }

    /// The name of the type.
    pub fn as_str(self) -> (name: &'static str)
        ensures
            name@ == self.name(),
    {
        match self {
            DataType::Float64 => "float64",
            DataType::Float32 => "float32",
            DataType::Float16 => "float16",
            DataType::UInt8 => "uint8",
            DataType::UInt16 => "uint16",
            DataType::UInt32 => "uint32",
            DataType::UInt64 => "uint64",
            DataType::Int8 => "int8",
            DataType::Int16 => "int16",
            DataType::Int32 => "int32",
            DataType::Int64 => "int64",
            DataType::Bool => "bool",
        }
    }
}

/// How well an input fits a benchmark. The smaller the number, the better.
#[derive(Clone, Copy, Debug, PartialEq, Eq, Structural)]
pub struct MatchScore(pub u32);

/// How badly an input misses a benchmark. The smaller the number, the closer it is.
#[derive(Clone, Copy, Debug, PartialEq, Eq, Structural)]
pub struct FailureScore(pub u32);

/// The kind of a search.
#[derive(Clone, Copy, Debug, PartialEq, Eq, Structural)]
pub enum SearchKind {
    Topk,
    Range,
    /// A kind for which indexes in RocksDB have no search.
    Other,
}

/// How a data set of elements of type `found` fits one of elements of type `wanted`.
pub open spec fn type_score(wanted: DataType, found: DataType) -> Result<MatchScore, FailureScore> {
    if found == wanted {
        Ok(MatchScore(0))
    } else {
        Err(FailureScore(1000))
    }
}

/// How a data set of elements of type `found` fits one of elements of type `wanted`.
pub fn match_type(wanted: DataType, found: DataType) -> (score: Result<MatchScore, FailureScore>)
    ensures
        score == type_score(wanted, found),
{
    if found == wanted {
        Ok(MatchScore(0))
    } else {
        Err(FailureScore(1000))
    }
}

/// What a benchmark is asked to run on.
#[derive(Clone, Copy, Debug)]
pub struct BenchmarkInput<'a> {
    pub data_type: DataType,
    pub search_kind: SearchKind,
    /// The name of the kind of search.
    pub search_kind_name: &'a str,
}

/// A benchmark of full-precision indexes.
#[derive(Debug)]
pub struct FullPrecisionRocksdb {
    data_type: DataType,
    plugins: Vec<SearchKind>,
}

impl FullPrecisionRocksdb {
    /// The type of the elements that the benchmark is for.
    pub closed spec fn element_type(self) -> DataType {
        self.data_type
    }

    /// The kinds of search that the benchmark runs, in the order in which they were added.
    pub closed spec fn kinds(self) -> Seq<SearchKind> {
        self.plugins@
    }

    /// How well `input` fits the benchmark: as its type does, but that no input with an
    /// unsupported kind of search fits.
    pub open spec fn score(self, input: BenchmarkInput) -> Result<MatchScore, FailureScore> {
        let score = type_score(self.element_type(), input.data_type);
        if self.kinds().contains(input.search_kind) {
            score
        } else if score is Ok {
            Err(FailureScore(0))
        } else {
            score
        }
    }

    /// What the benchmark says about itself, or about why it does not run on `input`.
    /// `kinds_text` lists the kinds of search.
    pub open spec fn description_text(
        self,
        input: Option<BenchmarkInput>,
        kinds_text: Seq<char>,
    ) -> Seq<char> {
        match input {
            Some(input) => (if type_score(self.element_type(), input.data_type) is Err {
                "Data/Query Type: expected \""@ + self.element_type().name() + "\" but found \""@
                    + input.data_type.name() + "\"\n"@
            } else {
                Seq::empty()
            }) + (if !self.kinds().contains(input.search_kind) {
                "Unsupported search phase: \""@ + input.search_kind_name@
                    + "\" - expected one of "@ + kinds_text + "\n"@
            } else {
                Seq::empty()
            }),
            None => "Data/Query Type: "@ + self.element_type().name() + "\nSearch Kinds: "@
                + kinds_text + "\n"@,
        }
    }

    /// A benchmark for elements of `data_type` without any kind of search.
    pub fn new(data_type: DataType) -> (benchmark: Self)
        ensures
            benchmark.element_type() == data_type,
            benchmark.kinds() == Seq::<SearchKind>::empty(),
    {
        FullPrecisionRocksdb { data_type, plugins: Vec::new() }
    }

    /// The benchmark with one kind of search more.
    pub fn search(self, plugin: SearchKind) -> (benchmark: Self)
        ensures
            benchmark.element_type() == self.element_type(),
            benchmark.kinds() == self.kinds().push(plugin),
    {
        let mut plugins = self.plugins;
        plugins.push(plugin);
        FullPrecisionRocksdb { data_type: self.data_type, plugins }
    }

    /// Whether the benchmark runs searches of this kind.
    pub fn is_match(&self, kind: SearchKind) -> (matched: bool)
        ensures
            matched == self.kinds().contains(kind),
    {
        let mut i: usize = 0;
        while i < self.plugins.len()
            invariant
                i <= self.plugins@.len(),
                forall|j: int| 0 <= j < i ==> #[trigger] self.plugins@[j] != kind,
            decreases self.plugins.len() - i,
        {
            if self.plugins[i] == kind {
                return true;
            }
            i += 1;
        }
        false
    }

    /// How well `input` fits the benchmark.
    pub fn try_match(&self, input: &BenchmarkInput) -> (score: Result<MatchScore, FailureScore>)
        ensures
            score == self.score(*input),
    {
        let score = match_type(self.data_type, input.data_type);
        if self.is_match(input.search_kind) {
            score
        } else {
            match score {
                Ok(_) => Err(FailureScore(0)),
                Err(score) => Err(score),
            }
        }
    }

    /// What the benchmark says about itself, or about why it does not run on `input`.
    /// `kinds_text` lists the kinds of search.
    pub fn description(&self, input: Option<BenchmarkInput>, kinds_text: &str) -> (text: String)
        ensures
            text@ == self.description_text(input, kinds_text@),
    {
        let mut text = String::new();
        match input {
            Some(arg) => {
                assert(text@ =~= Seq::<char>::empty());
                if match_type(self.data_type, arg.data_type).is_err() {
                    let line = "Data/Query Type: expected \"".to_owned().concat(
                        self.data_type.as_str(),
                    ).concat("\" but found \"").concat(arg.data_type.as_str()).concat("\"\n");
                    text.append(line.as_str());
                    assert(text@ =~= line@);
                }
                let ghost first = text@;
                if !self.is_match(arg.search_kind) {
                    let line = "Unsupported search phase: \"".to_owned().concat(
                        arg.search_kind_name,
                    ).concat("\" - expected one of ").concat(kinds_text).concat("\n");
                    text.append(line.as_str());
                } else {
                    assert(first + Seq::<char>::empty() =~= first);
                }
            },
            None => {
                text = "Data/Query Type: ".to_owned().concat(self.data_type.as_str()).concat(
                    "\nSearch Kinds: ",
                ).concat(kinds_text).concat("\n");
            },
        }
        text
    }
}

/// A benchmark, with the name that it is registered under.
#[derive(Debug)]
pub struct Registration {
    pub name: &'static str,
    pub benchmark: FullPrecisionRocksdb,
}

impl Registration {
    /// Whether this registers, under `name`, a benchmark of elements of `data_type` and searches
    /// of `kinds`.
    pub open spec fn is_of(self, name: Seq<char>, data_type: DataType, kinds: Seq<SearchKind>) -> bool {
        &&& self.name@ == name
        &&& self.benchmark.element_type() == data_type
        &&& self.benchmark.kinds() == kinds
    }
}

/// The benchmarks to register: none unless the index can be had.
pub fn register_benchmarks(enabled: bool) -> (benchmarks: Vec<Registration>)
    ensures
        !enabled ==> benchmarks@.len() == 0,
        enabled ==> {
            &&& benchmarks@.len() == 4
            &&& benchmarks@[0].is_of(
                "graph-index-rocksdb-f32"@,
                DataType::Float32,
                seq![SearchKind::Topk, SearchKind::Range],
            )
            &&& benchmarks@[1].is_of(
                "graph-index-rocksdb-f16"@,
                DataType::Float16,
                seq![SearchKind::Topk],
            )
            &&& benchmarks@[2].is_of(
                "graph-index-rocksdb-u8"@,
                DataType::UInt8,
                seq![SearchKind::Topk],
            )
            &&& benchmarks@[3].is_of(
                "graph-index-rocksdb-i8"@,
                DataType::Int8,
                seq![SearchKind::Topk],
            )
        },
{
    let mut benchmarks: Vec<Registration> = Vec::new();
    if !enabled {
        return benchmarks;
    }
    benchmarks.push(
        Registration {
            name: "graph-index-rocksdb-f32",
            benchmark: FullPrecisionRocksdb::new(DataType::Float32).search(SearchKind::Topk).search(
                SearchKind::Range,
            ),
        },
    );
    benchmarks.push(
        Registration {
            name: "graph-index-rocksdb-f16",
            benchmark: FullPrecisionRocksdb::new(DataType::Float16).search(SearchKind::Topk),
        },
    );
    benchmarks.push(
        Registration {
            name: "graph-index-rocksdb-u8",
            benchmark: FullPrecisionRocksdb::new(DataType::UInt8).search(SearchKind::Topk),
        },
    );
    benchmarks.push(
        Registration {
            name: "graph-index-rocksdb-i8",
            benchmark: FullPrecisionRocksdb::new(DataType::Int8).search(SearchKind::Topk),
        },
    );
    proof {
        assert(benchmarks@[0].benchmark.kinds() =~= seq![SearchKind::Topk, SearchKind::Range]);
        assert(benchmarks@[1].benchmark.kinds() =~= seq![SearchKind::Topk]);
        assert(benchmarks@[2].benchmark.kinds() =~= seq![SearchKind::Topk]);
        assert(benchmarks@[3].benchmark.kinds() =~= seq![SearchKind::Topk]);
    }
    benchmarks
}

/// Where a benchmark takes its index from.
#[derive(Clone, Copy, Debug, PartialEq, Eq, Structural)]
pub enum IndexSource {
    /// It is built, and saved where there is a path for it.
    Build { has_save_path: bool },
    /// It is loaded from disk.
    Load,
}

/// What a run of a benchmark does next, once its input was printed.
#[derive(Clone, Copy, Debug, PartialEq, Eq, Structural)]
pub enum RunStep {
    /// Build the index.
    Build,
    /// Save the statistics of the build as a checkpoint.
    Checkpoint,
    /// Run the searches.
    Search,
    /// Print the result.
    Report,
    /// Return the result.
    Done,
}

/// Why a run ends before its result.
#[derive(Clone, Copy, Debug, PartialEq, Eq, Structural)]
pub enum RunRefusal {
    /// Indexes in RocksDB are not loaded.
    Load,
    /// Indexes in RocksDB are not saved.
    Save,
}

impl RunRefusal {
    /// The text of the refusal.
    pub fn message(self) -> (text: &'static str)
        ensures
            text@ == match self {
                RunRefusal::Load =>
                    "graph-index-rocksdb-* does not support loading from disk in Phase 1; only the Build path is implemented"@,
                RunRefusal::Save =>
                    "graph-index-rocksdb-* does not support save_path in Phase 1"@,
            },
    {
        match self {
            RunRefusal::Load =>
                "graph-index-rocksdb-* does not support loading from disk in Phase 1; only the Build path is implemented",
            RunRefusal::Save => "graph-index-rocksdb-* does not support save_path in Phase 1",
        }
    }
}

/// The first step of a run.
pub open spec fn first_of(source: IndexSource) -> Result<RunStep, RunRefusal> {
    match source {
        IndexSource::Build { .. } => Ok(RunStep::Build),
        IndexSource::Load => Err(RunRefusal::Load),
    }
}

/// The step of a run that follows a step that succeeded. That an index is to be saved is looked
/// at once it is built.
pub open spec fn next_of(source: IndexSource, step: RunStep) -> Result<RunStep, RunRefusal> {
    match step {
        RunStep::Build => if source == (IndexSource::Build { has_save_path: true }) {
            Err(RunRefusal::Save)
        } else {
            Ok(RunStep::Checkpoint)
        },
        RunStep::Checkpoint => Ok(RunStep::Search),
        RunStep::Search => Ok(RunStep::Report),
        RunStep::Report => Ok(RunStep::Done),
        RunStep::Done => Ok(RunStep::Done),
    }
}

/// The first step of a run.
pub fn first_step(source: IndexSource) -> (step: Result<RunStep, RunRefusal>)
    ensures
        step == first_of(source),
{
    match source {
        IndexSource::Build { .. } => Ok(RunStep::Build),
        IndexSource::Load => Err(RunRefusal::Load),
    }
}

/// The step of a run that follows a step that succeeded.
pub fn next_step(source: IndexSource, step: RunStep) -> (next: Result<RunStep, RunRefusal>)
    ensures
        next == next_of(source, step),
{
    match step {
        RunStep::Build => match source {
            IndexSource::Build { has_save_path: true } => Err(RunRefusal::Save),
            _ => Ok(RunStep::Checkpoint),
        },
        RunStep::Checkpoint => Ok(RunStep::Search),
        RunStep::Search => Ok(RunStep::Report),
        RunStep::Report => Ok(RunStep::Done),
        RunStep::Done => Ok(RunStep::Done),
    }
}

/// What the start points could not be computed for, as it is reported.
pub fn start_point_failure(cause: &str) -> (text: String)
    ensures
        text@ == "start point compute failed: "@ + cause@,
{
    "start point compute failed: ".to_owned().concat(cause)
}

/// The step of a run after `n` steps that succeeded.
pub open spec fn step_at(source: IndexSource, n: nat) -> Result<RunStep, RunRefusal>
    decreases n,
{
    if n == 0 {
        first_of(source)
    } else {
        match step_at(source, (n - 1) as nat) {
            Ok(step) => next_of(source, step),
            Err(refusal) => Err(refusal),
        }
    }
}

/// A run for an index that is built and not saved builds, saves a checkpoint, searches, reports
/// and is done. No other run gets beyond the build, and a run for an index that is loaded does
/// not get to it.
pub proof fn law_run(source: IndexSource, n: nat)
    ensures
        step_at(source, n) == (match source {
            IndexSource::Load => Err(RunRefusal::Load),
            IndexSource::Build { has_save_path } => if n == 0 {
                Ok(RunStep::Build)
            } else if has_save_path {
                Err(RunRefusal::Save)
            } else if n == 1 {
                Ok(RunStep::Checkpoint)
            } else if n == 2 {
                Ok(RunStep::Search)
            } else if n == 3 {
                Ok(RunStep::Report)
            } else {
                Ok(RunStep::Done)
            },
        }),
    decreases n,
{
    if n > 0 {
        law_run(source, (n - 1) as nat);
    }
}

/// An input fits a benchmark if and only if its type is the type of the benchmark and its kind
/// of search is one of the benchmark's.
pub proof fn law_fitting_inputs(benchmark: FullPrecisionRocksdb, input: BenchmarkInput)
    ensures
        benchmark.score(input) is Ok <==> input.data_type == benchmark.element_type()
            && benchmark.kinds().contains(input.search_kind),
{
}

/// A benchmark has nothing to say about an input that fits it, and something about any other.
pub proof fn law_misfits_are_explained(
    benchmark: FullPrecisionRocksdb,
    input: BenchmarkInput,
    kinds_text: Seq<char>,
)
    ensures
        benchmark.score(input) is Ok <==> benchmark.description_text(Some(input), kinds_text).len()
            == 0,
{
    reveal_strlit("Data/Query Type: expected \"");
    reveal_strlit("Unsupported search phase: \"");
}

/// How far an input misses a benchmark: one of another type by a thousand, whatever its kind of
/// search, and one of the right type, for an unsupported kind, by nothing.
pub proof fn law_misses(benchmark: FullPrecisionRocksdb, input: BenchmarkInput)
    ensures
        input.data_type != benchmark.element_type() ==> benchmark.score(input) == Err::<
            MatchScore,
            FailureScore,
        >(FailureScore(1000)),
        input.data_type == benchmark.element_type() && !benchmark.kinds().contains(
            input.search_kind,
        ) ==> benchmark.score(input) == Err::<MatchScore, FailureScore>(FailureScore(0)),
        benchmark.score(input) matches Ok(score) ==> score == MatchScore(0),
{
}

/// Types have different names.
pub proof fn law_type_names_differ(a: DataType, b: DataType)
    ensures
        a.name() == b.name() ==> a == b,
{
    reveal_strlit("float64");
    reveal_strlit("float32");
    reveal_strlit("float16");
    reveal_strlit("uint8");
    reveal_strlit("uint16");
    reveal_strlit("uint32");
    reveal_strlit("uint64");
    reveal_strlit("int8");
    reveal_strlit("int16");
    reveal_strlit("int32");
    reveal_strlit("int64");
    reveal_strlit("bool");
    let x = a.name();
    let y = b.name();
    if x == y {
        assert(x.len() == y.len());
        assert(x[0] == y[0]);
        assert(x.len() > 4 ==> x[3] == y[3] && x[4] == y[4]);
        assert(x.len() > 5 ==> x[5] == y[5]);
    }
}

/// What a benchmark says. About itself: its type and its kinds of search. About an input: a line if
/// and only if its type is another, with both types, and a line if and only if its kind of search
/// is not supported, with that kind and those that are.
pub proof fn law_descriptions(
    benchmark: FullPrecisionRocksdb,
    input: BenchmarkInput,
    kinds_text: Seq<char>,
)
    ensures
        benchmark.description_text(None, kinds_text) == "Data/Query Type: "@
            + benchmark.element_type().name() + "\nSearch Kinds: "@ + kinds_text + "\n"@,
        ({
            let text = benchmark.description_text(Some(input), kinds_text);
            let wrong_type = "Data/Query Type: expected \""@ + benchmark.element_type().name()
                + "\" but found \""@ + input.data_type.name() + "\"\n"@;
            let wrong_kind = "Unsupported search phase: \""@ + input.search_kind_name@
                + "\" - expected one of "@ + kinds_text + "\n"@;
            let same_type = input.data_type == benchmark.element_type();
            let supported = benchmark.kinds().contains(input.search_kind);
            &&& same_type && supported ==> text.len() == 0
            &&& same_type && !supported ==> text == wrong_kind
            &&& !same_type && supported ==> text == wrong_type
            &&& !same_type && !supported ==> text == wrong_type + wrong_kind
        }),
{
    let text = benchmark.description_text(Some(input), kinds_text);
    let wrong_type = "Data/Query Type: expected \""@ + benchmark.element_type().name()
        + "\" but found \""@ + input.data_type.name() + "\"\n"@;
    let wrong_kind = "Unsupported search phase: \""@ + input.search_kind_name@
        + "\" - expected one of "@ + kinds_text + "\n"@;
    assert(Seq::<char>::empty() + wrong_kind =~= wrong_kind);
    assert(wrong_type + Seq::<char>::empty() =~= wrong_type);
}

} // verus!
