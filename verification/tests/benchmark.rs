use diskann_benchmark_runner::dispatcher::{Description, DispatchRule, Why};
use diskann_benchmark_runner::utils::datatype;
use kvgraph::benchmark::{
    first_step, next_step, register_benchmarks, start_point_failure, BenchmarkInput, DataType,
    FailureScore, IndexSource, MatchScore, RunRefusal, RunStep, SearchKind,
};

fn input(data_type: DataType, search_kind: SearchKind) -> BenchmarkInput<'static> {
    let search_kind_name = match search_kind {
        SearchKind::Topk => "topk",
        SearchKind::Range => "range",
        SearchKind::Other => "multi-hop",
    };
    BenchmarkInput { data_type, search_kind, search_kind_name }
}

#[test]
fn registered_benchmarks() {
    assert!(register_benchmarks(false).is_empty());
    let names: Vec<&str> = register_benchmarks(true).iter().map(|r| r.name).collect();
    assert_eq!(
        names,
        [
            "graph-index-rocksdb-f32",
            "graph-index-rocksdb-f16",
            "graph-index-rocksdb-u8",
            "graph-index-rocksdb-i8",
        ]
    );
}

#[test]
fn scores() {
    let benchmarks = register_benchmarks(true);
    let f32s = &benchmarks[0].benchmark;
    let u8s = &benchmarks[2].benchmark;
    assert_eq!(f32s.try_match(&input(DataType::Float32, SearchKind::Range)), Ok(MatchScore(0)));
    assert_eq!(
        f32s.try_match(&input(DataType::Float16, SearchKind::Topk)),
        Err(FailureScore(1000))
    );
    assert_eq!(
        f32s.try_match(&input(DataType::Float32, SearchKind::Other)),
        Err(FailureScore(0))
    );
    assert_eq!(
        u8s.try_match(&input(DataType::Int8, SearchKind::Range)),
        Err(FailureScore(1000))
    );
    assert_eq!(u8s.try_match(&input(DataType::UInt8, SearchKind::Topk)), Ok(MatchScore(0)));
    assert_eq!(u8s.try_match(&input(DataType::UInt8, SearchKind::Range)), Err(FailureScore(0)));
}

#[test]
fn scores_are_those_of_the_runner() {
    let ours = register_benchmarks(true);
    let found = datatype::Type::<f32>::try_match(&datatype::DataType::UInt8);
    let expected = ours[0].benchmark.try_match(&input(DataType::UInt8, SearchKind::Topk));
    assert_eq!(found.map(|s| s.0).map_err(|s| s.0), expected.map(|s| s.0).map_err(|s| s.0));
    let found = datatype::Type::<i8>::try_match(&datatype::DataType::Int8);
    let expected = ours[3].benchmark.try_match(&input(DataType::Int8, SearchKind::Topk));
    assert_eq!(found.map(|s| s.0).map_err(|s| s.0), expected.map(|s| s.0).map_err(|s| s.0));
    assert_eq!(datatype::DataType::Float16.as_str(), DataType::Float16.as_str());
    assert_eq!(datatype::DataType::UInt64.as_str(), DataType::UInt64.as_str());
    assert_eq!(datatype::DataType::Bool.as_str(), DataType::Bool.as_str());
}

#[test]
fn descriptions() {
    let benchmarks = register_benchmarks(true);
    let f32s = &benchmarks[0].benchmark;
    assert_eq!(
        f32s.description(None, "topk, range"),
        "Data/Query Type: float32\nSearch Kinds: topk, range\n"
    );
    assert_eq!(
        f32s.description(Some(input(DataType::Float32, SearchKind::Topk)), "topk, range"),
        ""
    );
    assert_eq!(
        f32s.description(Some(input(DataType::Int8, SearchKind::Other)), "topk, range"),
        "Data/Query Type: expected \"float32\" but found \"int8\"\n\
         Unsupported search phase: \"multi-hop\" - expected one of topk, range\n"
    );
}

#[test]
fn descriptions_are_those_of_the_runner() {
    let benchmarks = register_benchmarks(true);
    let why = Why::<datatype::DataType, datatype::Type<f32>>::new(&datatype::DataType::UInt16);
    assert_eq!(
        benchmarks[0]
            .benchmark
            .description(Some(input(DataType::UInt16, SearchKind::Topk)), "topk"),
        format!("Data/Query Type: {}\n", why)
    );
    let about = Description::<datatype::DataType, datatype::Type<i8>>::new();
    assert_eq!(
        benchmarks[3].benchmark.description(None, "topk"),
        format!("Data/Query Type: {}\nSearch Kinds: topk\n", about)
    );
}

#[test]
fn runs() {
    let built = IndexSource::Build { has_save_path: false };
    let mut steps = vec![first_step(built).unwrap()];
    while *steps.last().unwrap() != RunStep::Done {
        steps.push(next_step(built, *steps.last().unwrap()).unwrap());
    }
    assert_eq!(
        steps,
        [RunStep::Build, RunStep::Checkpoint, RunStep::Search, RunStep::Report, RunStep::Done]
    );

    let saved = IndexSource::Build { has_save_path: true };
    assert_eq!(first_step(saved), Ok(RunStep::Build));
    assert_eq!(next_step(saved, RunStep::Build), Err(RunRefusal::Save));
    assert_eq!(first_step(IndexSource::Load), Err(RunRefusal::Load));
    assert_eq!(
        RunRefusal::Save.message(),
        "graph-index-rocksdb-* does not support save_path in Phase 1"
    );
    assert_eq!(
        RunRefusal::Load.message(),
        "graph-index-rocksdb-* does not support loading from disk in Phase 1; \
         only the Build path is implemented"
    );
    assert_eq!(start_point_failure("no data"), "start point compute failed: no data");
}
