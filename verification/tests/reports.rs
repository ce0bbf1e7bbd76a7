use cryo_freeze::types::reports::{copy_strings, EARLIEST_TIME, LATEST_TIME};
use cryo_freeze::types::summaries::{flatten_paths, resolve_known_partitions, resolve_partitions};
use cryo_freeze::{
    build_report, get_cryo_version, get_report_path, prepare_report, report_dir, report_filename,
    report_path, serialize_summary, start_timestamp, ExecutionEnv, FileOutput, FreezeSummary,
};

fn env_at(t_start: i64, report_dir: Option<&str>) -> ExecutionEnv {
    env_at_offset(t_start, 0, report_dir)
}

fn env_at_offset(t_start: i64, utc_offset_seconds: i32, report_dir: Option<&str>) -> ExecutionEnv {
    ExecutionEnv {
        t_start,
        utc_offset_seconds,
        report_dir: report_dir.map(|dir| dir.to_string()),
        cli_command: Some(vec!["cryo".to_string(), "logs".to_string()]),
        args: Some("{\"datatype\":\"logs\"}".to_string()),
    }
}

fn sink_at(output_dir: &str) -> FileOutput {
    FileOutput { output_dir: output_dir.to_string() }
}

fn paths_of(partition: &u32) -> Vec<String> {
    vec![format!("out/logs__{}.parquet", partition), format!("out/blocks__{}.parquet", partition)]
}

fn joined(base: &str, part: &str) -> String {
    std::path::Path::new(base).join(part).to_string_lossy().into_owned()
}

fn no_summary() -> Option<&'static FreezeSummary<u32>> {
    None
}

fn is_timestamp(text: &str) -> bool {
    let shape = "dddd-dd-dd_dd-dd-dd";
    text.len() == shape.len()
        && text.chars().zip(shape.chars()).all(|(c, s)| if s == 'd' {
            c.is_ascii_digit()
        } else {
            c == s
        })
}

#[test]
fn summary_is_serialized_partition_by_partition() {
    let summary =
        FreezeSummary { completed: vec![1u32], errored: vec![None, Some(2)], skipped: vec![3, 4] };
    let serialized = serialize_summary(&summary, paths_of);
    assert_eq!(serialized.completed_paths, paths_of(&1));
    assert_eq!(serialized.errored_paths, paths_of(&2));
    assert_eq!(serialized.n_skipped, 2);
}

#[test]
fn empty_summary_serializes_to_nothing() {
    let summary: FreezeSummary<u32> =
        FreezeSummary { completed: Vec::new(), errored: Vec::new(), skipped: Vec::new() };
    let serialized = serialize_summary(&summary, paths_of);
    assert!(serialized.completed_paths.is_empty());
    assert!(serialized.errored_paths.is_empty());
    assert_eq!(serialized.n_skipped, 0);
}

#[test]
fn paths_keep_the_order_of_the_summary() {
    let summary = FreezeSummary {
        completed: vec![5u32, 1, 3],
        errored: vec![Some(9), None, None, Some(7)],
        skipped: Vec::new(),
    };
    let serialized = serialize_summary(&summary, |partition: &u32| vec![partition.to_string()]);
    assert_eq!(serialized.completed_paths, vec!["5", "1", "3"]);
    assert_eq!(serialized.errored_paths, vec!["9", "7"]);
    assert_eq!(serialized.n_skipped, 0);
}

#[test]
fn order_of_the_summary_carries_no_meaning() {
    let summary = FreezeSummary {
        completed: vec![5u32, 1, 3],
        errored: vec![Some(9), None, Some(7)],
        skipped: vec![2, 4],
    };
    let reordered = FreezeSummary {
        completed: vec![3u32, 5, 1],
        errored: vec![None, Some(7), Some(9)],
        skipped: vec![4, 2],
    };
    let first = serialize_summary(&summary, paths_of);
    let second = serialize_summary(&reordered, paths_of);
    let sorted = |mut paths: Vec<String>| {
        paths.sort();
        paths
    };
    assert_ne!(first.completed_paths, second.completed_paths);
    assert_eq!(sorted(first.completed_paths), sorted(second.completed_paths));
    assert_eq!(sorted(first.errored_paths), sorted(second.errored_paths));
    assert_eq!(first.n_skipped, second.n_skipped);
}

#[test]
fn failures_without_a_partition_give_no_paths() {
    let summary: FreezeSummary<u32> =
        FreezeSummary { completed: Vec::new(), errored: vec![None, None], skipped: vec![8] };
    let serialized = serialize_summary(&summary, paths_of);
    assert!(serialized.errored_paths.is_empty());
    assert_eq!(serialized.n_skipped, 1);
}

#[test]
fn partition_without_paths_adds_none() {
    let summary =
        FreezeSummary { completed: vec![1u32, 2, 3], errored: Vec::new(), skipped: Vec::new() };
    let serialized = serialize_summary(&summary, |partition: &u32| {
        if *partition == 2 {
            Vec::new()
        } else {
            paths_of(partition)
        }
    });
    assert_eq!(serialized.completed_paths, [paths_of(&1), paths_of(&3)].concat());
}

#[test]
fn flatten_paths_joins_the_lists() {
    let paths = vec![vec!["a".to_string(), "b".to_string()], Vec::new(), vec!["c".to_string()]];
    assert_eq!(flatten_paths(paths), vec!["a", "b", "c"]);
    assert!(flatten_paths(Vec::new()).is_empty());
}

#[test]
fn resolve_partitions_asks_for_each() {
    assert_eq!(resolve_partitions(&vec![4u32, 6], &paths_of), vec![paths_of(&4), paths_of(&6)]);
}

#[test]
fn resolve_known_partitions_skips_the_unknown() {
    assert_eq!(
        resolve_known_partitions(&vec![None, Some(4u32), None, Some(6)], &paths_of),
        vec![paths_of(&4), paths_of(&6)]
    );
}

#[test]
fn version_without_build_description() {
    assert_eq!(get_cryo_version("0.2.0", None), "0.2.0__unknown");
}

#[test]
fn version_with_build_description() {
    assert_eq!(get_cryo_version("0.2.0", Some("v0.2.0-3-gabc1234")), "0.2.0__v0.2.0-3-gabc1234");
}

#[test]
fn filename_of_an_interrupted_job_is_marked() {
    assert_eq!(
        report_filename("2023-08-01_12-30-45", false),
        "incomplete_2023-08-01_12-30-45.json"
    );
}

#[test]
fn filename_of_a_finished_job_is_not_marked() {
    assert_eq!(report_filename("2023-08-01_12-30-45", true), "2023-08-01_12-30-45.json");
}

#[test]
fn filenames_of_one_start_time_differ() {
    assert_ne!(
        report_filename("2023-08-01_12-30-45", true),
        report_filename("2023-08-01_12-30-45", false)
    );
    assert_ne!(report_filename("", true), report_filename("", false));
}

#[test]
fn report_dir_defaults_to_a_directory_under_the_output() {
    assert_eq!(report_dir(&env_at(0, None), &sink_at("out")), joined("out", ".cryo/reports"));
    assert_eq!(
        report_dir(&env_at(0, None), &sink_at("out")),
        format!("out{}.cryo/reports", std::path::MAIN_SEPARATOR)
    );
    assert_ne!(report_dir(&env_at(0, None), &sink_at("out")), "out");
    assert_ne!(report_dir(&env_at(0, None), &sink_at("out")), ".cryo/reports");
}

#[test]
fn report_dir_can_be_overridden() {
    assert_eq!(report_dir(&env_at(0, Some("my_reports")), &sink_at("out")), "my_reports");
}

#[test]
fn report_path_is_the_file_in_the_directory() {
    let path = report_path(&env_at(0, None), &sink_at("out"), "2023-08-01_12-30-45", true);
    assert_eq!(path, joined(&joined("out", ".cryo/reports"), "2023-08-01_12-30-45.json"));
    let path =
        report_path(&env_at(0, Some("my_reports")), &sink_at("out"), "2023-08-01_12-30-45", false);
    assert_eq!(path, joined("my_reports", "incomplete_2023-08-01_12-30-45.json"));
    assert_eq!(
        path,
        format!("my_reports{}incomplete_2023-08-01_12-30-45.json", std::path::MAIN_SEPARATOR)
    );
}

#[test]
fn report_path_is_the_same_when_asked_again() {
    let env = env_at(1_690_893_045, None);
    let sink = sink_at("out");
    assert_eq!(
        report_path(&env, &sink, "2023-08-01_12-30-45", true),
        report_path(&env, &sink, "2023-08-01_12-30-45", true)
    );
    assert_eq!(get_report_path(&env, &sink, true), get_report_path(&env, &sink, true));
    assert_eq!(get_report_path(&env, &sink, false), get_report_path(&env, &sink, false));
    assert_ne!(get_report_path(&env, &sink, true), get_report_path(&env, &sink, false));
}

fn file_name_of(path: &str) -> String {
    std::path::Path::new(path).file_name().unwrap().to_str().unwrap().to_string()
}

fn parent_of(path: &str) -> String {
    std::path::Path::new(path).parent().unwrap().to_str().unwrap().to_string()
}

#[test]
fn get_report_path_writes_the_start_time_to_the_second() {
    let env = env_at(1_690_893_045, Some("reports"));
    let path = get_report_path(&env, &sink_at("out"), true).unwrap();
    assert_eq!(path, joined("reports", "2023-08-01_12-30-45.json"));
    assert_eq!(parent_of(&path), "reports");
    let name = file_name_of(&path);
    assert!(is_timestamp(name.strip_suffix(".json").unwrap()));
}

#[test]
fn get_report_path_writes_local_time() {
    let sink = sink_at("out");
    let east = env_at_offset(1_690_893_045, 7_200, Some("reports"));
    assert_eq!(
        get_report_path(&east, &sink, true).unwrap(),
        joined("reports", "2023-08-01_14-30-45.json")
    );
    let west = env_at_offset(1_690_893_045, -45_900, Some("reports"));
    assert_eq!(
        get_report_path(&west, &sink, true).unwrap(),
        joined("reports", "2023-07-31_23-45-45.json")
    );
}

#[test]
fn get_report_path_marks_an_interrupted_job() {
    let env = env_at(1_690_893_045, None);
    let sink = sink_at("out");
    let complete = get_report_path(&env, &sink, true).unwrap();
    let incomplete = get_report_path(&env, &sink, false).unwrap();
    assert_eq!(parent_of(&incomplete), joined("out", ".cryo/reports"));
    assert_eq!(parent_of(&complete), parent_of(&incomplete));
    assert_eq!(file_name_of(&incomplete), "incomplete_2023-08-01_12-30-45.json");
    assert_eq!(file_name_of(&complete), "2023-08-01_12-30-45.json");
    assert!(!file_name_of(&complete).starts_with("incomplete_"));
}

#[test]
fn get_report_path_follows_the_start_time() {
    let sink = sink_at("out");
    let early = get_report_path(&env_at(1_690_893_045, None), &sink, true).unwrap();
    let late = get_report_path(&env_at(1_690_893_046, None), &sink, true).unwrap();
    assert_ne!(early, late);
    assert_eq!(file_name_of(&late), "2023-08-01_12-30-46.json");
    assert_eq!(
        file_name_of(&get_report_path(&env_at(0, None), &sink, true).unwrap()),
        "1970-01-01_00-00-00.json"
    );
    assert_eq!(
        file_name_of(&get_report_path(&env_at(-1, None), &sink, true).unwrap()),
        "1969-12-31_23-59-59.json"
    );
}

#[test]
fn start_timestamp_is_the_start_to_the_second() {
    assert_eq!(start_timestamp(&env_at(951_827_696, None)).unwrap(), "2000-02-29_12-34-56");
    assert_eq!(
        start_timestamp(&env_at_offset(951_827_696, 3_600, None)).unwrap(),
        "2000-02-29_13-34-56"
    );
    assert_eq!(start_timestamp(&env_at_offset(0, 86_400, None)), None);
}

#[test]
fn times_that_can_be_written_are_those_of_chrono() {
    assert_eq!(chrono::DateTime::<chrono::Utc>::MIN_UTC.timestamp(), EARLIEST_TIME);
    assert_eq!(chrono::DateTime::<chrono::Utc>::MAX_UTC.timestamp(), LATEST_TIME);
    assert!(chrono::DateTime::from_timestamp(EARLIEST_TIME - 1, 0).is_none());
    assert!(chrono::DateTime::from_timestamp(LATEST_TIME + 1, 0).is_none());
    assert!(chrono::FixedOffset::east_opt(86_399).is_some());
    assert!(chrono::FixedOffset::east_opt(-86_399).is_some());
    assert!(chrono::FixedOffset::east_opt(86_400).is_none());
    assert!(chrono::FixedOffset::east_opt(-86_400).is_none());
}

fn is_time_text(text: &str) -> bool {
    !text.is_empty() && text.chars().all(|c| c.is_ascii_digit() || "-_+".contains(c))
}

#[test]
fn every_start_that_can_be_written_has_a_path() {
    let sink = sink_at("out");
    let starts =
        [EARLIEST_TIME, -62_135_596_801, -1, 0, 1, 1_690_893_045, 253_402_300_800, LATEST_TIME];
    for t_start in starts {
        for offset in [-86_399, -3_600, 0, 19_800, 86_399] {
            let env = env_at_offset(t_start, offset, Some("reports"));
            let timestamp = start_timestamp(&env).unwrap();
            assert!(is_time_text(&timestamp));
            for is_complete in [true, false] {
                let path = get_report_path(&env, &sink, is_complete).unwrap();
                assert_eq!(path, report_path(&env, &sink, &timestamp, is_complete));
                assert_eq!(file_name_of(&path).starts_with("incomplete_"), !is_complete);
            }
        }
    }
}

#[test]
fn years_beyond_four_digits_are_written_with_a_sign() {
    assert_eq!(start_timestamp(&env_at(253_402_300_800, None)).unwrap(), "+10000-01-01_00-00-00");
    assert_eq!(start_timestamp(&env_at(-62_135_596_801, None)).unwrap(), "0000-12-31_23-59-59");
    assert_eq!(start_timestamp(&env_at(LATEST_TIME, None)).unwrap(), "+262142-12-31_23-59-59");
    assert_eq!(start_timestamp(&env_at(EARLIEST_TIME, None)).unwrap(), "-262143-01-01_00-00-00");
}

#[test]
fn get_report_path_of_a_start_that_cannot_be_written() {
    let sink = sink_at("out");
    assert_eq!(get_report_path(&env_at(i64::MAX, None), &sink, true), None);
    assert_eq!(get_report_path(&env_at(i64::MIN, None), &sink, false), None);
    assert_eq!(get_report_path(&env_at(LATEST_TIME + 1, None), &sink, true), None);
    assert_eq!(get_report_path(&env_at(EARLIEST_TIME - 1, None), &sink, true), None);
    assert_eq!(get_report_path(&env_at_offset(0, 86_400, None), &sink, true), None);
    assert_eq!(get_report_path(&env_at_offset(0, -86_400, None), &sink, true), None);
    assert_eq!(get_report_path(&env_at_offset(0, i32::MIN, None), &sink, true), None);
}

#[test]
fn copy_strings_copies() {
    let texts = vec!["cryo".to_string(), String::new(), "logs".to_string()];
    assert_eq!(copy_strings(&texts), texts);
    assert!(copy_strings(&Vec::new()).is_empty());
}

#[test]
fn report_of_a_finished_job_holds_the_summary() {
    let summary =
        FreezeSummary { completed: vec![1u32], errored: vec![None, Some(2)], skipped: vec![3, 4] };
    let env = env_at(0, None);
    let report = build_report(&env, "0.2.0", None, Some(&summary), paths_of);
    assert_eq!(report.cryo_version, "0.2.0__unknown");
    assert_eq!(report.cli_command, env.cli_command);
    assert_eq!(report.args, env.args);
    let results = report.results.unwrap();
    assert_eq!(results.completed_paths, paths_of(&1));
    assert_eq!(results.errored_paths, paths_of(&2));
    assert_eq!(results.n_skipped, 2);
}

#[test]
fn report_of_an_interrupted_job_holds_no_summary() {
    let env = ExecutionEnv {
        t_start: 0,
        utc_offset_seconds: 0,
        report_dir: None,
        cli_command: None,
        args: None,
    };
    let report = build_report(&env, "0.2.0", Some("abc"), no_summary(), paths_of);
    assert_eq!(report.cryo_version, "0.2.0__abc");
    assert_eq!(report.cli_command, None);
    assert_eq!(report.args, None);
    assert!(report.results.is_none());
}

#[test]
fn prepared_report_of_a_finished_job() {
    let summary: FreezeSummary<u32> =
        FreezeSummary { completed: vec![6], errored: Vec::new(), skipped: Vec::new() };
    let env = env_at(1_690_893_045, Some("reports"));
    let sink = sink_at("out");
    let (report, path) = prepare_report(&env, &sink, "0.2.0", None, Some(&summary), paths_of);
    assert_eq!(report.results.unwrap().completed_paths, paths_of(&6));
    assert_eq!(path, get_report_path(&env, &sink, true));
    assert!(!file_name_of(&path.unwrap()).starts_with("incomplete_"));
}

#[test]
fn prepared_report_of_an_interrupted_job() {
    let env = env_at(1_690_893_045, Some("reports"));
    let sink = sink_at("out");
    let (report, path) = prepare_report(&env, &sink, "0.2.0", None, no_summary(), paths_of);
    assert!(report.results.is_none());
    assert_eq!(path, get_report_path(&env, &sink, false));
    assert!(file_name_of(&path.unwrap()).starts_with("incomplete_"));
}
