use web_bench::chart::{aggregate, category_order, plan_chart, Endpoint, EndpointRun};
use web_bench::errors::{exit_outcome, to_result, PidError, ProcessError, SuiteError, UnknownFileTypeError};
use web_bench::export::tsv_export;
use web_bench::hello::{greeting, handle_not_found, hello_world, index};
use web_bench::lifecycle::{Action, Event, Removal, Stage, TargetRun};
use web_bench::load::{captures, endpoint_url, load_args, LoadPhase};
use web_bench::reaper::{listener_pid, port_query_args};
use web_bench::samples::{parse_line, parse_samples, seconds_to_nanos};
use web_bench::stats::summarize;
use web_bench::targets::{classpath_arg, output_format, registry, select_targets, OutputFormat};
use web_bench::text::{parse_digits, parse_u32};
use web_bench::versions::{pick_version, version_probes, version_table};

fn run(title: &str, endpoint: Endpoint, samples: Vec<u64>) -> EndpointRun {
    EndpointRun { title: title.to_string(), endpoint, samples }
}

const MS: u64 = 1_000_000;

#[test]
fn csv_line_scales_seconds_to_millis() {
    let ns = parse_line(b"123.45,1.0,1.0,0.5,0.2,0.3,200,0.0").unwrap();
    assert_eq!(ns, 123_450_000_000);
    assert_eq!(ns as f64 / 1e6, 123450.0);
}

#[test]
fn malformed_lines_are_skipped() {
    let content = b"response-time,DNS+dialup,DNS,Request-write,Response-delay,Response-read,status-code,offset\n\
0.0012,0.0005,0.0000,0.0000,0.0011,0.0000,200,0.0031\n\
garbage\n\
1.2.3,1,1,1,1,1,200,1\n\
.,1,1,1,1,1,200,1\n\
0.5,0,0,0,0,0,200,0\n";
    assert_eq!(parse_samples(content), vec![1_200_000, 500_000_000]);
}

#[test]
fn leftmost_record_in_line_is_used() {
    assert_eq!(parse_line(b"x0.25,1,1,1,1,1,200,1"), Some(250_000_000));
    assert_eq!(parse_line(b"0.25,1,1,1,1,1,2x0,1"), None);
    assert_eq!(parse_line(b""), None);
}

#[test]
fn seconds_past_nine_decimals_are_dropped() {
    assert_eq!(seconds_to_nanos(b"0.0000000019"), Some(1));
    assert_eq!(seconds_to_nanos(b"2"), Some(2_000_000_000));
    assert_eq!(seconds_to_nanos(b".5"), Some(500_000_000));
    assert_eq!(seconds_to_nanos(b"."), None);
    assert_eq!(seconds_to_nanos(b"99999999999"), None);
}

#[test]
fn digits_and_pids_parse_like_std() {
    assert_eq!(parse_digits(b"0042"), Some(42));
    assert_eq!(parse_digits(b"4a"), None);
    assert_eq!(parse_u32(b"+12"), Some(12));
    assert_eq!(parse_u32(b"4294967295"), Some(u32::MAX));
    assert_eq!(parse_u32(b"4294967296"), None);
    assert_eq!(parse_u32(b""), None);
    assert_eq!(parse_u32(b"+"), None);
    assert_eq!(parse_u32(b"12\n"), None);
}

#[test]
fn quartiles_interpolate_between_ranks() {
    let q = summarize(&vec![7, 15, 36, 39, 40, 41]).unwrap();
    assert_eq!((q.min, q.q1, q.median, q.q3, q.max), (7, 20, 37, 39, 41));
    let one = summarize(&vec![5]).unwrap();
    assert_eq!((one.min, one.q1, one.median, one.q3, one.max), (5, 5, 5, 5, 5));
    assert!(summarize(&vec![]).is_none());
}

#[test]
fn quartiles_ignore_sample_order() {
    let a = summarize(&vec![3, 1, 4, 1, 5, 9, 2, 6]).unwrap();
    let b = summarize(&vec![9, 6, 5, 4, 3, 2, 1, 1]).unwrap();
    assert_eq!(a, b);
    assert_eq!((a.min, a.median, a.max), (1, 3, 9));
}

fn two_targets() -> Vec<EndpointRun> {
    vec![
        run("B", Endpoint::Index, vec![5 * MS, 4 * MS, 6 * MS]),
        run("B", Endpoint::Pattern, vec![7 * MS]),
        run("A", Endpoint::Index, vec![10 * MS, 9 * MS, 11 * MS]),
        run("A", Endpoint::Pattern, vec![12 * MS]),
    ]
}

#[test]
fn chart_orders_targets_by_descending_median() {
    let sums = aggregate(&two_targets());
    let plan = plan_chart(&sums);
    let titles: Vec<&str> = plan.categories.iter().map(|&i| sums[i].title.as_str()).collect();
    assert_eq!(titles, vec!["A", "B"]);
    assert_eq!(plan.series.len(), 2);
    for s in &plan.series {
        let mut seen: Vec<&str> = s.members.iter().map(|&i| sums[i].title.as_str()).collect();
        seen.sort();
        assert_eq!(seen, vec!["A", "B"]);
        for &i in &s.members {
            assert_eq!(sums[i].endpoint, s.endpoint);
        }
    }
    assert_eq!(sums[2].quartiles.median, 10 * MS);
    assert_eq!(plan.max_ns, 12 * MS);
}

#[test]
fn value_axis_covers_whiskers() {
    let runs = vec![run("A", Endpoint::Index, vec![0, 0, 10, 10])];
    assert_eq!(plan_chart(&aggregate(&runs)).max_ns, 25);
    let runs = vec![run("A", Endpoint::Index, vec![1, 2, 3, 4, 100])];
    assert_eq!(plan_chart(&aggregate(&runs)).max_ns, 100);
}

#[test]
fn series_colors_follow_first_appearance() {
    let runs = vec![
        run("A", Endpoint::Pattern, vec![1]),
        run("A", Endpoint::Index, vec![2]),
    ];
    let plan = plan_chart(&aggregate(&runs));
    assert_eq!(plan.series[0].endpoint, Endpoint::Index);
    assert_eq!((plan.series[0].color, plan.series[0].offset), (1, 10));
    assert_eq!(plan.series[1].endpoint, Endpoint::Pattern);
    assert_eq!((plan.series[1].color, plan.series[1].offset), (0, -10));
    assert_eq!(plan.series[1].members, vec![0]);
}

#[test]
fn equal_medians_keep_data_order() {
    let runs = vec![
        run("X", Endpoint::Index, vec![3]),
        run("Y", Endpoint::Index, vec![3]),
        run("Z", Endpoint::Index, vec![8]),
    ];
    assert_eq!(category_order(&aggregate(&runs)), vec![2, 0, 1]);
}

#[test]
fn export_writes_one_line_per_sample() {
    let runs = vec![
        run("Go", Endpoint::Index, vec![1_200_000, 3 * MS]),
        run("Go", Endpoint::Pattern, vec![123_450_000_000]),
    ];
    let text = String::from_utf8(tsv_export(&runs)).unwrap();
    assert_eq!(
        text,
        "Go\tIndex URL Request\t1.2\nGo\tIndex URL Request\t3\nGo\tPattern URL Request\t123450"
    );
}

#[test]
fn export_and_chart_cover_the_same_pairs() {
    let mut runs = two_targets();
    runs.push(run("C", Endpoint::Index, vec![]));
    let text = String::from_utf8(tsv_export(&runs)).unwrap();
    let mut from_tsv: Vec<(String, String)> = text
        .lines()
        .map(|l| {
            let f: Vec<&str> = l.split('\t').collect();
            (f[0].to_string(), f[1].to_string())
        })
        .collect();
    from_tsv.sort();
    from_tsv.dedup();
    let sums = aggregate(&runs);
    let plan = plan_chart(&sums);
    let mut from_chart: Vec<(String, String)> = plan
        .series
        .iter()
        .flat_map(|s| s.members.iter().map(|&i| (sums[i].title.clone(), s.endpoint.label().to_string())))
        .collect();
    from_chart.sort();
    assert_eq!(from_tsv, from_chart);
    assert_eq!(from_chart.len(), 4);
}

#[test]
fn empty_dataset_exports_nothing() {
    assert!(tsv_export(&vec![]).is_empty());
    let plan = plan_chart(&aggregate(&vec![]));
    assert!(plan.categories.is_empty() && plan.series.is_empty());
    assert_eq!(plan.max_ns, 0);
}

#[test]
fn port_query_output_gives_pid() {
    assert_eq!(listener_pid(b"p1234\nf5\n"), Ok(Some(1234)));
    assert_eq!(listener_pid(b"xp\np42\np7"), Ok(Some(42)));
    assert_eq!(listener_pid(b""), Ok(None));
    assert_eq!(listener_pid(b"f5\n"), Ok(None));
    assert_eq!(listener_pid(b"p99999999999"), Err(SuiteError::BadPid));
    assert_eq!(port_query_args(), vec!["-Fp", "-i", ":3000"]);
}

#[test]
fn exit_codes_map_to_process_errors() {
    assert_eq!(exit_outcome(Some(0)), Ok(()));
    assert_eq!(exit_outcome(Some(2)), Err(ProcessError::new(Some(2))));
    assert_eq!(exit_outcome(None).unwrap_err().code(), None);
    assert_eq!(ProcessError::new(Some(3)).code(), Some(3));
}

#[test]
fn empty_value_becomes_error() {
    assert_eq!(to_result(Some("1.80".to_string())), Ok("1.80".to_string()));
    assert!(to_result(None).is_err());
}

fn drive(m: &mut TargetRun, events: Vec<Event>) -> Vec<Action> {
    events.into_iter().map(|e| m.step(e)).collect()
}

#[test]
fn lifecycle_runs_all_phases_in_order() {
    let (mut m, first) = TargetRun::new(true, 30);
    assert_eq!(first, Action::ReapPort);
    let csv = b"0.002,0,0,0,0,0,200,0\n0.004,0,0,0,0,0,200,0".to_vec();
    let actions = drive(
        &mut m,
        vec![
            Event::PortReaped(true),
            Event::PortReaped(true),
            Event::PortReaped(false),
            Event::Succeeded,
            Event::MarkerRemoved(Removal::Absent),
            Event::Succeeded,
            Event::MarkerRead(None),
            Event::Succeeded,
            Event::MarkerRead(Some(b"4321".to_vec())),
            Event::LoadFinished(Some(Vec::new())),
            Event::LoadFinished(None),
            Event::LoadFinished(Some(csv.clone())),
            Event::LoadFinished(Some(Vec::new())),
            Event::LoadFinished(None),
            Event::LoadFinished(Some(b"1,0,0,0,0,0,404,0".to_vec())),
            Event::Failed(SuiteError::Io),
        ],
    );
    let load = |endpoint, phase| Action::RunLoad { endpoint, phase };
    assert_eq!(
        actions,
        vec![
            Action::ReapPort,
            Action::ReapPort,
            Action::Build,
            Action::RemoveMarker,
            Action::Spawn,
            Action::ReadMarker,
            Action::Sleep,
            Action::ReadMarker,
            load(Endpoint::Index, LoadPhase::Warmup),
            load(Endpoint::Index, LoadPhase::Display),
            load(Endpoint::Index, LoadPhase::Measure),
            load(Endpoint::Pattern, LoadPhase::Warmup),
            load(Endpoint::Pattern, LoadPhase::Display),
            load(Endpoint::Pattern, LoadPhase::Measure),
            Action::Kill { pid: 4321 },
            Action::Done,
        ]
    );
    assert_eq!(m.stage, Stage::Collected);
    assert_eq!(m.pid, 4321);
    assert_eq!(m.index, vec![2 * MS, 4 * MS]);
    assert_eq!(m.pattern, vec![1_000_000_000]);
}

#[test]
fn stale_marker_is_removed_before_spawn() {
    let (mut m, _) = TargetRun::new(false, 3);
    let actions = drive(&mut m, vec![Event::PortReaped(false), Event::Succeeded]);
    assert_eq!(actions.last(), Some(&Action::RemoveMarker));
    assert_eq!(m.step(Event::Succeeded), Action::Ignored);
    assert_eq!(m.step(Event::MarkerRemoved(Removal::Removed)), Action::Spawn);
    assert_eq!(m.stage, Stage::Launching);
}

#[test]
fn missing_marker_after_first_run_aborts() {
    let (mut m, _) = TargetRun::new(false, 3);
    drive(&mut m, vec![Event::PortReaped(false), Event::Succeeded]);
    let err = SuiteError::MissingMarker;
    assert_eq!(m.step(Event::MarkerRemoved(Removal::Absent)), Action::Abort { error: err });
    assert_eq!(m.step(Event::Succeeded), Action::Abort { error: err });
    let (mut r, _) = TargetRun::new(true, 3);
    drive(&mut r, vec![Event::PortReaped(false), Event::Succeeded]);
    assert_eq!(r.step(Event::MarkerRemoved(Removal::Refused)), Action::Abort { error: SuiteError::Io });
}

#[test]
fn readiness_times_out_after_budget() {
    let (mut m, _) = TargetRun::new(true, 3);
    drive(
        &mut m,
        vec![Event::PortReaped(false), Event::Succeeded, Event::MarkerRemoved(Removal::Removed)],
    );
    let actions = drive(
        &mut m,
        vec![
            Event::Succeeded,
            Event::MarkerRead(None),
            Event::Succeeded,
            Event::MarkerRead(None),
            Event::Succeeded,
            Event::MarkerRead(None),
            Event::Succeeded,
        ],
    );
    let timeout = Action::Abort { error: SuiteError::PidTimeout(PidError {}) };
    assert_eq!(actions.iter().filter(|a| **a == Action::ReadMarker).count(), 3);
    assert_eq!(actions.last(), Some(&timeout));
}

#[test]
fn zero_attempts_time_out_at_launch() {
    let (mut m, _) = TargetRun::new(true, 0);
    drive(
        &mut m,
        vec![Event::PortReaped(false), Event::Succeeded, Event::MarkerRemoved(Removal::Removed)],
    );
    assert_eq!(
        m.step(Event::Succeeded),
        Action::Abort { error: SuiteError::PidTimeout(PidError {}) }
    );
}

#[test]
fn unreadable_pid_aborts() {
    let (mut m, _) = TargetRun::new(true, 5);
    drive(
        &mut m,
        vec![
            Event::PortReaped(false),
            Event::Succeeded,
            Event::MarkerRemoved(Removal::Removed),
            Event::Succeeded,
        ],
    );
    assert_eq!(
        m.step(Event::MarkerRead(Some(b"12ab".to_vec()))),
        Action::Abort { error: SuiteError::BadPid }
    );
}

#[test]
fn failed_build_aborts() {
    let (mut m, _) = TargetRun::new(true, 5);
    m.step(Event::PortReaped(false));
    let err = SuiteError::Process(ProcessError::new(Some(1)));
    assert_eq!(m.step(Event::Failed(err)), Action::Abort { error: err });
    assert_eq!(m.stage, Stage::Failed { error: err });
}

#[test]
fn load_generator_arguments() {
    assert!(!captures(LoadPhase::Display));
    assert!(captures(LoadPhase::Warmup) && captures(LoadPhase::Measure));
    assert_eq!(
        load_args(Endpoint::Pattern, LoadPhase::Measure),
        vec!["-n", "50000", "-c", "256", "-t", "10", "-o", "csv", "http://127.0.0.1:3000/greeting/hello"]
    );
    assert_eq!(
        load_args(Endpoint::Index, LoadPhase::Display),
        vec!["-n", "50000", "-c", "256", "-t", "10", "http://127.0.0.1:3000/"]
    );
    assert_eq!(endpoint_url(Endpoint::Index), "http://127.0.0.1:3000/");
}

#[test]
fn targets_are_selected_in_registry_order() {
    let reg = registry();
    assert_eq!(reg.len(), 13);
    assert_eq!(reg[2].key, "go");
    let req = vec!["scala".to_string(), "go".to_string(), "nope".to_string()];
    assert_eq!(select_targets(&reg, &req), vec![2, 12]);
    let all = select_targets(&reg, &vec!["all".to_string()]);
    assert_eq!(all, (0..13).collect::<Vec<usize>>());
    assert!(select_targets(&reg, &vec!["nope".to_string()]).is_empty());
}

#[test]
fn output_format_follows_extension() {
    assert_eq!(output_format("result.svg"), Ok(OutputFormat::Svg));
    assert_eq!(output_format("out/data.tsv"), Ok(OutputFormat::Tsv));
    assert_eq!(output_format("chart.png"), Ok(OutputFormat::Bitmap));
    assert_eq!(output_format("chart.jpeg"), Ok(OutputFormat::Bitmap));
    assert_eq!(output_format("chart.bmp"), Ok(OutputFormat::Bitmap));
    assert_eq!(
        output_format("result.txt"),
        Err(SuiteError::UnknownFileType(UnknownFileTypeError {}))
    );
    assert_eq!(
        output_format("out.xyz"),
        Err(SuiteError::UnknownFileType(UnknownFileTypeError {}))
    );
    assert_eq!(
        output_format("result."),
        Err(SuiteError::UnknownFileType(UnknownFileTypeError {}))
    );
    assert_eq!(
        output_format("result"),
        Err(SuiteError::UnknownFileType(UnknownFileTypeError {}))
    );
    assert_eq!(
        output_format(".hidden"),
        Err(SuiteError::UnknownFileType(UnknownFileTypeError {}))
    );
}

#[test]
fn classpath_is_jar_then_listing() {
    assert_eq!(classpath_arg("a.jar", " x.jar:y.jar \n", true), "a.jar:x.jar:y.jar");
    assert_eq!(classpath_arg("a.jar", "x.jar\n", false), "a.jar:x.jar\n");
    assert_eq!(classpath_arg("a", "\u{3000}\t\u{a0} ", true), "a:");
    assert_eq!(classpath_arg("a", "\u{2003}b c\u{85}", true), "a:b c");
}

#[test]
fn hello_routes() {
    assert_eq!(index(), "Hello, world!");
    assert_eq!(greeting("bob"), "Hello, bob");
    let root = hello_world("/");
    assert_eq!((root.status, root.body.as_str()), (200, "Hello World!"));
    let named = hello_world("/greeting/abc");
    assert_eq!((named.status, named.body.as_str()), (200, "Hello, abc"));
    for bad in ["/greeting/", "/greeting/ABC", "/greeting/a/b", "/other", "/greeting/é"] {
        let r = hello_world(bad);
        assert_eq!((r.status, r.body.as_str()), (404, "404 Not Found\n"));
    }
    assert_eq!(handle_not_found(true).status, 404);
    let e = handle_not_found(false);
    assert_eq!((e.status, e.body.as_str()), (500, "INTERNAL_SERVER_ERROR"));
}

#[test]
fn version_probes_in_name_order() {
    let names: Vec<&str> = version_probes().iter().map(|p| p.name).collect();
    assert_eq!(
        names,
        vec!["Crystal", "C{pp}/g{pp}", "Go", "Java", "Node.js", "PHP", "PyPy", "Rust", "Scala"]
    );
    let scala = &version_probes()[8];
    assert!(scala.from_stderr && scala.word == Some(4));
}

#[test]
fn version_word_is_picked() {
    assert_eq!(
        pick_version("rustc 1.80.0 (051478957 2024-07-21)\n".to_string(), Some(1)),
        Ok("1.80.0".to_string())
    );
    assert_eq!(
        pick_version(
            "Scala code runner version 2.13.8 -- Copyright 2002-2021".to_string(),
            Some(4)
        ),
        Ok("2.13.8".to_string())
    );
    assert_eq!(
        pick_version("\u{3000}a \t\n b\u{a0}c".to_string(), Some(2)),
        Ok("c".to_string())
    );
    assert!(pick_version("rustc".to_string(), Some(1)).is_err());
    assert_eq!(pick_version("v20.1.0\n".to_string(), None), Ok("v20.1.0\n".to_string()));
}

#[test]
fn version_table_lists_rows() {
    let rows = vec![
        ("Go".to_string(), "go1.22".to_string()),
        ("Rust".to_string(), "1.80.0".to_string()),
    ];
    assert_eq!(
        version_table(&rows),
        "|===\n| Language | Version\n\n| Go\n| go1.22\n\n| Rust\n| 1.80.0\n|==="
    );
    assert_eq!(version_table(&vec![]), "|===\n| Language | Version\n|===");
}
