use stack_opt::analyzer::{analyze_package, analyze_package_on, Insight, Severity};
use stack_opt::cli::{parse_args, FailLevel};
use stack_opt::metadata::{check_status, metadata_from_record, resolve_response, Date, FetchError, PackageMeta, RegistryRecord, RegistryVersion};
use stack_opt::parser::package_names;
use stack_opt::pipeline::process_fetch;
use stack_opt::report::Report;

fn meta(name: &str) -> PackageMeta {
    PackageMeta {
        name: name.to_string(),
        deprecated: None,
        unpacked_size: None,
        last_updated: None,
        maintainer_count: 2,
    }
}

fn day(y: i32, m: u32, d: u32) -> Date {
    Date { day: chrono::Datelike::num_days_from_ce(&chrono::NaiveDate::from_ymd_opt(y, m, d).unwrap()) }
}

fn insight(package: &str, message: &str, severity: Severity) -> Insight {
    Insight { package: package.to_string(), message: message.to_string(), severity }
}

#[test]
fn clean_package_has_no_findings() {
    assert!(analyze_package_on(&meta("a"), Date { day: 800000 }).is_empty());
}

#[test]
fn deprecation_gives_one_critical_with_reason() {
    let mut m = meta("old");
    m.deprecated = Some("use something else".to_string());
    let r = analyze_package_on(&m, Date { day: 800000 });
    assert_eq!(r.len(), 1);
    assert_eq!(r[0].severity, Severity::Critical);
    assert_eq!(r[0].package, "old");
    assert_eq!(r[0].message, "⚠️ Deprecated: use something else");
    assert!(r[0].message.contains("use something else"));
}

#[test]
fn size_rule_renders_kilobytes() {
    let mut m = meta("big");
    m.unpacked_size = Some(250000);
    let r = analyze_package_on(&m, Date { day: 800000 });
    assert_eq!(r.len(), 1);
    assert_eq!(r[0].severity, Severity::Warning);
    assert_eq!(r[0].message, "🐘 Large size (~244.1 KB)");
    m.unpacked_size = Some(1_000_000);
    assert_eq!(analyze_package_on(&m, Date { day: 800000 })[0].message, "🐘 Large size (~976.6 KB)");
}

#[test]
fn size_rule_threshold_is_exclusive() {
    let mut m = meta("edge");
    m.unpacked_size = Some(200000);
    assert!(analyze_package_on(&m, Date { day: 800000 }).is_empty());
    m.unpacked_size = Some(200001);
    let r = analyze_package_on(&m, Date { day: 800000 });
    assert_eq!(r.len(), 1);
    assert_eq!(r[0].message, "🐘 Large size (~195.3 KB)");
}

#[test]
fn staleness_boundary() {
    let mut m = meta("s");
    m.last_updated = Some(Date { day: 1000 });
    assert!(analyze_package_on(&m, Date { day: 1365 }).is_empty());
    let r = analyze_package_on(&m, Date { day: 1366 });
    assert_eq!(r.len(), 1);
    assert_eq!(r[0].severity, Severity::Warning);
    assert_eq!(r[0].message, "🕒 Last updated 366 days ago");
    assert!(analyze_package_on(&m, Date { day: 900 }).is_empty());
}

#[test]
fn maintainer_rule() {
    for (n, hits) in [(0usize, 1usize), (1, 1), (2, 0), (7, 0)] {
        let mut m = meta("m");
        m.maintainer_count = n;
        let r = analyze_package_on(&m, Date { day: 800000 });
        assert_eq!(r.len(), hits);
        if hits == 1 {
            assert_eq!(r[0].severity, Severity::Info);
            assert_eq!(r[0].message, "👤 Only one maintainer");
        }
    }
}

#[test]
fn all_rules_in_order() {
    let m = PackageMeta {
        name: "x".to_string(),
        deprecated: Some("gone".to_string()),
        unpacked_size: Some(300000),
        last_updated: Some(Date { day: 100 }),
        maintainer_count: 0,
    };
    let r = analyze_package_on(&m, Date { day: 1100 });
    let sev: Vec<Severity> = r.iter().map(|i| i.severity).collect();
    assert_eq!(sev, vec![Severity::Critical, Severity::Warning, Severity::Warning, Severity::Info]);
    assert_eq!(r[2].message, "🕒 Last updated 1000 days ago");
}

#[test]
fn evaluation_is_repeatable() {
    let mut m = meta("r");
    m.unpacked_size = Some(512000);
    m.maintainer_count = 1;
    let a = analyze_package_on(&m, Date { day: 700000 });
    let b = analyze_package_on(&m, Date { day: 700000 });
    assert_eq!(a.len(), b.len());
    for (x, y) in a.iter().zip(b.iter()) {
        assert_eq!(x.package, y.package);
        assert_eq!(x.message, y.message);
        assert_eq!(x.severity, y.severity);
    }
}

#[test]
fn current_date_is_taken_for_staleness() {
    let mut m = meta("fresh");
    m.last_updated = Some(day(2001, 1, 1));
    let r = analyze_package(&m);
    assert_eq!(r.len(), 1);
    assert!(r[0].message.starts_with("🕒 Last updated "));
}

fn outcome(report: &mut Report, package: &str, found: Vec<Insight>) {
    report.record_outcome(&package.to_string(), found);
}

#[test]
fn merge_order_does_not_change_totals() {
    let outcomes = vec![
        ("a", vec![]),
        ("b", vec![insight("b", "w", Severity::Warning), insight("b", "i", Severity::Info)]),
        ("c", vec![insight("c", "c", Severity::Critical)]),
    ];
    let orders = [[0, 1, 2], [0, 2, 1], [1, 0, 2], [1, 2, 0], [2, 0, 1], [2, 1, 0]];
    for order in orders {
        let mut r = Report::new();
        for k in order {
            let (p, f) = &outcomes[k];
            outcome(&mut r, p, f.clone());
        }
        assert_eq!(r.total(), 3);
        assert_eq!(r.clean_count(), 1);
        assert_eq!(r.count(Severity::Info), 1);
        assert_eq!(r.count(Severity::Warning), 1);
        assert_eq!(r.count(Severity::Critical), 1);
        assert_eq!(r.insights.len(), 3);
    }
}

#[test]
fn add_counts_and_marks_issue() {
    let mut r = Report::new();
    r.add(insight("p", "one", Severity::Warning));
    r.add(insight("p", "two", Severity::Warning));
    r.record_clean(&"q".to_string());
    r.record_clean(&"q".to_string());
    assert_eq!(r.total(), 2);
    assert_eq!(r.clean_count(), 1);
    assert_eq!(r.count(Severity::Warning), 2);
    assert_eq!(r.packages_with_issues, vec!["p".to_string()]);
    assert!(r.has_at_least(Severity::Info));
    assert!(r.has_at_least(Severity::Warning));
    assert!(!r.has_at_least(Severity::Critical));
}

#[test]
fn fail_levels() {
    let mut r = Report::new();
    r.add(insight("p", "i", Severity::Info));
    assert!(!r.is_failure(&FailLevel::Never));
    assert!(!r.is_failure(&FailLevel::Warn));
    assert!(!r.is_failure(&FailLevel::Crit));
    r.add(insight("p", "c", Severity::Critical));
    assert!(r.is_failure(&FailLevel::Warn));
    assert!(r.is_failure(&FailLevel::Crit));
}

fn record(latest: &str, versions: Vec<RegistryVersion>, modified: Option<&str>, maintainers: Option<usize>) -> RegistryRecord {
    let mut time = vec![("created".to_string(), "2010-01-01T00:00:00.000Z".to_string())];
    if let Some(m) = modified {
        time.push(("modified".to_string(), m.to_string()));
    }
    RegistryRecord { latest: latest.to_string(), versions, time, maintainers }
}

fn version(v: &str, deprecated: Option<&str>, size: Option<u64>) -> RegistryVersion {
    RegistryVersion { version: v.to_string(), deprecated: deprecated.map(|s| s.to_string()), unpacked_size: size }
}

#[test]
fn record_reads_latest_version() {
    let rec = record(
        "2.0.0",
        vec![version("1.0.0", Some("old"), Some(5)), version("2.0.0", None, Some(300000))],
        Some("2023-06-15T08:30:00.123Z"),
        Some(3),
    );
    let m = metadata_from_record("pkg", &rec).unwrap();
    assert_eq!(m.name, "pkg");
    assert_eq!(m.deprecated, None);
    assert_eq!(m.unpacked_size, Some(300000));
    assert_eq!(m.last_updated, Some(day(2023, 6, 15)));
    assert_eq!(m.maintainer_count, 3);
}

#[test]
fn record_with_bad_timestamp_has_no_date() {
    let rec = record("1.0.0", vec![version("1.0.0", None, None)], Some("15/06/2023"), None);
    let m = metadata_from_record("pkg", &rec).unwrap();
    assert_eq!(m.last_updated, None);
    assert_eq!(m.maintainer_count, 0);
    let rec = record("1.0.0", vec![version("1.0.0", None, None)], None, Some(1));
    assert_eq!(metadata_from_record("pkg", &rec).unwrap().last_updated, None);
}

#[test]
fn record_with_unknown_latest_fails() {
    let rec = record("3.0.0", vec![version("1.0.0", None, None)], None, None);
    assert_eq!(metadata_from_record("pkg", &rec).unwrap_err(), FetchError::UnknownVersion);
}

#[test]
fn status_check() {
    assert_eq!(check_status(200), Ok(()));
    assert_eq!(check_status(299), Ok(()));
    assert_eq!(check_status(404), Err(FetchError::HttpStatus(404)));
    assert_eq!(check_status(301), Err(FetchError::HttpStatus(301)));
}

#[test]
fn scenario_deprecated_left_pad() {
    let rec = record(
        "1.3.0",
        vec![version("1.3.0", Some("use String.prototype.padStart"), None)],
        Some("2024-03-01T10:00:00.000Z"),
        None,
    );
    let mut report = Report::new();
    let fetched = metadata_from_record("left-pad", &rec);
    let err = process_fetch(&mut report, &"left-pad".to_string(), fetched, day(2024, 3, 1));
    assert!(err.is_none());
    assert_eq!(report.insights.len(), 2);
    assert_eq!(report.count(Severity::Critical), 1);
    assert_eq!(report.count(Severity::Info), 1);
    assert!(report.insights[0].message.contains("use String.prototype.padStart"));
    assert_eq!(report.packages_scanned, vec!["left-pad".to_string()]);
    assert_eq!(report.packages_with_issues, vec!["left-pad".to_string()]);
}

#[test]
fn scenario_fetch_not_found() {
    let mut report = Report::new();
    let fetched = check_status(404).map(|_| meta("missing"));
    let err = process_fetch(&mut report, &"missing".to_string(), fetched, Date { day: 800000 });
    assert_eq!(err, Some(FetchError::HttpStatus(404)));
    assert_eq!(report.total(), 0);
    assert!(report.packages_with_issues.is_empty());
    assert!(!report.is_failure(&FailLevel::Never));
}

#[test]
fn scenario_warning_threshold() {
    let mut report = Report::new();
    let mut big = meta("big");
    big.unpacked_size = Some(400000);
    assert_eq!(process_fetch(&mut report, &"clean".to_string(), Ok(meta("clean")), Date { day: 800000 }), None);
    assert_eq!(process_fetch(&mut report, &"big".to_string(), Ok(big), Date { day: 800000 }), None);
    assert_eq!(report.total(), 2);
    assert_eq!(report.clean_count(), 1);
    assert!(report.is_failure(&FailLevel::Warn));
    assert!(!report.is_failure(&FailLevel::Crit));
}

#[test]
fn args_defaults() {
    let a = parse_args(None, false, false, None);
    assert_eq!(a.path, ".");
    assert_eq!(a.fail_on, FailLevel::Never);
    let b = parse_args(Some("proj".to_string()), true, true, Some(FailLevel::Crit));
    assert_eq!(b.path, "proj");
    assert!(b.no_dev && b.json);
    assert_eq!(b.fail_on, FailLevel::Crit);
}

#[test]
fn names_of_dependencies() {
    let deps = vec![("a".to_string(), "^1".to_string()), ("b".to_string(), "*".to_string())];
    assert_eq!(package_names(&deps), vec!["a".to_string(), "b".to_string()]);
}

#[test]
fn response_errors_in_order() {
    let rec = || record("1.0.0", vec![version("1.0.0", None, Some(10))], None, Some(2));
    assert_eq!(resolve_response("p", 500, Some(rec())).unwrap_err(), FetchError::HttpStatus(500));
    assert_eq!(resolve_response("p", 404, None).unwrap_err(), FetchError::HttpStatus(404));
    assert_eq!(resolve_response("p", 200, None).unwrap_err(), FetchError::InvalidPayload);
    let m = resolve_response("p", 200, Some(rec())).unwrap();
    assert_eq!(m.unpacked_size, Some(10));
    assert_eq!(m.maintainer_count, 2);
    let bad = record("2.0.0", vec![version("1.0.0", None, None)], None, None);
    assert_eq!(resolve_response("p", 200, Some(bad)).unwrap_err(), FetchError::UnknownVersion);
}
