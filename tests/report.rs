use cargo_profiler::{
    classify_line, metric_count, parse_count, parse_report, profile_report, schema, select,
    FunctionRecord, LineClass, Metric, ProfError, ProfilerKind,
};

const CACHE_REPORT: &str = "\
--------------------------------------------------------------------------------
I1 cache:         32768 B, 64 B, 8-way associative
--------------------------------------------------------------------------------
        Ir I1mr ILmr        Dr D1mr DLmr        Dw D1mw DLmw
--------------------------------------------------------------------------------
123,456 1,234 123 65,432 987 65 32,100 543 21  PROGRAM TOTALS

--------------------------------------------------------------------------------
        Ir I1mr ILmr        Dr D1mr DLmr        Dw D1mw DLmw  file:function
--------------------------------------------------------------------------------
60,000 500 50 30,000 400 30 15,000 200 10  main.rs:foo
63,456 734 73 35,432 587 35 17,100 343 11  main.rs:bar
";

const CALL_REPORT: &str = "\
--------------------------------------------------------------------------------
Profile data file 'callgrind.out' (creator: callgrind-3.15.0)
--------------------------------------------------------------------------------
Ir
--------------------------------------------------------------------------------
1,000,000  PROGRAM TOTALS

--------------------------------------------------------------------------------
Ir  file:function
--------------------------------------------------------------------------------
500,000  ???:core::fmt::write [/usr/bin/app]
300,000  main.rs:app::run
700,000  main.rs:app::main
";

fn chars(s: &str) -> Vec<char> {
    s.chars().collect()
}

fn names(fs: &[FunctionRecord]) -> Vec<String> {
    fs.iter().map(|f| f.name.clone()).collect()
}

fn cache_report_with(rows: &[(u64, &str)]) -> String {
    let mut text = String::from("1 2 3 4 5 6 7 8 9  PROGRAM TOTALS\n");
    for (ir, name) in rows {
        text.push_str(&format!("{} 0 0 0 0 0 0 0 0  {}\n", ir, name));
    }
    text
}

#[test]
fn separators_are_stripped() {
    assert_eq!(parse_count("123,456"), Some(123456));
    assert_eq!(parse_count("1,000,000"), Some(1000000));
}

#[test]
fn plain_count_keeps_value() {
    assert_eq!(parse_count("42"), Some(42));
    assert_eq!(parse_count("0"), Some(0));
}

#[test]
fn count_rejects_other_text() {
    assert_eq!(parse_count(""), None);
    assert_eq!(parse_count(",12"), None);
    assert_eq!(parse_count("12a"), None);
    assert_eq!(parse_count("-5"), None);
}

#[test]
fn count_at_the_largest_size() {
    assert_eq!(parse_count("18,446,744,073,709,551,615"), Some(u64::MAX));
    assert_eq!(parse_count("18446744073709551616"), None);
}

#[test]
fn classify_totals_line() {
    match classify_line(&chars("123,456 1,234  PROGRAM TOTALS")) {
        LineClass::Totals(v) => assert_eq!(v, vec![123456, 1234]),
        other => panic!("unexpected {:?}", other),
    }
}

#[test]
fn classify_function_line() {
    match classify_line(&chars("  60,000 500\tmain.rs:foo  ")) {
        LineClass::Function(v, label) => {
            assert_eq!(v, vec![60000, 500]);
            assert_eq!(label.iter().collect::<String>(), "main.rs:foo");
        }
        other => panic!("unexpected {:?}", other),
    }
}

#[test]
fn classify_label_with_spaces() {
    match classify_line(&chars("5  ???:f [/usr/bin/x]")) {
        LineClass::Function(v, label) => {
            assert_eq!(v, vec![5]);
            assert_eq!(label.iter().collect::<String>(), "???:f [/usr/bin/x]");
        }
        other => panic!("unexpected {:?}", other),
    }
}

#[test]
fn classify_other_lines() {
    for line in ["", "   ", "----------", "Ir I1mr ILmr", "I1 cache: 32768 B"] {
        assert!(matches!(classify_line(&chars(line)), LineClass::Other), "{}", line);
    }
}

#[test]
fn classify_malformed_lines() {
    assert!(matches!(classify_line(&chars("12a main.rs:foo")), LineClass::Malformed));
    assert!(matches!(classify_line(&chars("123 456")), LineClass::Malformed));
    assert!(matches!(
        classify_line(&chars("99999999999999999999 main.rs:foo")),
        LineClass::Malformed
    ));
}

#[test]
fn cache_rows_have_nine_counts() {
    let parsed = parse_report(ProfilerKind::CacheGrind, CACHE_REPORT).unwrap();
    assert_eq!(parsed.kind, ProfilerKind::CacheGrind);
    assert_eq!(parsed.totals.metrics.len(), 9);
    assert_eq!(parsed.functions.len(), 2);
    for f in &parsed.functions {
        assert_eq!(f.metrics.len(), 9);
    }
    assert_eq!(names(&parsed.functions), vec!["main.rs:foo", "main.rs:bar"]);
    assert_eq!(parsed.functions[0].metrics, vec![60000, 500, 50, 30000, 400, 30, 15000, 200, 10]);
}

#[test]
fn call_rows_have_one_count() {
    let parsed = parse_report(ProfilerKind::CallGrind, CALL_REPORT).unwrap();
    assert_eq!(parsed.totals.metrics, vec![1000000]);
    assert_eq!(parsed.functions.len(), 3);
    for f in &parsed.functions {
        assert_eq!(f.metrics.len(), 1);
    }
    assert_eq!(parsed.functions[0].name, "???:core::fmt::write [/usr/bin/app]");
}

#[test]
fn top_three_of_ten_sorted_with_ties_in_order() {
    let rows: Vec<(u64, String)> = [5u64, 9, 3, 9, 7, 1, 9, 2, 8, 4]
        .iter()
        .enumerate()
        .map(|(i, ir)| (*ir, format!("f{}", i)))
        .collect();
    let rows: Vec<(u64, &str)> = rows.iter().map(|(ir, n)| (*ir, n.as_str())).collect();
    let text = cache_report_with(&rows);
    let parsed = parse_report(ProfilerKind::CacheGrind, &text).unwrap();
    assert_eq!(parsed.functions.len(), 10);
    let report = select(parsed, Some(3), Metric::Ir);
    assert_eq!(names(&report.functions), vec!["f1", "f3", "f6"]);
}

#[test]
fn sort_on_other_metric() {
    let parsed = parse_report(ProfilerKind::CacheGrind, CACHE_REPORT).unwrap();
    let report = select(parsed, None, Metric::DLmw);
    assert_eq!(names(&report.functions), vec!["main.rs:bar", "main.rs:foo"]);
}

#[test]
fn no_limit_cache_sorted() {
    let text = cache_report_with(&[(1, "a"), (3, "b"), (2, "c"), (3, "d")]);
    let parsed = parse_report(ProfilerKind::CacheGrind, &text).unwrap();
    let report = select(parsed, None, Metric::Ir);
    assert_eq!(names(&report.functions), vec!["b", "d", "c", "a"]);
}

#[test]
fn no_limit_call_keeps_order() {
    let parsed = parse_report(ProfilerKind::CallGrind, CALL_REPORT).unwrap();
    let report = select(parsed, None, Metric::Ir);
    assert_eq!(
        names(&report.functions),
        vec!["???:core::fmt::write [/usr/bin/app]", "main.rs:app::run", "main.rs:app::main"]
    );
}

#[test]
fn call_limit_truncates_only() {
    let parsed = parse_report(ProfilerKind::CallGrind, CALL_REPORT).unwrap();
    let report = select(parsed, Some(2), Metric::Ir);
    assert_eq!(
        names(&report.functions),
        vec!["???:core::fmt::write [/usr/bin/app]", "main.rs:app::run"]
    );
    assert_eq!(report.totals.metrics, vec![1000000]);
}

#[test]
fn limit_above_row_count_keeps_all() {
    let parsed = parse_report(ProfilerKind::CacheGrind, CACHE_REPORT).unwrap();
    let report = select(parsed, Some(10), Metric::Ir);
    assert_eq!(report.functions.len(), 2);
}

#[test]
fn missing_column_is_misaligned() {
    let text = "1 2 3 4 5 6 7 8 9  PROGRAM TOTALS\n60,000 500 50 30,000 400 30 15,000 200  main.rs:foo\n";
    let r = parse_report(ProfilerKind::CacheGrind, text);
    assert!(matches!(r, Err(ProfError::MisalignedData)));
    let r = profile_report(ProfilerKind::CacheGrind, text, Some(1), Metric::Ir);
    assert!(matches!(r, Err(ProfError::MisalignedData)));
}

#[test]
fn short_totals_is_misaligned() {
    let text = "1 2 3  PROGRAM TOTALS\n";
    assert!(matches!(parse_report(ProfilerKind::CacheGrind, text), Err(ProfError::MisalignedData)));
}

#[test]
fn cache_row_in_call_report_is_misaligned() {
    assert!(matches!(
        parse_report(ProfilerKind::CallGrind, CACHE_REPORT),
        Err(ProfError::MisalignedData)
    ));
}

#[test]
fn malformed_row_is_regex_error() {
    let text = "10  PROGRAM TOTALS\n5x  main.rs:foo\n";
    assert!(matches!(parse_report(ProfilerKind::CallGrind, text), Err(ProfError::RegexError)));
}

#[test]
fn missing_totals_is_regex_error() {
    assert!(matches!(parse_report(ProfilerKind::CallGrind, "5  main.rs:foo\n"), Err(ProfError::RegexError)));
    assert!(matches!(parse_report(ProfilerKind::CallGrind, ""), Err(ProfError::RegexError)));
}

#[test]
fn second_totals_is_regex_error() {
    let text = "10  PROGRAM TOTALS\n10  PROGRAM TOTALS\n";
    assert!(matches!(parse_report(ProfilerKind::CallGrind, text), Err(ProfError::RegexError)));
}

#[test]
fn totals_only_report() {
    let parsed = parse_report(ProfilerKind::CallGrind, "10  PROGRAM TOTALS").unwrap();
    assert_eq!(parsed.totals.metrics, vec![10]);
    assert!(parsed.functions.is_empty());
}

#[test]
fn end_to_end_top_one() {
    let text = "123,456 1,234 123 65,432 987 65 32,100 543 21 PROGRAM TOTALS\n\
                60,000 500 50 30,000 400 30 15,000 200 10 main.rs:foo\n\
                63,456 734 73 35,432 587 35 17,100 343 11 main.rs:bar\n";
    let report = profile_report(ProfilerKind::CacheGrind, text, Some(1), Metric::Ir).unwrap();
    assert_eq!(names(&report.functions), vec!["main.rs:bar"]);
    assert_eq!(report.totals.metrics, vec![123456, 1234, 123, 65432, 987, 65, 32100, 543, 21]);
    assert_eq!(report.kind, ProfilerKind::CacheGrind);
}

#[test]
fn schemas() {
    assert_eq!(metric_count(ProfilerKind::CallGrind), 1);
    assert_eq!(metric_count(ProfilerKind::CacheGrind), 9);
    assert_eq!(schema(ProfilerKind::CallGrind), vec![Metric::Ir]);
    let s = schema(ProfilerKind::CacheGrind);
    assert_eq!(s.len(), 9);
    for (i, m) in s.iter().enumerate() {
        assert_eq!(m.index(), i);
    }
    assert_eq!(s[4], Metric::D1mr);
}

#[test]
fn metric_names() {
    assert_eq!(Metric::from_name("ir"), Some(Metric::Ir));
    assert_eq!(Metric::from_name("d1mr"), Some(Metric::D1mr));
    assert_eq!(Metric::from_name("dlmw"), Some(Metric::DLmw));
    assert_eq!(Metric::from_name("Ir"), None);
    assert_eq!(Metric::from_name(""), None);
}

#[test]
fn error_messages() {
    assert!(ProfError::RegexError.message().contains("regex error -- please file a bug"));
    assert!(ProfError::MisalignedData.message().contains("misaligned data arrays"));
    assert_eq!(
        ProfError::CompilationError("app".to_string()).message(),
        "\x1b[1;31merror: \x1b[0mfailed to compile app. Run cargo build to get compilation error."
    );
    let io = ProfError::from(std::io::Error::new(std::io::ErrorKind::Other, "disk gone"));
    let m = io.message();
    assert!(m.starts_with("\x1b[1;31merror: \x1b[0mio error: "));
    assert!(m.contains("disk gone"));
    assert!(m.ends_with(" -- please file a bug."));
}

#[test]
fn error_descriptions_and_causes() {
    assert_eq!(ProfError::InvalidNum.description(), "Invalid number.");
    assert_eq!(ProfError::TomlError.description(), "Error in parsing Cargo.toml.");
    assert!(ProfError::InvalidBinary.cause().is_none());
    let io: ProfError = std::io::Error::new(std::io::ErrorKind::NotFound, "x").into();
    assert!(matches!(io, ProfError::IOError(_)));
    assert_eq!(io.cause().unwrap().kind(), std::io::ErrorKind::NotFound);
}
