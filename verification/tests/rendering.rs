use logger::assembly::{create_default_root_logger, delivery_mode, DeliveryMode, RootLogger};
use logger::glog_format::{
    classify, format_group, place, placeholder, render, render_placed, Placed, Placement,
};
use logger::kv_categorizer::{ErrorCategorizer, InlineCategorizer, KVCategorizer, KVCategory};
use logger::level::severity_letter;
use logger::record::{Attribute, Location, Record, RenderedLine, Timestamp};
use logger::text::{push_decimal, push_zero_padded};
use slog::{FilterLevel, Key, Level};

fn stamp() -> Timestamp {
    Timestamp { month: 10, day: 21, hour: 13, minute: 32, second: 13, micros: 346775 }
}

fn here() -> Location {
    Location { thread_id: 123145517920256, file: String::from("logger/src/lib.rs"), line: 63 }
}

fn attr(key: Key, value: &str) -> Attribute {
    Attribute { key, value: Some(String::from(value)) }
}

fn record(level: Level, message: &str, attributes: Vec<Attribute>) -> Record {
    Record {
        timestamp: stamp(),
        level,
        message: String::from(message),
        location: here(),
        attributes,
    }
}

fn texts(lines: &[RenderedLine]) -> Vec<String> {
    lines.iter().map(|line| line.text.clone()).collect()
}

fn levels(lines: &[RenderedLine]) -> Vec<Level> {
    lines.iter().map(|line| line.level).collect()
}

/// A policy with all three categories, to exercise the renderer.
struct Mixed;

impl KVCategorizer for Mixed {
    fn categorize(&self, key: Key) -> KVCategory {
        match key {
            "secret" => KVCategory::Ignore,
            "warn" => KVCategory::LevelLog(Level::Warning),
            "debug" => KVCategory::LevelLog(Level::Debug),
            _ => KVCategory::Inline,
        }
    }

    fn name(&self, key: Key) -> &'static str {
        key
    }
}

struct IgnoreAll;

impl KVCategorizer for IgnoreAll {
    fn categorize(&self, _key: Key) -> KVCategory {
        KVCategory::Ignore
    }

    fn name(&self, key: Key) -> &'static str {
        key
    }
}

#[test]
fn record_without_attributes_renders_only_the_primary_line() {
    let rec = record(Level::Info, "Test log 1", vec![]);
    let lines = render(&rec, &ErrorCategorizer, FilterLevel::Trace);
    assert_eq!(lines.len(), 1);
    assert_eq!(lines[0].text, "Test log 1");
    assert_eq!(lines[0].level, Level::Info);
    assert_eq!(lines[0].timestamp, stamp());
    assert_eq!(lines[0].location, here());
}

#[test]
fn primary_line_is_formatted_in_glog_layout() {
    let rec = record(Level::Info, "Test log 1", vec![attr("tau", "6.28")]);
    let lines = render(&rec, &ErrorCategorizer, FilterLevel::Info);
    assert_eq!(lines.len(), 1);
    assert_eq!(
        lines[0].format(),
        "I1021 13:32:13.346775 123145517920256 logger/src/lib.rs:63] Test log 1 tau=6.28"
    );
}

#[test]
fn secondary_line_is_formatted_with_its_own_letter() {
    let rec = record(Level::Info, "request failed", vec![attr("error", "connection reset")]);
    let lines = render(&rec, &ErrorCategorizer, FilterLevel::Info);
    assert_eq!(lines.len(), 2);
    assert_eq!(
        lines[0].format(),
        "I1021 13:32:13.346775 123145517920256 logger/src/lib.rs:63] request failed"
    );
    assert_eq!(
        lines[1].format(),
        "E1021 13:32:13.346775 123145517920256 logger/src/lib.rs:63] Error: connection reset"
    );
}

#[test]
fn inline_and_leveled_attributes_keep_their_order() {
    let rec = record(
        Level::Info,
        "msg",
        vec![attr("a1", "1"), attr("warn", "2"), attr("a3", "3"), attr("debug", "4")],
    );
    let lines = render(&rec, &Mixed, FilterLevel::Trace);
    assert_eq!(texts(&lines), vec!["msg a1=1 a3=3", "warn: 2", "debug: 4"]);
    assert_eq!(levels(&lines), vec![Level::Info, Level::Warning, Level::Debug]);

    let lines = render(&rec, &Mixed, FilterLevel::Warning);
    assert_eq!(texts(&lines), vec!["msg a1=1 a3=3", "warn: 2"]);

    let lines = render(&rec, &Mixed, FilterLevel::Error);
    assert_eq!(texts(&lines), vec!["msg a1=1 a3=3"]);
}

#[test]
fn secondary_lines_are_not_sorted_by_level() {
    let rec = record(
        Level::Info,
        "failed",
        vec![attr("backtrace", "frame 0"), attr("cause", "inner"), attr("error", "outer")],
    );
    let lines = render(&rec, &ErrorCategorizer, FilterLevel::Trace);
    assert_eq!(
        texts(&lines),
        vec!["failed", "Originated in: frame 0", "Caused by: inner", "Error: outer"]
    );
    assert_eq!(levels(&lines), vec![Level::Info, Level::Trace, Level::Debug, Level::Error]);
}

#[test]
fn ignored_attributes_leave_no_trace() {
    let rec = record(Level::Info, "msg", vec![attr("secret", "hunter2"), attr("user", "ann")]);
    let lines = render(&rec, &Mixed, FilterLevel::Trace);
    assert_eq!(texts(&lines), vec!["msg user=ann"]);

    let lines = render(&rec, &IgnoreAll, FilterLevel::Trace);
    assert_eq!(texts(&lines), vec!["msg"]);
}

#[test]
fn trace_attribute_is_omitted_under_info_filter() {
    let rec = record(
        Level::Info,
        "failed",
        vec![attr("backtrace", "frame 0\nframe 1"), attr("root_cause", "disk")],
    );
    let logger = RootLogger::new(ErrorCategorizer, FilterLevel::Info, DeliveryMode::Synchronous);
    let lines = logger.submit(&rec);
    assert_eq!(texts(&lines), vec!["failed Root cause=disk"]);
    assert_eq!(levels(&lines), vec![Level::Info]);
}

#[test]
fn record_below_the_filter_produces_no_lines() {
    let rec = record(
        Level::Debug,
        "noise",
        vec![attr("error", "loud"), attr("cause", "x"), attr("k", "v")],
    );
    let logger = RootLogger::new(ErrorCategorizer, FilterLevel::Info, DeliveryMode::Synchronous);
    assert!(logger.submit(&rec).is_empty());

    let quiet = RootLogger::new(ErrorCategorizer, FilterLevel::Off, DeliveryMode::Synchronous);
    let critical = record(Level::Critical, "down", vec![attr("error", "loud")]);
    assert!(quiet.submit(&critical).is_empty());
}

#[test]
fn render_does_not_test_the_record_level() {
    let rec = record(Level::Debug, "noise", vec![attr("error", "loud")]);
    let lines = render(&rec, &ErrorCategorizer, FilterLevel::Info);
    assert_eq!(texts(&lines), vec!["noise", "Error: loud"]);
    assert_eq!(lines[0].format().chars().next(), Some('V'));
}

#[test]
fn rendering_twice_gives_identical_output() {
    let rec = record(
        Level::Warning,
        "again",
        vec![attr("error", "e"), attr("k", "v"), attr("cause", "c")],
    );
    let logger = RootLogger::new(ErrorCategorizer, FilterLevel::Debug, DeliveryMode::Synchronous);
    let first = logger.submit(&rec);
    let second = logger.submit(&rec);
    assert_eq!(first, second);
    let first_text: Vec<String> = first.iter().map(|line| line.format()).collect();
    let second_text: Vec<String> = second.iter().map(|line| line.format()).collect();
    assert_eq!(first_text, second_text);
    assert_eq!(first_text.len(), 3);
}

#[test]
fn multi_line_value_is_written_verbatim() {
    let trace = "0: main\n   at src/main.rs:1\n1: start";
    let rec = record(Level::Error, "panic", vec![attr("backtrace", trace)]);
    let lines = render(&rec, &ErrorCategorizer, FilterLevel::Trace);
    assert_eq!(lines.len(), 2);
    assert_eq!(lines[1].text, format!("Originated in: {}", trace));
}

#[test]
fn value_without_text_is_rendered_as_placeholder() {
    assert_eq!(placeholder(), "<unprintable>");
    let rec = record(
        Level::Info,
        "msg",
        vec![
            Attribute { key: "a", value: None },
            attr("b", "2"),
            Attribute { key: "error", value: None },
        ],
    );
    let lines = render(&rec, &ErrorCategorizer, FilterLevel::Info);
    assert_eq!(texts(&lines), vec!["msg a=<unprintable> b=2", "Error: <unprintable>"]);
}

#[test]
fn severity_letters() {
    assert_eq!(severity_letter(Level::Critical), 'C');
    assert_eq!(severity_letter(Level::Error), 'E');
    assert_eq!(severity_letter(Level::Warning), 'W');
    assert_eq!(severity_letter(Level::Info), 'I');
    assert_eq!(severity_letter(Level::Debug), 'V');
    assert_eq!(severity_letter(Level::Trace), 'V');
}

#[test]
fn threshold_passes_levels_at_least_as_severe() {
    let rec = record(Level::Critical, "m", vec![attr("warn", "w"), attr("debug", "d")]);
    let expected: Vec<(FilterLevel, Vec<&str>)> = vec![
        (FilterLevel::Off, vec!["m"]),
        (FilterLevel::Critical, vec!["m"]),
        (FilterLevel::Error, vec!["m"]),
        (FilterLevel::Warning, vec!["m", "warn: w"]),
        (FilterLevel::Info, vec!["m", "warn: w"]),
        (FilterLevel::Debug, vec!["m", "warn: w", "debug: d"]),
        (FilterLevel::Trace, vec!["m", "warn: w", "debug: d"]),
    ];
    for (filter, lines) in expected {
        assert_eq!(texts(&render(&rec, &Mixed, filter)), lines);
    }
}

#[test]
fn record_level_is_tested_against_the_threshold() {
    let levels = [
        Level::Critical,
        Level::Error,
        Level::Warning,
        Level::Info,
        Level::Debug,
        Level::Trace,
    ];
    let logger = RootLogger::new(InlineCategorizer, FilterLevel::Warning, DeliveryMode::Synchronous);
    let written: Vec<usize> =
        levels.iter().map(|level| logger.submit(&record(*level, "m", vec![])).len()).collect();
    assert_eq!(written, vec![1, 1, 1, 0, 0, 0]);
}

#[test]
fn place_joins_category_and_name() {
    assert_eq!(place(&ErrorCategorizer, "error"), Placement::OwnLine { level: Level::Error, name: "Error" });
    assert_eq!(place(&ErrorCategorizer, "cause"), Placement::OwnLine { level: Level::Debug, name: "Caused by" });
    assert_eq!(
        place(&ErrorCategorizer, "backtrace"),
        Placement::OwnLine { level: Level::Trace, name: "Originated in" }
    );
    assert_eq!(place(&ErrorCategorizer, "root_cause"), Placement::Inline { name: "Root cause" });
    assert_eq!(place(&ErrorCategorizer, "tau"), Placement::Inline { name: "tau" });
    assert_eq!(place(&Mixed, "secret"), Placement::Dropped);
    assert_eq!(place(&InlineCategorizer, "error"), Placement::Inline { name: "error" });
}

#[test]
fn classify_keeps_order_and_values() {
    let rec = record(
        Level::Info,
        "m",
        vec![attr("secret", "s"), attr("k", "v"), Attribute { key: "warn", value: None }],
    );
    let placed = classify(&rec, &Mixed);
    assert_eq!(placed.len(), 3);
    assert_eq!(placed[0], Placed { placement: Placement::Dropped, value: &Some(String::from("s")) });
    assert_eq!(
        placed[1],
        Placed { placement: Placement::Inline { name: "k" }, value: &Some(String::from("v")) }
    );
    assert_eq!(
        placed[2],
        Placed { placement: Placement::OwnLine { level: Level::Warning, name: "warn" }, value: &None }
    );
}

#[test]
fn render_placed_reads_the_placements_only() {
    let rec = record(Level::Info, "m", vec![attr("not", "read")]);
    let one = Some(String::from("1"));
    let two = Some(String::from("2"));
    let placed = vec![
        Placed { placement: Placement::OwnLine { level: Level::Trace, name: "T" }, value: &one },
        Placed { placement: Placement::Inline { name: "a" }, value: &one },
        Placed { placement: Placement::Dropped, value: &two },
        Placed { placement: Placement::OwnLine { level: Level::Critical, name: "C" }, value: &two },
        Placed { placement: Placement::Inline { name: "b" }, value: &two },
    ];
    let lines = render_placed(&rec, &placed, FilterLevel::Trace);
    assert_eq!(texts(&lines), vec!["m a=1 b=2", "T: 1", "C: 2"]);
    assert_eq!(levels(&lines), vec![Level::Info, Level::Trace, Level::Critical]);
    let lines = render_placed(&rec, &placed, FilterLevel::Debug);
    assert_eq!(texts(&lines), vec!["m a=1 b=2", "C: 2"]);
    let lines = render_placed(&rec, &Vec::new(), FilterLevel::Off);
    assert_eq!(texts(&lines), vec!["m"]);
}

#[test]
fn timestamp_fields_are_zero_padded() {
    let early = Timestamp { month: 1, day: 2, hour: 3, minute: 4, second: 5, micros: 6 };
    assert!(early.is_in_range());
    let mut out = String::from(">");
    early.write_to(&mut out);
    assert_eq!(out, ">0102 03:04:05.000006");

    let late = Timestamp { month: 12, day: 31, hour: 23, minute: 59, second: 59, micros: 999_999 };
    assert!(late.is_in_range());
    let mut out = String::new();
    late.write_to(&mut out);
    assert_eq!(out, "1231 23:59:59.999999");
    assert_eq!(out.len(), 20);
}

#[test]
fn timestamp_out_of_range_is_detected() {
    let base = stamp();
    assert!(base.is_in_range());
    assert!(!Timestamp { month: 0, ..base }.is_in_range());
    assert!(!Timestamp { month: 13, ..base }.is_in_range());
    assert!(!Timestamp { day: 0, ..base }.is_in_range());
    assert!(!Timestamp { day: 32, ..base }.is_in_range());
    assert!(!Timestamp { hour: 24, ..base }.is_in_range());
    assert!(!Timestamp { minute: 60, ..base }.is_in_range());
    assert!(!Timestamp { second: 60, ..base }.is_in_range());
    assert!(!Timestamp { micros: 1_000_000, ..base }.is_in_range());
}

#[test]
fn decimal_numerals() {
    for n in [0u64, 7, 9, 10, 42, 99, 100, 1021, 123145517920256, u64::MAX] {
        let mut out = String::from("x");
        push_decimal(&mut out, n);
        assert_eq!(out, format!("x{}", n));
    }
}

#[test]
fn zero_padding_fills_up_to_the_width_only() {
    let mut out = String::new();
    push_zero_padded(&mut out, 7, 2);
    assert_eq!(out, "07");
    push_zero_padded(&mut out, 0, 3);
    assert_eq!(out, "07000");
    push_zero_padded(&mut out, 255, 2);
    assert_eq!(out, "07000255");
    push_zero_padded(&mut out, 5, 0);
    assert_eq!(out, "070002555");
    push_zero_padded(&mut out, 346, 6);
    assert_eq!(out, "070002555000346");
}

#[test]
fn delivery_follows_the_construction_parameters() {
    assert_eq!(delivery_mode(false, None), DeliveryMode::Synchronous);
    assert_eq!(delivery_mode(false, Some(16)), DeliveryMode::Synchronous);
    assert_eq!(delivery_mode(true, None), DeliveryMode::Asynchronous { chan_size: None });
    assert_eq!(delivery_mode(true, Some(16)), DeliveryMode::Asynchronous { chan_size: Some(16) });
}

#[test]
fn default_root_logger_filters_at_info() {
    let logger = create_default_root_logger(false, None, None);
    assert_eq!(logger.filter, FilterLevel::Info);
    assert_eq!(logger.delivery, DeliveryMode::Synchronous);
    let rec = record(
        Level::Info,
        "Test log 1",
        vec![attr("tau", "6.28"), attr("error", "e"), attr("cause", "c")],
    );
    assert_eq!(texts(&logger.submit(&rec)), vec!["Test log 1 tau=6.28", "Error: e"]);

    let verbose = create_default_root_logger(true, Some(8), Some(FilterLevel::Debug));
    assert_eq!(verbose.filter, FilterLevel::Debug);
    assert_eq!(verbose.delivery, DeliveryMode::Asynchronous { chan_size: Some(8) });
    assert_eq!(
        texts(&verbose.submit(&rec)),
        vec!["Test log 1 tau=6.28", "Error: e", "Caused by: c"]
    );
}

#[test]
fn unique_keys_are_recognised() {
    assert!(record(Level::Info, "m", vec![]).keys_are_unique());
    assert!(record(Level::Info, "m", vec![attr("a", "1"), attr("b", "1")]).keys_are_unique());
    assert!(!record(Level::Info, "m", vec![attr("a", "1"), attr("b", "2"), attr("a", "3")])
        .keys_are_unique());
}

#[test]
fn inline_categorizer_inlines_everything_in_order() {
    let rec = record(
        Level::Critical,
        "boom",
        vec![attr("error", "e"), attr("cause", "c"), attr("k", "v")],
    );
    let lines = render(&rec, &InlineCategorizer, FilterLevel::Trace);
    assert_eq!(texts(&lines), vec!["boom error=e cause=c k=v"]);
    assert_eq!(lines[0].format().chars().next(), Some('C'));
}

#[test]
fn location_duplicate_is_equal() {
    let here = here();
    assert_eq!(here.duplicate(), here);
}

#[test]
fn group_text_closes_every_line_with_a_line_feed() {
    let rec = record(Level::Warning, "slow", vec![attr("ms", "1200"), attr("error", "timeout")]);
    let lines = render(&rec, &ErrorCategorizer, FilterLevel::Info);
    assert_eq!(
        format_group(&lines),
        "W1021 13:32:13.346775 123145517920256 logger/src/lib.rs:63] slow ms=1200\n\
         E1021 13:32:13.346775 123145517920256 logger/src/lib.rs:63] Error: timeout\n"
    );
    assert_eq!(format_group(&Vec::new()), "");
}

#[test]
fn cloned_record_renders_the_same() {
    let rec = record(Level::Error, "m", vec![attr("cause", "c")]);
    let copy = rec.clone();
    assert_eq!(copy.level, Level::Error);
    assert_eq!(copy, rec);
    assert_eq!(
        render(&copy, &ErrorCategorizer, FilterLevel::Trace),
        render(&rec, &ErrorCategorizer, FilterLevel::Trace)
    );
}
