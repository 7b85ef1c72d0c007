use redox_log::format::Record;
use redox_log::logger::{Delivery, Output};
use redox_log::{Level, LevelFilter, OutputBuilder, RedoxLogger};

const TIME: &str = "2024-01-01T00:00:00.000+00:00";

fn out(filter: LevelFilter) -> Output<Vec<u8>> {
    OutputBuilder::with_endpoint(Vec::new()).with_filter(filter).build()
}

fn record(level: Level) -> Record {
    Record {
        level,
        target: "app::net".to_string(),
        module: None,
        line: None,
        message: "listening".to_string(),
    }
}

const LEVELS: [Level; 5] = [Level::Error, Level::Warn, Level::Info, Level::Debug, Level::Trace];
const FILTERS: [LevelFilter; 6] = [
    LevelFilter::Off,
    LevelFilter::Error,
    LevelFilter::Warn,
    LevelFilter::Info,
    LevelFilter::Debug,
    LevelFilter::Trace,
];

fn filters_of(l: &RedoxLogger<Vec<u8>>) -> Vec<LevelFilter> {
    l.outputs().iter().map(|o| o.filter()).collect()
}

#[test]
fn builder_defaults() {
    let o = OutputBuilder::with_endpoint(Vec::<u8>::new()).build();
    assert_eq!(o.filter(), LevelFilter::Info);
    assert!(o.flushes_on_newline());
    assert!(!o.ansi());
}

#[test]
fn builder_setters() {
    let o = OutputBuilder::with_dyn_endpoint(Vec::<u8>::new())
        .with_filter(LevelFilter::Trace)
        .flush_on_newline(false)
        .with_ansi_escape_codes()
        .build();
    assert_eq!(o.filter(), LevelFilter::Trace);
    assert!(!o.flushes_on_newline());
    assert!(o.ansi());
}

#[test]
fn build_keeps_endpoint() {
    let o = OutputBuilder::with_endpoint(vec![1u8, 2, 3]).build();
    assert_eq!(*o.endpoint().lock().unwrap(), vec![1u8, 2, 3]);
}

#[test]
fn output_writes_iff_at_least_as_severe() {
    for f in FILTERS {
        let o = out(f);
        for l in LEVELS {
            let expected = (l as usize + 1) <= f as usize;
            assert_eq!(o.accepts(l), expected);
            let d = o.render(TIME, &record(l));
            assert_eq!(d.line.is_some(), expected);
        }
    }
}

#[test]
fn render_gives_plain_line_and_flush_policy() {
    let o = OutputBuilder::with_endpoint(Vec::<u8>::new()).flush_on_newline(false).build();
    let d: Delivery = o.render(TIME, &record(Level::Info));
    assert_eq!(d.line.as_deref(), Some("2024-01-01T00:00:00.000+00:00 [app::net Info] listening\n"));
    assert!(!d.flush);
    let d = o.render(TIME, &record(Level::Debug));
    assert_eq!(d.line, None);
    assert!(!d.flush);
}

#[test]
fn empty_logger_admits_nothing() {
    let l: RedoxLogger<Vec<u8>> = RedoxLogger::new();
    for lv in LEVELS {
        assert!(!l.enabled(lv));
    }
    assert_eq!(l.max_level(), LevelFilter::Off);
    assert_eq!(l.max_level_in_use(), None);
    assert_eq!(l.min_level_in_use(), None);
}

#[test]
fn enabled_iff_some_output_accepts() {
    let l = RedoxLogger::new().with_output(out(LevelFilter::Warn)).with_output(out(LevelFilter::Debug));
    assert!(l.enabled(Level::Error));
    assert!(l.enabled(Level::Warn));
    assert!(l.enabled(Level::Info));
    assert!(l.enabled(Level::Debug));
    assert!(!l.enabled(Level::Trace));
    assert_eq!(l.max_level(), LevelFilter::Debug);
    assert_eq!(l.max_level_in_use(), Some(LevelFilter::Debug));
    assert_eq!(l.min_level_in_use(), Some(LevelFilter::Warn));
}

#[test]
fn off_outputs_admit_nothing() {
    let l = RedoxLogger::new().with_output(out(LevelFilter::Off));
    for lv in LEVELS {
        assert!(!l.enabled(lv));
    }
    assert_eq!(l.max_level(), LevelFilter::Off);
}

#[test]
fn order_of_outputs_does_not_change_aggregate() {
    let a = RedoxLogger::new()
        .with_output(out(LevelFilter::Error))
        .with_output(out(LevelFilter::Trace))
        .with_output(out(LevelFilter::Info));
    let b = RedoxLogger::new()
        .with_output(out(LevelFilter::Info))
        .with_output(out(LevelFilter::Error))
        .with_output(out(LevelFilter::Trace));
    assert_eq!(a.max_level_in_use(), b.max_level_in_use());
    assert_eq!(a.min_level_in_use(), b.min_level_in_use());
    assert_eq!(a.max_level_in_use(), Some(LevelFilter::Trace));
    assert_eq!(a.min_level_in_use(), Some(LevelFilter::Error));
}

#[test]
fn max_override_caps_existing_outputs() {
    let l = RedoxLogger::new()
        .with_output(out(LevelFilter::Trace))
        .with_output(out(LevelFilter::Error))
        .with_max_level_override(LevelFilter::Warn);
    assert_eq!(filters_of(&l), vec![LevelFilter::Warn, LevelFilter::Error]);
    assert_eq!(l.max_level_in_use(), Some(LevelFilter::Warn));
    assert_eq!(l.min_level_in_use(), Some(LevelFilter::Error));
    assert!(!l.enabled(Level::Info));
}

#[test]
fn min_override_raises_existing_outputs() {
    let l = RedoxLogger::new()
        .with_output(out(LevelFilter::Error))
        .with_output(out(LevelFilter::Trace))
        .with_min_level_override(LevelFilter::Info);
    assert_eq!(filters_of(&l), vec![LevelFilter::Info, LevelFilter::Trace]);
    assert_eq!(l.min_level_in_use(), Some(LevelFilter::Info));
    assert_eq!(l.max_level_in_use(), Some(LevelFilter::Trace));
}

#[test]
fn overrides_clamp_later_outputs() {
    let l = RedoxLogger::new()
        .with_max_level_override(LevelFilter::Debug)
        .with_min_level_override(LevelFilter::Warn)
        .with_output(out(LevelFilter::Trace))
        .with_output(out(LevelFilter::Off))
        .with_output(out(LevelFilter::Info));
    assert_eq!(filters_of(&l), vec![LevelFilter::Debug, LevelFilter::Warn, LevelFilter::Info]);
    assert_eq!(l.max_level(), LevelFilter::Debug);
    assert_eq!(l.min_level_in_use(), Some(LevelFilter::Warn));
}

#[test]
fn min_override_above_max_override_wins() {
    let l = RedoxLogger::new()
        .with_output(out(LevelFilter::Info))
        .with_min_level_override(LevelFilter::Trace)
        .with_max_level_override(LevelFilter::Error);
    assert_eq!(filters_of(&l), vec![LevelFilter::Trace]);
}

#[test]
fn every_output_gets_its_own_delivery() {
    let l = RedoxLogger::new()
        .with_output(OutputBuilder::with_endpoint(Vec::<u8>::new()).with_filter(LevelFilter::Error).build())
        .with_output(
            OutputBuilder::with_endpoint(Vec::<u8>::new())
                .with_filter(LevelFilter::Trace)
                .with_ansi_escape_codes()
                .flush_on_newline(false)
                .build(),
        )
        .with_output(OutputBuilder::with_endpoint(Vec::<u8>::new()).with_filter(LevelFilter::Info).build());
    let ds = l.render_all(TIME, &record(Level::Info));
    assert_eq!(ds.len(), 3);
    assert_eq!(ds[0].line, None);
    assert!(ds[0].flush);
    assert!(ds[1].line.as_ref().unwrap().contains('\u{1b}'));
    assert!(!ds[1].flush);
    assert_eq!(ds[2].line.as_deref(), Some("2024-01-01T00:00:00.000+00:00 [app::net Info] listening\n"));
}

#[test]
fn plan_stamps_with_the_clock() {
    let l = RedoxLogger::new().with_output(out(LevelFilter::Info)).with_output(out(LevelFilter::Error));
    let ds = l.plan(&record(Level::Info));
    assert_eq!(ds.len(), 2);
    assert_eq!(ds[1].line, None);
    let line = ds[0].line.clone().unwrap();
    assert!(line.ends_with(" [app::net Info] listening\n"));
    let time = &line[..line.find(" [").unwrap()];
    // 2024-01-01T00:00:00.000+00:00
    assert_eq!(time.len(), 29);
    assert_eq!(&time[4..5], "-");
    assert_eq!(&time[10..11], "T");
    assert_eq!(&time[19..20], ".");
    assert_eq!(&time[26..27], ":");
}

#[test]
fn max_override_on_single_trace_output() {
    let l = RedoxLogger::new()
        .with_output(out(LevelFilter::Trace))
        .with_max_level_override(LevelFilter::Warn);
    assert_eq!(filters_of(&l), vec![LevelFilter::Warn]);
    assert_eq!(l.max_level_in_use(), Some(LevelFilter::Warn));
    assert_eq!(l.min_level_in_use(), Some(LevelFilter::Warn));
    assert!(!l.enabled(Level::Debug));
}

#[test]
fn min_override_on_single_error_output() {
    let l = RedoxLogger::new()
        .with_output(out(LevelFilter::Error))
        .with_min_level_override(LevelFilter::Info);
    assert_eq!(filters_of(&l), vec![LevelFilter::Info]);
    assert_eq!(l.max_level_in_use(), Some(LevelFilter::Info));
    assert_eq!(l.min_level_in_use(), Some(LevelFilter::Info));
    assert!(l.enabled(Level::Info));
}

#[test]
fn min_override_twice_is_once() {
    let build = || {
        RedoxLogger::new()
            .with_output(out(LevelFilter::Error))
            .with_output(out(LevelFilter::Debug))
            .with_max_level_override(LevelFilter::Debug)
    };
    let once = build().with_min_level_override(LevelFilter::Warn);
    let twice = build().with_min_level_override(LevelFilter::Warn).with_min_level_override(LevelFilter::Warn);
    assert_eq!(filters_of(&once), filters_of(&twice));
    assert_eq!(once.max_level_in_use(), twice.max_level_in_use());
    assert_eq!(once.min_level_in_use(), twice.min_level_in_use());
}

#[test]
fn overrides_keep_other_settings() {
    let l = RedoxLogger::new()
        .with_output(
            OutputBuilder::with_endpoint(Vec::<u8>::new())
                .with_filter(LevelFilter::Trace)
                .with_ansi_escape_codes()
                .flush_on_newline(false)
                .build(),
        )
        .with_max_level_override(LevelFilter::Info);
    let o = &l.outputs()[0];
    assert_eq!(o.filter(), LevelFilter::Info);
    assert!(o.ansi());
    assert!(!o.flushes_on_newline());
}

#[test]
fn default_logger_is_empty() {
    let l: RedoxLogger<Vec<u8>> = RedoxLogger::default();
    assert_eq!(l.outputs().len(), 0);
    assert_eq!(l.max_level(), LevelFilter::Off);
}
