use redox_log::format::{decimal_string, format_line, Record};
use redox_log::Level;

const TIME: &str = "2024-01-01T00:00:00.000+00:00";

fn strip_escapes(s: &str) -> String {
    let mut out = String::new();
    let mut in_escape = false;
    for c in s.chars() {
        if in_escape {
            if c == 'm' {
                in_escape = false;
            }
        } else if c == '\u{1b}' {
            in_escape = true;
        } else {
            out.push(c);
        }
    }
    out
}

#[test]
fn plain_line_exact() {
    let line = format_line(false, TIME, "app::net", None, Level::Info, "listening");
    assert_eq!(line, "2024-01-01T00:00:00.000+00:00 [app::net Info] listening\n");
}

#[test]
fn plain_line_with_line_number() {
    let line = format_line(false, TIME, "app::net", Some(42), Level::Warn, "slow");
    assert_eq!(line, "2024-01-01T00:00:00.000+00:00 [app::net:42 Warn] slow\n");
}

#[test]
fn plain_line_names_every_level() {
    let names = [
        (Level::Error, "Error"),
        (Level::Warn, "Warn"),
        (Level::Info, "Info"),
        (Level::Debug, "Debug"),
        (Level::Trace, "Trace"),
    ];
    for (level, name) in names {
        let line = format_line(false, "t", "m", None, level, "x");
        assert_eq!(line, format!("t [m {}] x\n", name));
    }
}

#[test]
fn styled_line_exact() {
    let line = format_line(true, TIME, "app::net", Some(42), Level::Info, "listening");
    let expected = [
        "\x1b[3m\x1b[38;5;8m2024-01-01T00:00:00.000+00:00\x1b[m\x1b[39m",
        " [",
        "\x1b[38;5;7mapp::net\x1b[39m",
        "\x1b[38;5;8m:42\x1b[39m",
        " ",
        "\x1b[1m\x1b[38;5;12mInfo\x1b[m\x1b[39m",
        "] ",
        "\x1b[1m\x1b[38;5;15mlistening\x1b[m\x1b[39m",
        "\n",
    ]
    .concat();
    assert_eq!(line, expected);
}

#[test]
fn styled_verbose_message_is_not_bold() {
    let line = format_line(true, "t", "m", None, Level::Trace, "x");
    let expected = [
        "\x1b[3m\x1b[38;5;8mt\x1b[m\x1b[39m",
        " [",
        "\x1b[38;5;7mm\x1b[39m",
        " ",
        "\x1b[1m\x1b[38;5;8mTrace\x1b[m\x1b[39m",
        "] ",
        "\x1b[38;5;7mx\x1b[m\x1b[39m",
        "\n",
    ]
    .concat();
    assert_eq!(line, expected);
}

#[test]
fn styled_level_colors() {
    let cases = [
        (Level::Error, "\x1b[38;5;9m"),
        (Level::Warn, "\x1b[38;5;11m"),
        (Level::Info, "\x1b[38;5;12m"),
        (Level::Debug, "\x1b[38;5;7m"),
        (Level::Trace, "\x1b[38;5;8m"),
    ];
    for (level, color) in cases {
        let line = format_line(true, "t", "m", None, level, "x");
        assert!(line.contains(&format!("\x1b[1m{}", color)));
    }
}

#[test]
fn styled_matches_plain_without_escapes() {
    let levels = [Level::Error, Level::Warn, Level::Info, Level::Debug, Level::Trace];
    for level in levels {
        for line_no in [None, Some(0), Some(7), Some(4294967295)] {
            let plain = format_line(false, TIME, "app::net", line_no, level, "listening on :80");
            let styled = format_line(true, TIME, "app::net", line_no, level, "listening on :80");
            assert_ne!(plain, styled);
            assert_eq!(strip_escapes(&styled), plain);
        }
    }
}

#[test]
fn decimal_digits() {
    assert_eq!(decimal_string(0), "0");
    assert_eq!(decimal_string(9), "9");
    assert_eq!(decimal_string(10), "10");
    assert_eq!(decimal_string(1203), "1203");
    assert_eq!(decimal_string(u32::MAX), "4294967295");
}

#[test]
fn origin_prefers_module() {
    let with_module = Record {
        level: Level::Info,
        target: "custom".to_string(),
        module: Some("app::net".to_string()),
        line: None,
        message: "m".to_string(),
    };
    assert_eq!(with_module.origin(), "app::net");
    let without = Record { module: None, ..with_module };
    assert_eq!(without.origin(), "custom");
}

#[test]
fn empty_fields() {
    let line = format_line(false, "", "", None, Level::Error, "");
    assert_eq!(line, " [ Error] \n");
}
