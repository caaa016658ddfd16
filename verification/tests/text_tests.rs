use devproc::paths::join_path;
use devproc::script::runner::{RunError, ScriptRunner};
use devproc::text::{
    i64_to_decimal, is_whitespace, join_strings, parse_u16, parse_u32, starts_with, str_eq,
    u64_to_decimal,
};

fn strings(items: &[&str]) -> Vec<String> {
    items.iter().map(|s| s.to_string()).collect()
}

#[test]
fn parse_command_splits_program_and_arguments() {
    let (cmd, args) = ScriptRunner::parse_command("npm run dev", &[]).unwrap();
    assert_eq!(cmd, "npm");
    assert_eq!(args, strings(&["run", "dev"]));
}

#[test]
fn parse_command_appends_extra_arguments() {
    let extra = strings(&["--watch", "-v"]);
    let (cmd, args) = ScriptRunner::parse_command("cargo run", &extra).unwrap();
    assert_eq!(cmd, "cargo");
    assert_eq!(args, strings(&["run", "--watch", "-v"]));
}

#[test]
fn parse_command_collapses_whitespace() {
    let (cmd, args) = ScriptRunner::parse_command("  python\t-m   http.server\n", &[]).unwrap();
    assert_eq!(cmd, "python");
    assert_eq!(args, strings(&["-m", "http.server"]));
    let (cmd, args) = ScriptRunner::parse_command("a\u{3000}b\u{a0}c", &[]).unwrap();
    assert_eq!(cmd, "a");
    assert_eq!(args, strings(&["b", "c"]));
}

#[test]
fn parse_command_rejects_blank_lines() {
    assert_eq!(ScriptRunner::parse_command("", &[]), Err(RunError::EmptyCommand));
    assert_eq!(ScriptRunner::parse_command(" \t\n ", &strings(&["x"])), Err(RunError::EmptyCommand));
    assert_eq!(RunError::EmptyCommand.message(), "Empty command");
}

#[test]
fn whitespace_matches_std() {
    for c in ['\t', '\n', '\u{b}', '\u{c}', '\r', ' ', '\u{85}', '\u{a0}', '\u{1680}', '\u{2000}', '\u{200a}', '\u{2028}', '\u{2029}', '\u{202f}', '\u{205f}', '\u{3000}', 'a', '0', '\u{200b}', '_'] {
        assert_eq!(is_whitespace(c), c.is_whitespace(), "{:?}", c);
    }
}

#[test]
fn parse_u16_follows_std() {
    for s in ["3000", "+80", "0", "00042", "65535", "65536", "", "+", "-1", "-0", "12a", "１２", " 1", "99999"] {
        assert_eq!(parse_u16(s), s.parse::<u16>().ok(), "{:?}", s);
    }
}

#[test]
fn parse_u32_follows_std() {
    for s in ["12345", "4294967295", "4294967296", "+7", "x", "", "18446744073709551616"] {
        assert_eq!(parse_u32(s), s.parse::<u32>().ok(), "{:?}", s);
    }
}

#[test]
fn decimal_formatting_follows_display() {
    for n in [0u64, 7, 10, 99, 1234567, u64::MAX] {
        assert_eq!(u64_to_decimal(n), n.to_string());
    }
    for x in [0i64, -1, 42, -3600, i64::MIN, i64::MAX] {
        assert_eq!(i64_to_decimal(x), x.to_string());
    }
}

#[test]
fn join_strings_puts_separator_between() {
    assert_eq!(join_strings(&strings(&[]), " "), "");
    assert_eq!(join_strings(&strings(&["a"]), " "), "a");
    assert_eq!(join_strings(&strings(&["a", "b", "c"]), ", "), "a, b, c");
}

#[test]
fn string_comparisons() {
    assert!(str_eq("run", "run"));
    assert!(!str_eq("run", "running"));
    assert!(starts_with("predev", "pre"));
    assert!(!starts_with("pr", "pre"));
    assert!(starts_with("x", ""));
}

#[test]
fn join_path_follows_path_join() {
    for (base, name) in [("a", "b"), ("a/", "b"), ("", "b"), ("a", "/b"), ("/", "x"), ("/home/u", "devproc")] {
        let expected = std::path::Path::new(base).join(name).to_string_lossy().to_string();
        assert_eq!(join_path(base, name), expected, "{:?} {:?}", base, name);
    }
}

#[test]
fn reparsing_a_full_command_is_stable() {
    let (cmd, args) = ScriptRunner::parse_command("  node   server.js  --port 3000 ", &[]).unwrap();
    let line = format!("{} {}", cmd, args.join(" "));
    assert_eq!(line, "node server.js --port 3000");
    let (cmd2, args2) = ScriptRunner::parse_command(&line, &[]).unwrap();
    assert_eq!(cmd2, cmd);
    assert_eq!(args2, args);
}

#[test]
fn port_written_in_decimal_reads_back() {
    for p in [0u16, 1, 80, 3000, 65535] {
        assert_eq!(parse_u16(&u64_to_decimal(p as u64)), Some(p));
    }
}
