use bench_clients::compile::make_log;
use bench_clients::log::{
    blank, log_line, log_lines, split_lines, MAKE_LABEL, RETH_LABEL, RETH_UNWIND_LABEL,
};

#[test]
fn lines_are_split_as_std_does() {
    for text in [
        "",
        "\n",
        "a",
        "a\n",
        "a\nb",
        "a\r\nb\r\n",
        "a\r",
        "a\r\n",
        "\r\n",
        "\n\n",
        "a\n\nb",
        "\r\r\nx",
        "\u{e9}\n\u{4e2d}\u{6587}\r\n",
    ] {
        let expected: Vec<String> = text.lines().map(|line| line.to_string()).collect();
        assert_eq!(split_lines(text), expected, "{:?}", text);
    }
}

#[test]
fn white_space_is_what_std_takes_for_it() {
    for code in 0..=0x10ffffu32 {
        if let Some(c) = char::from_u32(code) {
            if code < 0x3100 || code % 97 == 0 {
                let line = c.to_string();
                assert_eq!(blank(&line), line.trim().is_empty(), "{:x}", code);
            }
        }
    }
    assert!(blank(""));
    assert!(blank(" \t "));
    assert!(!blank("  x "));
}

#[test]
fn blank_lines_are_not_logged() {
    assert_eq!(log_lines("[MAKE]", "go build\n\n  \t\ndone \n"), ["[MAKE] go build", "[MAKE] done "]);
    assert!(log_lines("[MAKE]", "").is_empty());
}

#[test]
fn make_output_is_logged_as_text() {
    assert_eq!(make_log(b"one\r\ntwo"), ["[MAKE] one", "[MAKE] two"]);
    assert_eq!(make_log(&[b'a', 0xff, b'b']), ["[MAKE] a\u{fffd}b"]);
    assert_eq!(make_log("\u{e9}".as_bytes()), ["[MAKE] \u{e9}"]);
}

#[test]
fn labels_stand_before_lines() {
    assert_eq!(log_line(RETH_LABEL, "x"), "[RETH] x");
    assert_eq!(log_line(RETH_UNWIND_LABEL, ""), "[RETH-UNWIND] ");
    assert_eq!(log_line(MAKE_LABEL, " y"), "[MAKE]  y");
}
