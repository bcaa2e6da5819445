use line_sender::decimal::{digit, write_i64, write_u64};
use line_sender::encoding::len_utf8;
use line_sender::escape::{
    count_escapes, must_escape, must_escape_quoted, must_escape_unquoted, write_escaped_impl,
    write_escaped_quoted, write_escaped_unquoted,
};

fn unquoted(s: &str) -> String {
    let mut out = String::new();
    write_escaped_unquoted(&mut out, s);
    out
}

fn quoted(s: &str) -> String {
    let mut out = String::new();
    write_escaped_quoted(&mut out, s);
    out
}

fn unescape(text: &str) -> String {
    let mut out = String::new();
    let mut chars = text.chars();
    while let Some(c) = chars.next() {
        if c == '\\' {
            match chars.next() {
                Some(next) => out.push(next),
                None => out.push(c),
            }
        } else {
            out.push(c);
        }
    }
    out
}

#[test]
fn unquoted_escape_set() {
    for c in [' ', ',', '=', '\n', '\r', '"', '\\'] {
        assert!(must_escape_unquoted(c));
        assert!(must_escape(c, false));
    }
    for c in ['a', '0', '\t', '\'', ';', 'é', '\0', '.', ':'] {
        assert!(!must_escape_unquoted(c));
        assert!(!must_escape(c, false));
    }
}

#[test]
fn quoted_escape_set() {
    for c in ['\n', '\r', '"', '\\'] {
        assert!(must_escape_quoted(c));
        assert!(must_escape(c, true));
    }
    for c in [' ', ',', '=', 'a', '\t', '\'', 'é', '\0'] {
        assert!(!must_escape_quoted(c));
        assert!(!must_escape(c, true));
    }
}

#[test]
fn plain_text_is_appended_verbatim() {
    assert_eq!(unquoted("plain_text"), "plain_text");
    assert_eq!(unquoted(""), "");
    assert_eq!(unquoted("日本語"), "日本語");
    assert_eq!(quoted("plain text, with = signs"), "\"plain text, with = signs\"");
    assert_eq!(quoted(""), "\"\"");
}

#[test]
fn unquoted_escaping_inserts_backslashes() {
    assert_eq!(unquoted("a b"), "a\\ b");
    assert_eq!(unquoted("a,b=c"), "a\\,b\\=c");
    assert_eq!(unquoted("line\nfeed\rreturn"), "line\\\nfeed\\\rreturn");
    assert_eq!(unquoted("q\"uote"), "q\\\"uote");
    assert_eq!(unquoted("back\\slash"), "back\\\\slash");
    assert_eq!(unquoted(" "), "\\ ");
    assert_eq!(unquoted("é ü"), "é\\ ü");
}

#[test]
fn quoted_escaping_inserts_backslashes_and_quotes() {
    assert_eq!(quoted("a\"b"), "\"a\\\"b\"");
    assert_eq!(quoted("a b,c=d"), "\"a b,c=d\"");
    assert_eq!(quoted("line\nfeed\rreturn"), "\"line\\\nfeed\\\rreturn\"");
    assert_eq!(quoted("back\\slash"), "\"back\\\\slash\"");
    assert_eq!(quoted("\\"), "\"\\\\\"");
}

#[test]
fn escaping_appends_to_what_is_there() {
    let mut out = String::from("head:");
    write_escaped_unquoted(&mut out, "a b");
    write_escaped_quoted(&mut out, "c\"d");
    write_escaped_impl(false, &mut out, "e");
    write_escaped_impl(true, &mut out, "f");
    assert_eq!(out, "head:a\\ b\"c\\\"d\"e\"f\"");
}

#[test]
fn escape_counts() {
    assert_eq!(count_escapes("", false), 0);
    assert_eq!(count_escapes("abc", false), 0);
    assert_eq!(count_escapes("a b,c", false), 2);
    assert_eq!(count_escapes("a b,c", true), 0);
    assert_eq!(count_escapes("\n\r\"\\ ,=", false), 7);
    assert_eq!(count_escapes("\n\r\"\\ ,=", true), 4);
}

#[test]
fn unescaping_recovers_the_text() {
    let samples = [
        "",
        "plain",
        "a b",
        "a,b=c",
        "\\",
        "\\\\",
        "\"",
        "ends with backslash\\",
        "\n\r\n",
        "mixed \\\" = , é 日本",
        "\\n is not a line feed",
    ];
    for s in samples {
        assert_eq!(unescape(&unquoted(s)), s);
        let q = quoted(s);
        assert!(q.starts_with('"') && q.ends_with('"') && q.len() >= 2);
        assert_eq!(unescape(&q[1..q.len() - 1]), s);
    }
}

#[test]
fn utf8_widths() {
    for c in ['\0', 'a', '\u{7f}', '\u{80}', 'é', '\u{7ff}', '\u{800}', '日', '\u{FEFF}', '\u{ffff}', '\u{10000}', '😀', '\u{10ffff}'] {
        assert_eq!(len_utf8(c), c.len_utf8());
    }
}

#[test]
fn decimal_digits() {
    let expected = ['0', '1', '2', '3', '4', '5', '6', '7', '8', '9'];
    for d in 0u8..10 {
        assert_eq!(digit(d), expected[d as usize]);
    }
}

#[test]
fn unsigned_decimal_text() {
    for v in [0u64, 1, 9, 10, 11, 99, 100, 101, 12345, 1_000_000, u64::MAX] {
        let mut out = String::new();
        write_u64(&mut out, v);
        assert_eq!(out, v.to_string());
    }
    let mut out = String::from("n=");
    write_u64(&mut out, 42);
    assert_eq!(out, "n=42");
}

#[test]
fn signed_decimal_text() {
    for v in [0i64, 1, -1, 10, -10, 123456789, -987654321, i64::MAX, i64::MIN, i64::MIN + 1] {
        let mut out = String::new();
        write_i64(&mut out, v);
        assert_eq!(out, v.to_string());
    }
    let mut out = String::new();
    write_i64(&mut out, i64::MIN);
    assert_eq!(out, "-9223372036854775808");
}
