use line_sender::{ErrorCode, LineSender};

fn sent(sender: &mut LineSender) -> String {
    let mut bytes: Vec<u8> = Vec::new();
    let r = sender.flush(|b: &[u8]| {
        bytes.extend_from_slice(b);
        Ok(())
    });
    assert!(r.is_ok());
    String::from_utf8(bytes).unwrap()
}

#[test]
fn symbol_and_integer_column_without_timestamp() {
    let mut s = LineSender::new();
    s.table("t").unwrap();
    s.symbol("s", "v").unwrap();
    s.column_i64("c", 10).unwrap();
    s.at_now().unwrap();
    assert_eq!(sent(&mut s), "t,s=v c=10i\n");
}

#[test]
fn infinity_column_with_timestamp() {
    let mut s = LineSender::new();
    let value = f64::INFINITY;
    s.table("x").unwrap();
    s.column_f64("f", value.to_bits(), &format!("{}", value)).unwrap();
    s.at(123).unwrap();
    assert_eq!(sent(&mut s), "x f=Infinity 123\n");
}

#[test]
fn text_column_with_a_quote() {
    let mut s = LineSender::new();
    s.table("t").unwrap();
    s.column_str("c", "a\"b").unwrap();
    s.at_now().unwrap();
    assert_eq!(sent(&mut s), "t c=\"a\\\"b\"\n");
}

#[test]
fn float_columns() {
    let mut s = LineSender::new();
    s.table("f").unwrap();
    for (name, value) in [
        ("a", 1.5f64),
        ("b", -0.25),
        ("c", f64::NEG_INFINITY),
        ("d", f64::INFINITY),
        ("e", 0.0),
        ("g", 1e300),
        ("h", f64::NAN),
    ] {
        s.column_f64(name, value.to_bits(), &format!("{}", value)).unwrap();
    }
    s.at_now().unwrap();
    let big = format!("{}", 1e300f64);
    assert_eq!(
        sent(&mut s),
        format!("f a=1.5,b=-0.25,c=-Infinity,d=Infinity,e=0,g={},h=NaN\n", big)
    );
}

#[test]
fn float_text_is_ignored_for_infinities_only() {
    let mut s = LineSender::new();
    s.table("f").unwrap();
    s.column_f64("a", f64::INFINITY.to_bits(), "ignored").unwrap();
    s.column_f64("b", f64::NEG_INFINITY.to_bits(), "ignored").unwrap();
    s.column_f64("c", 2.0f64.to_bits(), "2").unwrap();
    s.column_f64("d", f64::MAX.to_bits(), "kept").unwrap();
    s.at_now().unwrap();
    assert_eq!(sent(&mut s), "f a=Infinity,b=-Infinity,c=2,d=kept\n");
}

#[test]
fn float_text_cannot_break_the_row() {
    let mut s = LineSender::new();
    s.table("f").unwrap();
    s.column_f64("a", 1.0f64.to_bits(), "1 0").unwrap();
    s.column_f64("b", 2.0f64.to_bits(), "2,c=3\n").unwrap();
    s.column_f64("d", 2.5f64.to_bits(), "2.5e-3").unwrap();
    s.at(7).unwrap();
    assert_eq!(sent(&mut s), "f a=1\\ 0,b=2\\,c\\=3\\\n,d=2.5e-3 7\n");
}

#[test]
fn float_text_of_std_is_written_as_it_is() {
    let values = [
        0.0f64, -0.0, 1.0, -1.0, 0.1, 1e21, 1e-7, 123456.789, f64::MAX, f64::MIN,
        f64::MIN_POSITIVE, f64::EPSILON, f64::NAN,
    ];
    for value in values {
        let text = format!("{}", value);
        let mut s = LineSender::new();
        s.table("f").unwrap();
        s.column_f64("v", value.to_bits(), &text).unwrap();
        s.at_now().unwrap();
        assert_eq!(sent(&mut s), format!("f v={}\n", text));
    }
}

#[test]
fn boolean_columns() {
    let mut s = LineSender::new();
    s.table("b").unwrap();
    s.column_bool("yes", true).unwrap();
    s.column_bool("no", false).unwrap();
    s.at_now().unwrap();
    assert_eq!(sent(&mut s), "b yes=t,no=f\n");
}

#[test]
fn integer_columns_and_timestamps_at_the_limits() {
    let mut s = LineSender::new();
    s.table("i").unwrap();
    s.column_i64("min", i64::MIN).unwrap();
    s.column_i64("max", i64::MAX).unwrap();
    s.column_i64("zero", 0).unwrap();
    s.at(i64::MAX).unwrap();
    s.table("j").unwrap();
    s.column_i64("n", -7).unwrap();
    s.at(-1).unwrap();
    s.table("k").unwrap();
    s.symbol("s", "").unwrap();
    s.at(0).unwrap();
    assert_eq!(
        sent(&mut s),
        "i min=-9223372036854775808i,max=9223372036854775807i,zero=0i 9223372036854775807\nj n=-7i -1\nk,s= 0\n"
    );
}

#[test]
fn separators_between_fields() {
    let mut s = LineSender::new();
    s.table("t").unwrap();
    s.symbol("s1", "a").unwrap();
    s.symbol("s2", "b").unwrap();
    s.column_bool("c1", true).unwrap();
    s.column_i64("c2", 2).unwrap();
    s.column_str("c3", "three").unwrap();
    s.at(4).unwrap();
    assert_eq!(sent(&mut s), "t,s1=a,s2=b c1=t,c2=2i,c3=\"three\" 4\n");
}

#[test]
fn first_column_directly_after_table_takes_a_space() {
    let mut s = LineSender::new();
    s.table("t").unwrap();
    s.column_i64("a", 1).unwrap();
    s.column_i64("b", 2).unwrap();
    s.at_now().unwrap();
    assert_eq!(sent(&mut s), "t a=1i,b=2i\n");
}

#[test]
fn row_of_symbols_only() {
    let mut s = LineSender::new();
    s.table("t").unwrap();
    s.symbol("a", "1").unwrap();
    s.at(9).unwrap();
    assert_eq!(sent(&mut s), "t,a=1 9\n");
}

#[test]
fn names_and_values_are_escaped() {
    let mut s = LineSender::new();
    s.table("my=table").unwrap();
    s.symbol("k=1", "v 1,x=y").unwrap();
    s.symbol("q", "a\"b\\c").unwrap();
    s.column_str("text", "line\nfeed \"quoted\" back\\slash, = ").unwrap();
    s.column_str("k\n2", "").unwrap();
    s.at_now().unwrap();
    assert_eq!(
        sent(&mut s),
        "my\\=table,k\\=1=v\\ 1\\,x\\=y,q=a\\\"b\\\\c text=\"line\\\nfeed \\\"quoted\\\" back\\\\slash, = \",k\\\n2=\"\"\n"
    );
}

#[test]
fn several_rows_are_sent_together() {
    let mut s = LineSender::new();
    for i in 0..3 {
        s.table("t").unwrap();
        s.column_i64("n", i).unwrap();
        s.at(i + 100).unwrap();
    }
    assert_eq!(sent(&mut s), "t n=0i 100\nt n=1i 101\nt n=2i 102\n");
}

#[test]
fn pending_size_counts_bytes() {
    let mut s = LineSender::new();
    assert_eq!(s.pending_size(), 0);
    s.table("t").unwrap();
    assert_eq!(s.pending_size(), 1);
    s.symbol("s", "é日😀").unwrap();
    assert_eq!(s.pending_size(), 1 + 3 + 2 + 3 + 4);
    s.column_str("c", "a b").unwrap();
    assert_eq!(s.pending_size(), 13 + 3 + 5);
    s.at(1).unwrap();
    assert_eq!(s.pending_size(), 21 + 3);
    assert_eq!(s.pending_size(), s.pending_size());
    assert_eq!(sent(&mut s).len(), 24);
}

#[test]
fn inspection_is_repeatable() {
    let mut s = LineSender::new();
    s.table("t").unwrap();
    s.column_bool("b", true).unwrap();
    let first = (s.pending_size(), s.must_close());
    for _ in 0..5 {
        assert_eq!((s.pending_size(), s.must_close()), first);
    }
    assert_eq!(first, (5, false));
    assert!(s.table("t").is_err());
    let after = (s.pending_size(), s.must_close());
    for _ in 0..5 {
        assert_eq!((s.pending_size(), s.must_close()), after);
    }
    assert_eq!(after, (0, true));
}

#[test]
fn successful_flush_empties_the_buffer() {
    let mut s = LineSender::new();
    s.table("t").unwrap();
    s.column_bool("b", true).unwrap();
    s.at_now().unwrap();
    assert_eq!(s.pending_size(), 6);
    assert_eq!(sent(&mut s), "t b=t\n");
    assert_eq!(s.pending_size(), 0);
    assert!(!s.must_close());
    // A new row may start, and only what came after the flush is sent next.
    s.table("u").unwrap();
    s.column_bool("c", false).unwrap();
    s.at_now().unwrap();
    assert_eq!(sent(&mut s), "u c=f\n");
}

#[test]
fn failed_flush_poisons_the_sender() {
    let mut s = LineSender::new();
    s.table("t").unwrap();
    s.column_bool("b", true).unwrap();
    s.at_now().unwrap();
    let mut handed: Vec<u8> = Vec::new();
    let r = s.flush(|b: &[u8]| {
        handed.extend_from_slice(b);
        Err("broken pipe".to_string())
    });
    assert_eq!(handed, b"t b=t\n");
    let e = r.unwrap_err();
    assert_eq!(e.code(), ErrorCode::SocketError);
    assert_eq!(e.msg(), "Could not flush buffered messages: broken pipe");
    assert!(s.must_close());
    assert_eq!(s.pending_size(), 0);
    let e = s.table("t").unwrap_err();
    assert_eq!(e.code(), ErrorCode::InvalidApiCall);
    let mut called = false;
    let e = s
        .flush(|_b: &[u8]| {
            called = true;
            Ok(())
        })
        .unwrap_err();
    assert!(!called);
    assert_eq!(e.code(), ErrorCode::InvalidApiCall);
    assert_eq!(
        e.msg(),
        "State error: Bad call to `flush`, unrecoverable state due to previous error. Must now call `close`."
    );
}

#[test]
fn flush_out_of_order_hands_nothing_over() {
    let mut s = LineSender::new();
    let mut called = false;
    let e = s
        .flush(|_b: &[u8]| {
            called = true;
            Ok(())
        })
        .unwrap_err();
    assert!(!called);
    assert_eq!(e.code(), ErrorCode::InvalidApiCall);
    assert_eq!(
        e.msg(),
        "State error: Bad call to `flush`, should have called `table` instead. Must now call `close`."
    );
    assert!(s.must_close());

    let mut s = LineSender::new();
    s.table("t").unwrap();
    s.symbol("a", "b").unwrap();
    let e = s.flush(|_b: &[u8]| Ok(())).unwrap_err();
    assert_eq!(
        e.msg(),
        "State error: Bad call to `flush`, should have called `symbol`, `column` or `at` instead. Must now call `close`."
    );
    assert!(s.must_close());
}

#[test]
fn recorded_flush_outcomes() {
    let mut s = LineSender::new();
    s.table("t").unwrap();
    s.column_i64("n", 1).unwrap();
    s.at_now().unwrap();
    assert!(s.flushed(Ok(())).is_ok());
    assert_eq!(s.pending_size(), 0);
    assert!(!s.must_close());
    s.table("t").unwrap();
    s.column_i64("n", 2).unwrap();
    s.at_now().unwrap();
    let e = s.flushed(Err("timed out".to_string())).unwrap_err();
    assert_eq!(e.code(), ErrorCode::SocketError);
    assert_eq!(e.msg(), "Could not flush buffered messages: timed out");
    assert!(s.must_close());
    assert_eq!(s.pending_size(), 0);

    let mut s = LineSender::new();
    let e = s.flushed(Ok(())).unwrap_err();
    assert_eq!(e.code(), ErrorCode::InvalidApiCall);
    assert!(s.must_close());
}

// Reads a line as a receiver would and counts the separators that are
// neither escaped nor between quotes: (spaces, commas, equals, line feeds).
fn separators(line: &str) -> (usize, usize, usize, usize) {
    let (mut escaped, mut quoted) = (false, false);
    let (mut spaces, mut commas, mut equals, mut newlines) = (0, 0, 0, 0);
    for c in line.chars() {
        if escaped {
            escaped = false;
        } else if c == '\\' {
            escaped = true;
        } else if c == '"' {
            quoted = !quoted;
        } else if c == '\n' {
            newlines += 1;
        } else if quoted {
        } else if c == ' ' {
            spaces += 1;
        } else if c == ',' {
            commas += 1;
        } else if c == '=' {
            equals += 1;
        }
    }
    assert!(!escaped && !quoted);
    (spaces, commas, equals, newlines)
}

#[test]
fn rows_read_back_with_their_separators() {
    let awkward = ["plain", "a b", "x,y", "k=v", "line\nfeed", "q\"q", "b\\s", " ,=\n\r\"\\", ""];
    for symbols in 0..3usize {
        for columns in 0..4usize {
            if symbols + columns == 0 {
                continue;
            }
            for timestamped in [false, true] {
                let mut s = LineSender::new();
                s.table("t=1\n").unwrap();
                for i in 0..symbols {
                    s.symbol("s\r=", awkward[(i * 3 + columns) % awkward.len()]).unwrap();
                }
                for i in 0..columns {
                    match i % 4 {
                        0 => s.column_str("c=", awkward[(i + symbols * 5 + 1) % awkward.len()]),
                        1 => s.column_i64("c\n", -5),
                        2 => s.column_f64("c", (-1.5e-7f64).to_bits(), &format!("{}", -1.5e-7f64)),
                        _ => s.column_bool("c", true),
                    }
                    .unwrap();
                }
                if timestamped {
                    s.at(-42).unwrap();
                } else {
                    s.at_now().unwrap();
                }
                let line = sent(&mut s);
                assert!(line.ends_with('\n'));
                if timestamped {
                    assert!(line.ends_with(" -42\n"));
                }
                let expected_spaces = (columns > 0) as usize + timestamped as usize;
                let expected_commas = symbols + columns.saturating_sub(1);
                assert_eq!(
                    separators(&line),
                    (expected_spaces, expected_commas, symbols + columns, 1),
                    "{:?}",
                    line
                );
                assert_eq!(separators(&line[..line.len() - 1]).3, 0);
            }
        }
    }
}
