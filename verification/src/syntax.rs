//! The shape of a row on the wire, told by reading it as a receiver
//! would: character by character, minding backslashes and quotes.

use vstd::prelude::*;
use crate::decimal::{decimal, digit_char, digits};
use crate::escape::{escape_char, escaped, field, needs_escape};
use crate::model::{
    bool_token, f64_token, i64_token, key_text, NEGATIVE_INFINITY_BITS, POSITIVE_INFINITY_BITS,
};

verus! {

/// What a reader knows after a piece of a row: whether the next character
/// is escaped, whether it stands between quotes, and how many separators
/// it has met that were neither escaped nor quoted. A line feed between
/// quotes counts too: it would end the row all the same.
pub struct Scan {
    pub escaped: bool,
    pub quoted: bool,
    pub spaces: nat,
    pub commas: nat,
    pub equals: nat,
    pub newlines: nat,
}

/// The reader at the start of a row.
pub open spec fn scan_start() -> Scan {
    Scan { escaped: false, quoted: false, spaces: 0, commas: 0, equals: 0, newlines: 0 }
}

/// Whether the reader stands outside quotes, at an unescaped character.
pub open spec fn at_rest(st: Scan) -> bool {
    !st.escaped && !st.quoted
}

/// The reader after one more character.
pub open spec fn scan_char(st: Scan, c: char) -> Scan {
    if st.escaped {
        Scan { escaped: false, ..st }
    } else if c == '\\' {
        Scan { escaped: true, ..st }
    } else if c == '"' {
        Scan { quoted: !st.quoted, ..st }
    } else if c == '\n' {
        Scan { newlines: st.newlines + 1, ..st }
    } else if st.quoted {
        st
    } else if c == ' ' {
        Scan { spaces: st.spaces + 1, ..st }
    } else if c == ',' {
        Scan { commas: st.commas + 1, ..st }
    } else if c == '=' {
        Scan { equals: st.equals + 1, ..st }
    } else {
        st
    }
}

/// The reader after the characters of `text`.
pub open spec fn scan(st: Scan, text: Seq<char>) -> Scan
    decreases text.len(),
{
    if text.len() == 0 {
        st
    } else {
        scan_char(scan(st, text.drop_last()), text.last())
    }
}

/// Whether `c` means nothing to a reader at rest.
pub open spec fn is_inert(c: char) -> bool {
    c != '\\' && c != '"' && c != '\n' && c != ' ' && c != ',' && c != '='
}

/// Whether every character of `text` is inert.
pub open spec fn all_inert(text: Seq<char>) -> bool {
    forall|i: int| 0 <= i < text.len() ==> is_inert(#[trigger] text[i])
}

/// What a reader at rest has counted after the table name, `symbols`
/// symbols and `columns` columns: one `=` for each field, one comma before
/// each symbol and before each column but the first, and one space before
/// the first column.
pub open spec fn row_shape(symbols: nat, columns: nat) -> Scan {
    Scan {
        escaped: false,
        quoted: false,
        spaces: if columns > 0 {
            1
        } else {
            0
        },
        commas: if columns > 0 {
            (symbols + columns - 1) as nat
        } else {
            symbols
        },
        equals: symbols + columns,
        newlines: 0,
    }
}

/// The end of a row: a space and the timestamp if there is one, then the
/// line feed.
pub open spec fn row_end(timestamp: Option<i64>) -> Seq<char> {
    match timestamp {
        Some(epoch_nanos) => seq![' '] + decimal(epoch_nanos as int) + seq!['\n'],
        None => seq!['\n'],
    }
}

/// Whether `line` is one complete row of `symbols` symbols and `columns`
/// columns: it ends with `row_end(timestamp)`, and what stands before that
/// end reads as a table name and the fields, with exactly their
/// separators, no line feed, and no backslash or quote left open.
pub open spec fn well_formed_line(
    line: Seq<char>,
    symbols: nat,
    columns: nat,
    timestamp: Option<i64>,
) -> bool {
    let end = row_end(timestamp);
    let body_len = line.len() - end.len();
    &&& symbols + columns > 0
    &&& body_len >= 0
    &&& line.skip(body_len) == end
    &&& scan(scan_start(), line.take(body_len)) == row_shape(symbols, columns)
}

/// Reading one character.
pub proof fn lemma_scan_one(st: Scan, c: char)
    ensures
        scan(st, seq![c]) == scan_char(st, c),
{
    assert(seq![c].drop_last() == Seq::<char>::empty());
    assert(scan(st, Seq::<char>::empty()) == st);
}

/// Reading two pieces in turn is reading their concatenation.
pub proof fn lemma_scan_concat(st: Scan, a: Seq<char>, b: Seq<char>)
    ensures
        scan(st, a + b) == scan(scan(st, a), b),
    decreases b.len(),
{
    if b.len() > 0 {
        assert((a + b).drop_last() == a + b.drop_last());
        lemma_scan_concat(st, a, b.drop_last());
    }
}

/// Inert text leaves a reader at rest as it was.
pub proof fn lemma_scan_inert(st: Scan, text: Seq<char>)
    requires
        at_rest(st),
        all_inert(text),
    ensures
        scan(st, text) == st,
    decreases text.len(),
{
    if text.len() > 0 {
        assert(all_inert(text.drop_last()));
        lemma_scan_inert(st, text.drop_last());
    }
}

/// Escaped text leaves the reader as it was: outside quotes for the
/// unquoted kind of escaping, between quotes for the quoted kind.
pub proof fn lemma_scan_escaped(st: Scan, s: Seq<char>, quoted: bool)
    requires
        !st.escaped,
        st.quoted == quoted,
    ensures
        scan(st, escaped(s, quoted)) == st,
    decreases s.len(),
{
    if s.len() > 0 {
        let c = s.last();
        lemma_scan_escaped(st, s.drop_last(), quoted);
        lemma_scan_concat(st, escaped(s.drop_last(), quoted), escape_char(c, quoted));
        if needs_escape(c, quoted) {
            let pair = seq!['\\', c];
            assert(pair.drop_last() == seq!['\\']);
            lemma_scan_one(st, '\\');
        } else {
            lemma_scan_one(st, c);
        }
    }
}

/// A field, quoted or not, leaves a reader at rest as it was.
pub proof fn lemma_scan_field(st: Scan, s: Seq<char>, quoted: bool)
    requires
        at_rest(st),
    ensures
        scan(st, field(s, quoted)) == st,
{
    if quoted {
        let inside = Scan { quoted: true, ..st };
        lemma_scan_one(st, '"');
        lemma_scan_concat(st, seq!['"'], escaped(s, true));
        lemma_scan_escaped(inside, s, true);
        lemma_scan_concat(st, seq!['"'] + escaped(s, true), seq!['"']);
        lemma_scan_one(inside, '"');
    } else {
        lemma_scan_escaped(st, s, false);
    }
}

/// A separator, a key and its `=` add the separator and one `=`.
pub proof fn lemma_scan_key(st: Scan, sep: char, name: Seq<char>)
    requires
        at_rest(st),
        sep == ' ' || sep == ',',
    ensures
        scan(st, key_text(sep, name)) == scan_char(scan_char(st, sep), '='),
{
    let after_sep = scan_char(st, sep);
    lemma_scan_one(st, sep);
    lemma_scan_concat(st, seq![sep], field(name, false));
    lemma_scan_field(after_sep, name, false);
    lemma_scan_concat(st, seq![sep] + field(name, false), seq!['=']);
    lemma_scan_one(after_sep, '=');
}

/// Digits are inert.
pub proof fn lemma_digits_inert(n: nat)
    ensures
        all_inert(digits(n)),
    decreases n,
{
    if n >= 10 {
        lemma_digits_inert(n / 10);
        assert(is_inert(digit_char((n % 10) as int)));
    }
}

/// The decimal text of an integer is inert.
pub proof fn lemma_decimal_inert(n: int)
    ensures
        all_inert(decimal(n)),
{
    if n < 0 {
        lemma_digits_inert((-n) as nat);
        assert(all_inert(seq!['-'] + digits((-n) as nat)));
    } else {
        lemma_digits_inert(n as nat);
    }
}

/// The tokens of boolean and integer columns are inert.
pub proof fn lemma_number_tokens_inert(flag: bool, value: i64)
    ensures
        all_inert(bool_token(flag)),
        all_inert(i64_token(value)),
{
    lemma_decimal_inert(value as int);
}

/// The token of a float column leaves a reader at rest as it was,
/// whatever text came with the float.
pub proof fn lemma_scan_float_token(st: Scan, bits: u64, text: Seq<char>)
    requires
        at_rest(st),
    ensures
        scan(st, f64_token(bits, text)) == st,
{
    if bits == POSITIVE_INFINITY_BITS || bits == NEGATIVE_INFINITY_BITS {
        reveal_strlit("Infinity");
        reveal_strlit("-Infinity");
        lemma_scan_inert(st, f64_token(bits, text));
    } else {
        lemma_scan_field(st, text, false);
    }
}

/// The end of a row is one space if there is a timestamp, and the line
/// feed: the reader counts them and nothing else.
pub proof fn lemma_scan_row_end(st: Scan, timestamp: Option<i64>)
    requires
        at_rest(st),
    ensures
        scan(st, row_end(timestamp)) == (Scan {
            spaces: if timestamp is Some {
                st.spaces + 1
            } else {
                st.spaces
            },
            newlines: st.newlines + 1,
            ..st
        }),
{
    match timestamp {
        Some(epoch_nanos) => {
            let d = decimal(epoch_nanos as int);
            let after_space = scan_char(st, ' ');
            lemma_scan_one(st, ' ');
            lemma_scan_concat(st, seq![' '], d);
            lemma_decimal_inert(epoch_nanos as int);
            lemma_scan_inert(after_space, d);
            lemma_scan_concat(st, seq![' '] + d, seq!['\n']);
            lemma_scan_one(after_space, '\n');
        },
        None => {
            lemma_scan_one(st, '\n');
        },
    }
}

/// A well-formed row, read from its first character to its last, holds
/// one space before its first column and one before its timestamp, where
/// it has them, and no other; one comma before each symbol and before
/// each column but the first; one `=` for each field; and one line feed,
/// which is its last character.
pub proof fn lemma_line_separators(
    line: Seq<char>,
    symbols: nat,
    columns: nat,
    timestamp: Option<i64>,
)
    requires
        well_formed_line(line, symbols, columns, timestamp),
    ensures
        line.len() > 0,
        line.last() == '\n',
        scan(scan_start(), line.drop_last()).newlines == 0,
        scan(scan_start(), line) == (Scan {
            escaped: false,
            quoted: false,
            spaces: if columns > 0 && timestamp is Some {
                2
            } else if columns > 0 || timestamp is Some {
                1
            } else {
                0
            },
            commas: if columns > 0 {
                (symbols + columns - 1) as nat
            } else {
                symbols
            },
            equals: symbols + columns,
            newlines: 1,
        }),
{
    let end = row_end(timestamp);
    let body = line.take(line.len() - end.len());
    let shape = row_shape(symbols, columns);
    assert(line == body + end);
    lemma_scan_concat(scan_start(), body, end);
    lemma_scan_row_end(shape, timestamp);
    // All of the end but its line feed leaves the count of line feeds.
    let before_feed = end.drop_last();
    assert(line.drop_last() == body + before_feed);
    lemma_scan_concat(scan_start(), body, before_feed);
    match timestamp {
        Some(epoch_nanos) => {
            let d = decimal(epoch_nanos as int);
            assert(before_feed == seq![' '] + d);
            lemma_scan_one(shape, ' ');
            lemma_scan_concat(shape, seq![' '], d);
            lemma_decimal_inert(epoch_nanos as int);
            lemma_scan_inert(scan_char(shape, ' '), d);
        },
        None => {
            assert(before_feed == Seq::<char>::empty());
        },
    }
}

} // verus!
