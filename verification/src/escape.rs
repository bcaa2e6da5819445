//! Escaping of text for the wire: with a backslash before each character
//! that would otherwise end or split a field.

use vstd::prelude::*;
use vstd::std_specs::iter::IteratorSpec;
use vstd::string::StringExecFns;
use crate::encoding::lemma_utf8_len_at_least_chars;
use crate::text::reserve;

verus! {

/// Whether `c` takes a backslash in a field that is written without
/// quotes: a table name, a key, a symbol's value.
pub open spec fn needs_escape_unquoted(c: char) -> bool {
    c == ' ' || c == ',' || c == '=' || c == '\n' || c == '\r' || c == '"' || c == '\\'
}

/// Whether `c` takes a backslash in a field that is written between
/// double quotes: the value of a text column.
pub open spec fn needs_escape_quoted(c: char) -> bool {
    c == '\n' || c == '\r' || c == '"' || c == '\\'
}

/// Whether `c` takes a backslash in a field of the given kind.
pub open spec fn needs_escape(c: char, quoted: bool) -> bool {
    if quoted {
        needs_escape_quoted(c)
    } else {
        needs_escape_unquoted(c)
    }
}

/// The escaped form of one character.
pub open spec fn escape_char(c: char, quoted: bool) -> Seq<char> {
    if needs_escape(c, quoted) {
        seq!['\\', c]
    } else {
        seq![c]
    }
}

/// The escaped form of `s`: each character in turn, with a backslash
/// before those that need one.
pub open spec fn escaped(s: Seq<char>, quoted: bool) -> Seq<char>
    decreases s.len(),
{
    if s.len() == 0 {
        Seq::<char>::empty()
    } else {
        escaped(s.drop_last(), quoted) + escape_char(s.last(), quoted)
    }
}

/// The field that `s` is written as: escaped, and between double quotes
/// if the field is a quoted one.
pub open spec fn field(s: Seq<char>, quoted: bool) -> Seq<char> {
    if quoted {
        seq!['"'] + escaped(s, true) + seq!['"']
    } else {
        escaped(s, false)
    }
}

/// The number of characters of `s` that need a backslash.
pub open spec fn escape_count(s: Seq<char>, quoted: bool) -> nat
    decreases s.len(),
{
    if s.len() == 0 {
        0
    } else if needs_escape(s.last(), quoted) {
        escape_count(s.drop_last(), quoted) + 1
    } else {
        escape_count(s.drop_last(), quoted)
    }
}

/// Whether no character of `s` needs a backslash.
pub open spec fn is_plain(s: Seq<char>, quoted: bool) -> bool {
    forall|i: int| 0 <= i < s.len() ==> !needs_escape(#[trigger] s[i], quoted)
}

/// What `text` stands for when each backslash is dropped and the
/// character after it is kept.
pub open spec fn unescaped(text: Seq<char>) -> Seq<char>
    decreases text.len(),
{
    if text.len() == 0 {
        Seq::<char>::empty()
    } else if text[0] == '\\' && text.len() >= 2 {
        seq![text[1]] + unescaped(text.skip(2))
    } else {
        seq![text[0]] + unescaped(text.skip(1))
    }
}

/// What a field stands for: for a quoted one the text between the two
/// quotes, unescaped; for an unquoted one the whole text, unescaped.
pub open spec fn field_value(text: Seq<char>, quoted: bool) -> Seq<char> {
    if quoted {
        unescaped(text.subrange(1, text.len() - 1))
    } else {
        unescaped(text)
    }
}

/// Escaping one more character appends its escaped form.
pub proof fn lemma_escaped_push(s: Seq<char>, c: char, quoted: bool)
    ensures
        escaped(s.push(c), quoted) == escaped(s, quoted) + escape_char(c, quoted),
{
    assert(s.push(c).drop_last() == s);
}

/// Escaping distributes over concatenation.
pub proof fn lemma_escaped_concat(a: Seq<char>, b: Seq<char>, quoted: bool)
    ensures
        escaped(a + b, quoted) == escaped(a, quoted) + escaped(b, quoted),
    decreases b.len(),
{
    if b.len() > 0 {
        assert((a + b).drop_last() == a + b.drop_last());
        lemma_escaped_concat(a, b.drop_last(), quoted);
    }
}

/// No more characters need a backslash than there are, and none does
/// exactly when the text is plain.
pub proof fn lemma_escape_count(s: Seq<char>, quoted: bool)
    ensures
        escape_count(s, quoted) <= s.len(),
        escape_count(s, quoted) == 0 <==> is_plain(s, quoted),
    decreases s.len(),
{
    if s.len() > 0 {
        let front = s.drop_last();
        lemma_escape_count(front, quoted);
        if needs_escape(s.last(), quoted) {
            assert(needs_escape(s[s.len() - 1], quoted));
        } else if is_plain(front, quoted) {
            assert forall|i: int| 0 <= i < s.len() implies !needs_escape(
                #[trigger] s[i],
                quoted,
            ) by {
                if i < front.len() {
                    assert(s[i] == front[i]);
                }
            }
        } else {
            let i = choose|i: int| 0 <= i < front.len() && needs_escape(#[trigger] front[i], quoted);
            assert(needs_escape(s[i], quoted));
        }
    }
}

/// Each backslash makes the escaped form one character longer.
pub proof fn lemma_escaped_len(s: Seq<char>, quoted: bool)
    ensures
        escaped(s, quoted).len() == s.len() + escape_count(s, quoted),
    decreases s.len(),
{
    if s.len() > 0 {
        lemma_escaped_len(s.drop_last(), quoted);
    }
}

/// A text without characters to escape is its own escaped form.
pub proof fn lemma_escaped_plain(s: Seq<char>, quoted: bool)
    requires
        is_plain(s, quoted),
    ensures
        escaped(s, quoted) == s,
    decreases s.len(),
{
    if s.len() > 0 {
        assert(is_plain(s.drop_last(), quoted));
        lemma_escaped_plain(s.drop_last(), quoted);
    }
}

/// Unescaping undoes escaping: dropping the backslashes from the escaped
/// form of `s` gives `s` back.
pub proof fn lemma_unescape_escaped(s: Seq<char>, quoted: bool)
    ensures
        unescaped(escaped(s, quoted)) == s,
    decreases s.len(),
{
    if s.len() > 0 {
        let head = seq![s[0]];
        let rest = s.drop_first();
        assert(s == head + rest);
        lemma_escaped_concat(head, rest, quoted);
        lemma_escaped_push(Seq::<char>::empty(), s[0], quoted);
        let e = escaped(s, quoted);
        let r = escaped(rest, quoted);
        lemma_unescape_escaped(rest, quoted);
        if needs_escape(s[0], quoted) {
            assert(e.skip(2) == r);
        } else {
            assert(e.skip(1) == r);
        }
    }
}

/// Reading a field gives back the text it was written from, whether the
/// field is quoted or not.
pub proof fn lemma_field_round_trip(s: Seq<char>, quoted: bool)
    ensures
        field_value(field(s, quoted), quoted) == s,
{
    lemma_unescape_escaped(s, quoted);
    if quoted {
        let f = field(s, true);
        assert(f.subrange(1, f.len() - 1) == escaped(s, true));
    }
}

/// Decides whether `c` takes a backslash in an unquoted field.
pub fn must_escape_unquoted(c: char) -> (r: bool)
    ensures
        r == needs_escape_unquoted(c),
{
    match c {
        ' ' | ',' | '=' | '\n' | '\r' | '"' | '\\' => true,
        _ => false,
    }
}

/// Decides whether `c` takes a backslash in a quoted field.
pub fn must_escape_quoted(c: char) -> (r: bool)
    ensures
        r == needs_escape_quoted(c),
{
    match c {
        '\n' | '\r' | '"' | '\\' => true,
        _ => false,
    }
}

/// Decides whether `c` takes a backslash in a field of the given kind.
pub fn must_escape(c: char, quoted: bool) -> (r: bool)
    ensures
        r == needs_escape(c, quoted),
{
    if quoted {
        must_escape_quoted(c)
    } else {
        must_escape_unquoted(c)
    }
}

/// Counts the characters of `s` that need a backslash.
pub fn count_escapes(s: &str, quoted: bool) -> (n: usize)
    ensures
        n == escape_count(s@, quoted),
{
    broadcast use vstd::string::group_string_axioms;
    broadcast use vstd::slice::group_slice_axioms;

    // The count stays within the number of characters, and that within
    // the length in bytes.
    let byte_len: usize = s.as_bytes().len();
    proof {
        lemma_utf8_len_at_least_chars(s@);
    }
    let mut it = s.chars();
    let mut to_escape: usize = 0;
    let ghost mut i: int = 0;
    loop
        invariant
            0 <= i <= s@.len() <= usize::MAX,
            it.remaining() == s@.skip(i),
            to_escape == escape_count(s@.take(i), quoted),
        ensures
            i == s@.len(),
            to_escape == escape_count(s@.take(i), quoted),
        decreases s@.len() - i,
    {
        match it.next() {
            Some(c) => {
                proof {
                    assert(s@.take(i + 1).drop_last() == s@.take(i));
                    lemma_escape_count(s@.take(i), quoted);
                    i = i + 1;
                }
                if must_escape(c, quoted) {
                    to_escape = to_escape + 1;
                }
            },
            None => {
                break ;
            },
        }
    }
    proof {
        assert(s@.take(i) == s@);
    }
    to_escape
}

/// Appends `s` to `output` as a field: escaped, and between double quotes
/// if `quoted`. A text without characters to escape is appended in one
/// piece; for another, room is asked for first and the characters are
/// appended one by one.
pub fn write_escaped_impl(quoted: bool, output: &mut String, s: &str)
    ensures
        final(output)@ == old(output)@ + field(s@, quoted),
{
    broadcast use vstd::string::group_string_axioms;

    let to_escape = count_escapes(s, quoted);
    if quoted {
        output.push('"');
    }
    let ghost start = output@;
    if to_escape == 0 {
        output.append(s);
        proof {
            lemma_escape_count(s@, quoted);
            lemma_escaped_plain(s@, quoted);
        }
    } else {
        reserve(output, s.len().saturating_add(to_escape));
        let mut it = s.chars();
        let ghost mut i: int = 0;
        loop
            invariant
                0 <= i <= s@.len(),
                it.remaining() == s@.skip(i),
                output@ == start + escaped(s@.take(i), quoted),
            ensures
                i == s@.len(),
                output@ == start + escaped(s@.take(i), quoted),
            decreases s@.len() - i,
        {
            match it.next() {
                Some(c) => {
                    if must_escape(c, quoted) {
                        output.push('\\');
                    }
                    output.push(c);
                    proof {
                        assert(s@.take(i + 1) == s@.take(i).push(c));
                        lemma_escaped_push(s@.take(i), c, quoted);
                        i = i + 1;
                    }
                },
                None => {
                    break ;
                },
            }
        }
        proof {
            assert(s@.take(i) == s@);
        }
    }
    if quoted {
        output.push('"');
    }
}

/// Appends `s` to `output` as an unquoted field.
pub fn write_escaped_unquoted(output: &mut String, s: &str)
    ensures
        final(output)@ == old(output)@ + field(s@, false),
{
    write_escaped_impl(false, output, s)
}

/// Appends `s` to `output` as a quoted field.
pub fn write_escaped_quoted(output: &mut String, s: &str)
    ensures
        final(output)@ == old(output)@ + field(s@, true),
{
    write_escaped_impl(true, output, s)
}

} // verus!
