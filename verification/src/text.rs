//! What this crate takes on trust about `String` and about std's debug
//! formatting of text. Nothing here is proved: every contract restates
//! the documentation of the std function it names.

use vstd::prelude::*;
use crate::name::is_reserved;

verus! {

/// `String::push` appends one character to the end of the string.
pub assume_specification[ String::push ](s: &mut String, c: char)
    ensures
        final(s)@ == old(s)@.push(c),
;

/// `String::clear` removes every character from the string.
pub assume_specification[ String::clear ](s: &mut String)
    ensures
        final(s)@ == Seq::<char>::empty(),
;

/// `String::with_capacity` returns an empty string. It panics when asked
/// for more than `isize::MAX` bytes, so such a request is left out.
pub assume_specification[ String::with_capacity ](capacity: usize) -> (s: String)
    requires
        capacity <= isize::MAX,
    ensures
        s@ == Seq::<char>::empty(),
;

/// `String::try_reserve` asks the allocator for room for `additional` more
/// bytes and reports a failure instead of panicking. Whether or not the
/// room was had, the text stays as it is.
#[verifier::external_body]
pub(crate) fn reserve(output: &mut String, additional: usize)
    ensures
        final(output)@ == old(output)@,
{
    output.try_reserve(additional).ok();
}

/// What std's `Debug` formatting of a `str` prints for the text `s`: the
/// text between double quotes, with std's escapes.
pub uninterp spec fn debug_str(s: Seq<char>) -> Seq<char>;

/// Formats `s` with `{:?}`. The result is a function of the text alone and
/// is known to the contracts only by its name, [`debug_str`].
#[verifier::external_body]
pub(crate) fn str_debug(s: &str) -> (r: String)
    ensures
        r@ == debug_str(s@),
{
    format!("{:?}", s)
}

/// A reserved character as std's `Debug` formatting prints it: between
/// single quotes, with a backslash before a single quote and before a
/// backslash, and NUL as `\0`.
pub open spec fn quoted_char(c: char) -> Seq<char> {
    if c == '\'' {
        seq!['\'', '\\', '\'', '\'']
    } else if c == '\\' {
        seq!['\'', '\\', '\\', '\'']
    } else if c == '\0' {
        seq!['\'', '\\', '0', '\'']
    } else {
        seq!['\'', c, '\'']
    }
}

/// Formats `c` with `{:?}`. For a reserved character, all of them ASCII,
/// std prints the character between single quotes and escapes three of
/// them: the single quote, the backslash and NUL. Other characters have
/// other escapes and are left out.
#[verifier::external_body]
pub(crate) fn char_debug(c: char) -> (r: String)
    requires
        is_reserved(c),
    ensures
        r@ == quoted_char(c),
{
    format!("{:?}", c)
}

} // verus!
