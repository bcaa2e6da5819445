//! Names of tables, symbols and columns, and the rule that admits them.

use vstd::prelude::*;
use vstd::std_specs::iter::IteratorSpec;
use vstd::string::StringExecFns;
use crate::decimal::{digits, write_u64};
use crate::encoding::{
    len_utf8, lemma_utf8_len_prefix, lemma_utf8_len_push, utf8_len,
};
use crate::error::{Error, ErrorCode, ErrorView};
use crate::text::{char_debug, debug_str, quoted_char, str_debug};

verus! {

/// Whether `c` is one of the characters that no name may hold.
pub open spec fn is_reserved(c: char) -> bool {
    c == ' ' || c == '?' || c == '.' || c == ',' || c == '\'' || c == '"' || c == '\\' || c == '/'
        || c == '\0' || c == ':' || c == ')' || c == '(' || c == '+' || c == '-' || c == '*' || c
        == '%' || c == '~'
}

/// Whether `c` is the zero-width no-break space, the byte order mark.
pub open spec fn is_bom(c: char) -> bool {
    c == '\u{FEFF}'
}

/// Whether a name may not hold `c`.
pub open spec fn is_forbidden(c: char) -> bool {
    is_reserved(c) || is_bom(c)
}

/// Whether `s` is a legal name: not empty, and free of forbidden
/// characters.
pub open spec fn valid_name(s: Seq<char>) -> bool {
    s.len() > 0 && forall|i: int| 0 <= i < s.len() ==> !is_forbidden(#[trigger] s[i])
}

/// The index of the first forbidden character of `s`, or the length of
/// `s` when it has none.
pub open spec fn first_forbidden(s: Seq<char>) -> int
    decreases s.len(),
{
    if s.len() == 0 || is_forbidden(s[0]) {
        0
    } else {
        1 + first_forbidden(s.drop_first())
    }
}

/// The message for an empty name.
pub open spec fn empty_name_msg() -> Seq<char> {
    "table, symbol and column names must have a non-zero length."@
}

/// The message for a name with a reserved character: `quoted_name` and
/// `quoted_char` are the debug forms of the name and of the character,
/// `offset` is the byte offset of the character in the name.
pub open spec fn reserved_char_msg(
    quoted_name: Seq<char>,
    quoted_char: Seq<char>,
    offset: nat,
) -> Seq<char> {
    "Bad string "@ + quoted_name + ": table, symbol and column names can't contain a "@
        + quoted_char + " character, which was found at byte position "@ + digits(offset) + "."@
}

/// The message for a name with a byte order mark at byte `offset`.
pub open spec fn bom_msg(quoted_name: Seq<char>, offset: nat) -> Seq<char> {
    "Bad string "@ + quoted_name
        + ": table, symbol and column names can't contain a UTF-8 BOM character, which was found at byte position "@
        + digits(offset) + "."@
}

/// The error that an illegal name `s` is refused with. It tells the first
/// forbidden character and the number of bytes that precede it.
pub open spec fn name_error(s: Seq<char>) -> ErrorView {
    let at = first_forbidden(s);
    let offset = utf8_len(s.take(at));
    let msg = if s.len() == 0 {
        empty_name_msg()
    } else if is_bom(s[at]) {
        bom_msg(debug_str(s), offset)
    } else {
        reserved_char_msg(debug_str(s), quoted_char(s[at]), offset)
    };
    ErrorView { code: ErrorCode::InvalidName, msg }
}

/// What validation answers for the text `s`.
pub open spec fn checked_name(s: Seq<char>) -> Result<(), ErrorView> {
    if valid_name(s) {
        Ok(())
    } else {
        Err(name_error(s))
    }
}

/// The first forbidden index lies at or before every forbidden character,
/// at a forbidden character, and after permitted ones only.
pub proof fn lemma_first_forbidden_bounds(s: Seq<char>, i: int)
    requires
        0 <= i < s.len(),
        is_forbidden(s[i]),
    ensures
        0 <= first_forbidden(s) <= i,
        is_forbidden(s[first_forbidden(s)]),
        forall|j: int| 0 <= j < first_forbidden(s) ==> !is_forbidden(#[trigger] s[j]),
    decreases i,
{
    if !is_forbidden(s[0]) {
        let rest = s.drop_first();
        lemma_first_forbidden_bounds(rest, i - 1);
        let at = first_forbidden(rest);
        assert forall|j: int| 0 <= j < at + 1 implies !is_forbidden(#[trigger] s[j]) by {
            if j > 0 {
                assert(rest[j - 1] == s[j]);
            }
        }
    }
}

/// Every name that holds a forbidden character is refused, and the error
/// tells the first such character and the number of bytes before it.
pub proof fn lemma_forbidden_name_refused(s: Seq<char>, i: int)
    requires
        0 <= i < s.len(),
        is_forbidden(s[i]),
    ensures
        ({
            let at = first_forbidden(s);
            let offset = utf8_len(s.take(at));
            &&& checked_name(s) == Err::<(), _>(name_error(s))
            &&& 0 <= at <= i
            &&& is_forbidden(s[at])
            &&& forall|j: int| 0 <= j < at ==> !is_forbidden(#[trigger] s[j])
            &&& name_error(s).code == ErrorCode::InvalidName
            &&& is_bom(s[at]) ==> name_error(s).msg == bom_msg(debug_str(s), offset)
            &&& !is_bom(s[at]) ==> name_error(s).msg == reserved_char_msg(
                debug_str(s),
                quoted_char(s[at]),
                offset,
            )
        }),
{
    lemma_first_forbidden_bounds(s, i);
}

/// Decides whether a name may hold `c`.
pub fn reserved(c: char) -> (r: bool)
    ensures
        r == is_reserved(c),
{
    match c {
        ' ' | '?' | '.' | ',' | '\'' | '"' | '\\' | '/' | '\0' | ':' | ')' | '(' | '+' | '-'
        | '*' | '%' | '~' => true,
        _ => false,
    }
}

/// The error for an empty name.
pub fn empty_name_error() -> (e: Error)
    ensures
        e@ == (ErrorView { code: ErrorCode::InvalidName, msg: empty_name_msg() }),
{
    let mut msg = String::new();
    msg.append("table, symbol and column names must have a non-zero length.");
    Error::new(ErrorCode::InvalidName, msg)
}

/// The error for a name with a reserved character, from the debug forms
/// of the name and of the character and the character's byte offset.
pub fn reserved_char_error(quoted_name: &str, quoted_char: &str, offset: usize) -> (e: Error)
    ensures
        e@ == (ErrorView {
            code: ErrorCode::InvalidName,
            msg: reserved_char_msg(quoted_name@, quoted_char@, offset as nat),
        }),
{
    let mut msg = String::new();
    msg.append("Bad string ");
    msg.append(quoted_name);
    msg.append(": table, symbol and column names can't contain a ");
    msg.append(quoted_char);
    msg.append(" character, which was found at byte position ");
    write_u64(&mut msg, offset as u64);
    msg.append(".");
    Error::new(ErrorCode::InvalidName, msg)
}

/// The error for a name with a byte order mark, from the debug form of
/// the name and the mark's byte offset.
pub fn bom_error(quoted_name: &str, offset: usize) -> (e: Error)
    ensures
        e@ == (ErrorView {
            code: ErrorCode::InvalidName,
            msg: bom_msg(quoted_name@, offset as nat),
        }),
{
    let mut msg = String::new();
    msg.append("Bad string ");
    msg.append(quoted_name);
    msg.append(
        ": table, symbol and column names can't contain a UTF-8 BOM character, which was found at byte position ",
    );
    write_u64(&mut msg, offset as u64);
    msg.append(".");
    Error::new(ErrorCode::InvalidName, msg)
}

/// A name that has passed validation.
pub struct Name<'a> {
    name: &'a str,
}

impl<'a> View for Name<'a> {
    type V = Seq<char>;

    closed spec fn view(&self) -> Seq<char> {
        self.name@
    }
}

impl<'a> Name<'a> {
    /// Validates `name`. An empty name and a name with a forbidden
    /// character are refused; the error tells the first such character and
    /// its byte offset. A legal name is returned as it is.
    pub fn new(name: &'a str) -> (r: Result<Self, Error>)
        ensures
            match r {
                Ok(n) => valid_name(name@) && n@ == name@,
                Err(e) => !valid_name(name@) && e@ == name_error(name@),
            },
    {
        broadcast use vstd::string::group_string_axioms;
        broadcast use vstd::slice::group_slice_axioms;

        if name.is_empty() {
            return Err(empty_name_error());
        }
        // Every offset below lies within the length in bytes.
        let byte_len: usize = name.as_bytes().len();
        let mut it = name.chars();
        let mut offset: usize = 0;
        let ghost mut i: int = 0;
        loop
            invariant
                0 <= i <= name@.len(),
                name@.len() > 0,
                it.remaining() == name@.skip(i),
                offset == utf8_len(name@.take(i)),
                byte_len == utf8_len(name@),
                forall|j: int| 0 <= j < i ==> !is_forbidden(#[trigger] name@[j]),
            ensures
                valid_name(name@),
            decreases name@.len() - i,
        {
            match it.next() {
                Some(c) => {
                    if reserved(c) {
                        proof {
                            lemma_first_forbidden_bounds(name@, i);
                        }
                        let quoted_name = str_debug(name);
                        let quoted_char = char_debug(c);
                        return Err(
                            reserved_char_error(quoted_name.as_str(), quoted_char.as_str(), offset),
                        );
                    } else if c == '\u{FEFF}' {
                        proof {
                            lemma_first_forbidden_bounds(name@, i);
                        }
                        let quoted_name = str_debug(name);
                        return Err(bom_error(quoted_name.as_str(), offset));
                    }
                    proof {
                        assert(name@.take(i + 1) == name@.take(i).push(c));
                        lemma_utf8_len_push(name@.take(i), c);
                        lemma_utf8_len_prefix(name@, i + 1);
                    }
                    offset = offset + len_utf8(c);
                    proof {
                        i = i + 1;
                    }
                },
                None => {
                    break ;
                },
            }
        }
        Ok(Name { name })
    }

    /// The text of the name.
    pub fn as_str(&self) -> (s: &'a str)
        ensures
            s@ == self@,
    {
        self.name
    }
}

} // verus!
