//! The sender as a mathematical object: its state, the text it has
//! buffered, and what each call does to both.

use vstd::prelude::*;
use crate::decimal::decimal;
use crate::encoding::utf8_len;
use crate::error::{socket_error, state_error_msg, ErrorCode, ErrorView};
use crate::escape::field;
use crate::name::{name_error, valid_name};
use crate::state::{Op, State};

verus! {

/// Bit pattern of the 64-bit float that stands for positive infinity.
pub const POSITIVE_INFINITY_BITS: u64 = 0x7FF0_0000_0000_0000u64;

/// Bit pattern of the 64-bit float that stands for negative infinity.
pub const NEGATIVE_INFINITY_BITS: u64 = 0xFFF0_0000_0000_0000u64;

/// What a sender holds.
pub struct SenderView {
    /// Where the sender stands within the current row.
    pub state: State,
    /// The buffered text: complete rows, then the row under construction.
    pub buffer: Seq<char>,
    /// The number of bytes the buffer held when a row was last completed.
    pub committed: nat,
}

/// A call on a sender, with its arguments.
#[allow(inconsistent_fields)]
pub enum Call {
    Table { name: Seq<char> },
    Symbol { name: Seq<char>, value: Seq<char> },
    ColumnBool { name: Seq<char>, value: bool },
    ColumnI64 { name: Seq<char>, value: i64 },
    /// `bits` is the bit pattern of the float, `text` its decimal text.
    ColumnF64 { name: Seq<char>, bits: u64, text: Seq<char> },
    ColumnStr { name: Seq<char>, value: Seq<char> },
    At { epoch_nanos: i64 },
    AtNow,
    /// `sent` is what the transport answered when it was handed the buffer.
    Flush { sent: Result<(), Seq<char>> },
}

/// What a call leaves behind: the sender after it, and its answer.
pub struct Step {
    pub next: SenderView,
    pub result: Result<(), ErrorView>,
}

/// The token of a boolean column.
pub open spec fn bool_token(value: bool) -> Seq<char> {
    if value {
        seq!['t']
    } else {
        seq!['f']
    }
}

/// The token of an integer column: the decimal text and the suffix `i`.
pub open spec fn i64_token(value: i64) -> Seq<char> {
    decimal(value as int).push('i')
}

/// The token of a float column: the two infinities have names of their
/// own, every other value is written as its decimal text `text`, as an
/// unquoted field. The decimal text of a float holds nothing to escape
/// and is written as it is; any other text is kept from breaking the row.
pub open spec fn f64_token(bits: u64, text: Seq<char>) -> Seq<char> {
    if bits == POSITIVE_INFINITY_BITS {
        "Infinity"@
    } else if bits == NEGATIVE_INFINITY_BITS {
        "-Infinity"@
    } else {
        field(text, false)
    }
}

/// The separator before a column's key: a space before the first column
/// of a row, a comma before each later one. The first column is the one
/// written while a symbol would still be legal.
pub open spec fn column_separator(state: State) -> char {
    if state.permits(Op::Symbol) {
        ' '
    } else {
        ','
    }
}

/// A key and the `=` after it, behind the separator `sep`.
pub open spec fn key_text(sep: char, name: Seq<char>) -> Seq<char> {
    seq![sep] + field(name, false) + seq!['=']
}

/// The error for a call of `op` in a state that does not permit it.
pub open spec fn misuse(op: Op, state: State) -> ErrorView {
    ErrorView { code: ErrorCode::InvalidApiCall, msg: state_error_msg(op.name(), state.advice()) }
}

/// The first words of the error for a failed flush.
pub open spec fn flush_error_prefix() -> Seq<char> {
    "Could not flush buffered messages: "@
}

impl SenderView {
    /// A sender that has just been connected.
    pub open spec fn fresh() -> SenderView {
        SenderView { state: State::Connected, buffer: Seq::<char>::empty(), committed: 0 }
    }

    /// The same sender, out of use.
    pub open spec fn poisoned(self) -> SenderView {
        SenderView { state: State::Moribund, ..self }
    }

    /// The number of bytes that wait to be sent; none once the sender is
    /// out of use.
    pub open spec fn pending(self) -> nat {
        if self.state is Moribund {
            0
        } else {
            utf8_len(self.buffer)
        }
    }

    /// What holds of every sender, whatever calls were made on it: the
    /// committed part lies within the buffer; a connected sender holds
    /// nothing; where a flush is legal the whole buffer is committed.
    pub open spec fn wf(self) -> bool {
        &&& self.committed <= utf8_len(self.buffer)
        &&& self.state is Connected ==> self.buffer.len() == 0 && self.committed == 0
        &&& self.state is MayFlushOrTable ==> self.committed == utf8_len(self.buffer)
    }
}

impl Call {
    /// The operation that the call performs.
    pub open spec fn op(self) -> Op {
        match self {
            Call::Table { .. } => Op::Table,
            Call::Symbol { .. } => Op::Symbol,
            Call::ColumnBool { .. } => Op::Column,
            Call::ColumnI64 { .. } => Op::Column,
            Call::ColumnF64 { .. } => Op::Column,
            Call::ColumnStr { .. } => Op::Column,
            Call::At { .. } => Op::At,
            Call::AtNow => Op::At,
            Call::Flush { .. } => Op::Flush,
        }
    }

    /// The name that the call carries, if it carries one.
    pub open spec fn name(self) -> Option<Seq<char>> {
        match self {
            Call::Table { name } => Some(name),
            Call::Symbol { name, .. } => Some(name),
            Call::ColumnBool { name, .. } => Some(name),
            Call::ColumnI64 { name, .. } => Some(name),
            Call::ColumnF64 { name, .. } => Some(name),
            Call::ColumnStr { name, .. } => Some(name),
            Call::At { .. } => None,
            Call::AtNow => None,
            Call::Flush { .. } => None,
        }
    }

    /// The text that the call appends when it is made in `state`.
    pub open spec fn text(self, state: State) -> Seq<char> {
        match self {
            Call::Table { name } => field(name, false),
            Call::Symbol { name, value } => key_text(',', name) + field(value, false),
            Call::ColumnBool { name, value } => key_text(column_separator(state), name)
                + bool_token(value),
            Call::ColumnI64 { name, value } => key_text(column_separator(state), name)
                + i64_token(value),
            Call::ColumnF64 { name, bits, text } => key_text(column_separator(state), name)
                + f64_token(bits, text),
            Call::ColumnStr { name, value } => key_text(column_separator(state), name) + field(
                value,
                true,
            ),
            Call::At { epoch_nanos } => seq![' '] + decimal(epoch_nanos as int) + seq!['\n'],
            Call::AtNow => seq!['\n'],
            Call::Flush { .. } => Seq::<char>::empty(),
        }
    }

    /// The state that the call leads to when it succeeds.
    pub open spec fn target(self) -> State {
        match self {
            Call::Table { .. } => State::TableWritten,
            Call::Symbol { .. } => State::SymbolWritten,
            Call::ColumnBool { .. } => State::ColumnWritten,
            Call::ColumnI64 { .. } => State::ColumnWritten,
            Call::ColumnF64 { .. } => State::ColumnWritten,
            Call::ColumnStr { .. } => State::ColumnWritten,
            Call::At { .. } => State::MayFlushOrTable,
            Call::AtNow => State::MayFlushOrTable,
            Call::Flush { sent } => if sent is Ok {
                State::Connected
            } else {
                State::Moribund
            },
        }
    }
}

/// What `call` does to the sender `m`.
///
/// A sender that is out of use refuses every call, as an invalid call,
/// and stays as it is. On any other sender a name is validated first: an
/// illegal name is refused and changes nothing. Then the state is asked:
/// a call that it does not permit is refused and puts the sender out of
/// use. A permitted call appends its text and moves to its target state;
/// `at` and `at_now` also commit the row. A permitted flush empties the
/// buffer if the transport took it, and puts the sender out of use,
/// buffer untouched, if it did not.
pub open spec fn step(m: SenderView, call: Call) -> Step {
    if m.state is Moribund {
        Step { next: m, result: Err(misuse(call.op(), m.state)) }
    } else if call.name() is Some && !valid_name(call.name()->0) {
        Step { next: m, result: Err(name_error(call.name()->0)) }
    } else if !m.state.permits(call.op()) {
        Step { next: m.poisoned(), result: Err(misuse(call.op(), m.state)) }
    } else {
        match call {
            Call::Flush { sent: Ok(_) } => Step { next: SenderView::fresh(), result: Ok(()) },
            Call::Flush { sent: Err(io_err) } => Step {
                next: m.poisoned(),
                result: Err(socket_error(flush_error_prefix(), io_err)),
            },
            _ => {
                let buffer = m.buffer + call.text(m.state);
                let committed = if call.op() is At {
                    utf8_len(buffer)
                } else {
                    m.committed
                };
                Step {
                    next: SenderView { state: call.target(), buffer, committed },
                    result: Ok(()),
                }
            },
        }
    }
}

} // verus!
