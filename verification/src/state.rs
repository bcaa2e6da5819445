//! The protocol state machine: which operation may follow which.

use vstd::prelude::*;

verus! {

/// An operation that writes to, or sends, the buffer.
#[derive(Debug, Clone, Copy, PartialEq, Eq, Structural)]
pub enum Op {
    Table,
    Symbol,
    Column,
    At,
    Flush,
}

/// Where a sender stands within the row it is building.
#[derive(Debug, Clone, Copy, PartialEq, Eq, Structural)]
pub enum State {
    /// Nothing is buffered.
    Connected,
    /// A table name starts the current row.
    TableWritten,
    /// The current row ends in a symbol.
    SymbolWritten,
    /// The current row ends in a column.
    ColumnWritten,
    /// Every buffered row is complete.
    MayFlushOrTable,
    /// A call was made out of order or the transport failed.
    Moribund,
}

impl Op {
    /// The name of the operation as a caller writes it.
    pub open spec fn name(self) -> Seq<char> {
        match self {
            Op::Table => "table"@,
            Op::Symbol => "symbol"@,
            Op::Column => "column"@,
            Op::At => "at"@,
            Op::Flush => "flush"@,
        }
    }

    /// The name of the operation, for error messages.
    pub fn descr(self) -> (r: &'static str)
        ensures
            r@ == self.name(),
    {
        match self {
            Op::Table => "table",
            Op::Symbol => "symbol",
            Op::Column => "column",
            Op::At => "at",
            Op::Flush => "flush",
        }
    }
}

impl State {
    /// Whether `op` is legal in this state.
    pub open spec fn permits(self, op: Op) -> bool {
        match self {
            State::Connected => op is Table,
            State::TableWritten => op is Symbol || op is Column,
            State::SymbolWritten => op is Symbol || op is Column || op is At,
            State::ColumnWritten => op is Column || op is At,
            State::MayFlushOrTable => op is Flush || op is Table,
            State::Moribund => false,
        }
    }

    /// What a caller should have done in this state.
    pub open spec fn advice(self) -> Seq<char> {
        match self {
            State::Connected => "should have called `table` instead"@,
            State::TableWritten => "should have called `symbol` or `column` instead"@,
            State::SymbolWritten => "should have called `symbol`, `column` or `at` instead"@,
            State::ColumnWritten => "should have called `column` or `at` instead"@,
            State::MayFlushOrTable => "should have called `flush` or `table` instead"@,
            State::Moribund => "unrecoverable state due to previous error"@,
        }
    }

    /// Decides whether `op` is legal in this state.
    pub fn allows(self, op: Op) -> (r: bool)
        ensures
            r == self.permits(op),
    {
        match self {
            State::Connected => matches!(op, Op::Table),
            State::TableWritten => matches!(op, Op::Symbol | Op::Column),
            State::SymbolWritten => matches!(op, Op::Symbol | Op::Column | Op::At),
            State::ColumnWritten => matches!(op, Op::Column | Op::At),
            State::MayFlushOrTable => matches!(op, Op::Flush | Op::Table),
            State::Moribund => false,
        }
    }

    /// Describes the operations that are legal in this state.
    pub fn next_op_descr(self) -> (r: &'static str)
        ensures
            r@ == self.advice(),
    {
        match self {
            State::Connected => "should have called `table` instead",
            State::TableWritten => "should have called `symbol` or `column` instead",
            State::SymbolWritten => "should have called `symbol`, `column` or `at` instead",
            State::ColumnWritten => "should have called `column` or `at` instead",
            State::MayFlushOrTable => "should have called `flush` or `table` instead",
            State::Moribund => "unrecoverable state due to previous error",
        }
    }
}

} // verus!
