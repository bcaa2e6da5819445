//! The line sender: the buffer, the state, and the calls that build rows.

use vstd::prelude::*;
use vstd::string::StringExecFns;
use crate::decimal::write_i64;
use crate::error::{map_io_to_socket_err, outcome, state_error, Error};
use crate::escape::{write_escaped_quoted, write_escaped_unquoted};
use crate::model::{
    column_separator, key_text, misuse, step, Call, SenderView, NEGATIVE_INFINITY_BITS,
    POSITIVE_INFINITY_BITS,
};
use crate::name::{name_error, valid_name, Name};
use crate::state::{Op, State};
use vstd::utf8::encode_utf8;

verus! {

/// The view of what a transport answers.
pub open spec fn sent_view(sent: Result<(), String>) -> Result<(), Seq<char>> {
    match sent {
        Ok(_) => Ok(()),
        Err(io_err) => Err(io_err@),
    }
}

/// Builds rows in a buffer, one call at a time, and hands complete rows
/// to a transport.
pub struct LineSender {
    state: State,
    output: String,
    last_line_start: usize,
}

impl View for LineSender {
    type V = SenderView;

    closed spec fn view(&self) -> SenderView {
        SenderView {
            state: self.state,
            buffer: self.output@,
            committed: self.last_line_start as nat,
        }
    }
}

impl LineSender {
    /// A sender for a transport that has just been connected: nothing is
    /// buffered and a table name is expected.
    pub fn new() -> (s: LineSender)
        ensures
            s@ == SenderView::fresh(),
    {
        LineSender {
            state: State::Connected,
            output: String::with_capacity(65536),
            last_line_start: 0,
        }
    }

    /// Refuses `op` on a sender that is out of use, before anything else
    /// is looked at.
    fn check_usable(&self, op: Op) -> (r: Result<(), Error>)
        ensures
            !(self@.state is Moribund) ==> r is Ok,
            self@.state is Moribund ==> outcome(r) == Err::<(), _>(misuse(op, self@.state)),
    {
        if self.must_close() {
            return Err(state_error(op.descr(), self.state.next_op_descr()));
        }
        Ok(())
    }

    /// Refuses `op` unless the state permits it. A refusal puts the sender
    /// out of use.
    fn check_state(&mut self, op: Op) -> (r: Result<(), Error>)
        ensures
            old(self)@.state.permits(op) ==> r is Ok && final(self)@ == old(self)@,
            !old(self)@.state.permits(op) ==> outcome(r) == Err::<(), _>(
                misuse(op, old(self)@.state),
            ) && final(self)@ == old(self)@.poisoned(),
    {
        if self.state.allows(op) {
            return Ok(());
        }
        let error = state_error(op.descr(), self.state.next_op_descr());
        self.state = State::Moribund;
        Err(error)
    }

    /// Starts a row with the name of its table.
    pub fn table(&mut self, name: &str) -> (r: Result<(), Error>)
        ensures
            final(self)@ == step(old(self)@, (Call::Table { name: name@ })).next,
            outcome(r) == step(old(self)@, (Call::Table { name: name@ })).result,
    {
        self.check_usable(Op::Table)?;
        let name = Name::new(name)?;
        self.check_state(Op::Table)?;
        write_escaped_unquoted(&mut self.output, name.as_str());
        self.state = State::TableWritten;
        Ok(())
    }

    /// Adds a symbol to the row.
    pub fn symbol(&mut self, name: &str, value: &str) -> (r: Result<(), Error>)
        ensures
            final(self)@ == step(old(self)@, (Call::Symbol { name: name@, value: value@ })).next,
            outcome(r) == step(old(self)@, (Call::Symbol { name: name@, value: value@ })).result,
    {
        self.check_usable(Op::Symbol)?;
        let name = Name::new(name)?;
        self.check_state(Op::Symbol)?;
        self.output.push(',');
        write_escaped_unquoted(&mut self.output, name.as_str());
        self.output.push('=');
        write_escaped_unquoted(&mut self.output, value);
        self.state = State::SymbolWritten;
        assert(self.output@ =~= old(self).output@ + (Call::Symbol {
            name: name@,
            value: value@,
        }).text(old(self).state));
        Ok(())
    }

    /// Checks that the sender is in use, validates the key of a column,
    /// checks that a column is legal, and writes the separator, the key
    /// and the `=`.
    fn write_column_key(&mut self, name: &str) -> (r: Result<(), Error>)
        ensures
            old(self)@.state is Moribund ==> outcome(r) == Err::<(), _>(
                misuse(Op::Column, old(self)@.state),
            ) && final(self)@ == old(self)@,
            !(old(self)@.state is Moribund) && !valid_name(name@) ==> outcome(r) == Err::<(), _>(
                name_error(name@),
            ) && final(self)@ == old(self)@,
            valid_name(name@) && !old(self)@.state.permits(Op::Column) ==> outcome(r) == Err::<
                (),
                _,
            >(misuse(Op::Column, old(self)@.state)) && final(self)@ == old(self)@.poisoned(),
            valid_name(name@) && old(self)@.state.permits(Op::Column) ==> r is Ok && final(self)@
                == (SenderView {
                state: State::ColumnWritten,
                buffer: old(self)@.buffer + key_text(column_separator(old(self)@.state), name@),
                committed: old(self)@.committed,
            }),
    {
        self.check_usable(Op::Column)?;
        let name = Name::new(name)?;
        self.check_state(Op::Column)?;
        let separator = if self.state.allows(Op::Symbol) {
            ' '
        } else {
            ','
        };
        self.output.push(separator);
        write_escaped_unquoted(&mut self.output, name.as_str());
        self.output.push('=');
        self.state = State::ColumnWritten;
        assert(self.output@ =~= old(self).output@ + key_text(
            column_separator(old(self).state),
            name@,
        ));
        Ok(())
    }

    /// Adds a boolean column to the row.
    pub fn column_bool(&mut self, name: &str, value: bool) -> (r: Result<(), Error>)
        ensures
            final(self)@ == step(old(self)@, (Call::ColumnBool { name: name@, value })).next,
            outcome(r) == step(old(self)@, (Call::ColumnBool { name: name@, value })).result,
    {
        self.write_column_key(name)?;
        self.output.push(
            if value {
                't'
            } else {
                'f'
            },
        );
        assert(self.output@ =~= old(self).output@ + (Call::ColumnBool {
            name: name@,
            value,
        }).text(old(self).state));
        Ok(())
    }

    /// Adds an integer column to the row.
    pub fn column_i64(&mut self, name: &str, value: i64) -> (r: Result<(), Error>)
        ensures
            final(self)@ == step(old(self)@, (Call::ColumnI64 { name: name@, value })).next,
            outcome(r) == step(old(self)@, (Call::ColumnI64 { name: name@, value })).result,
    {
        self.write_column_key(name)?;
        write_i64(&mut self.output, value);
        self.output.push('i');
        assert(self.output@ =~= old(self).output@ + (Call::ColumnI64 { name: name@, value }).text(
            old(self).state,
        ));
        Ok(())
    }

    /// Adds a float column to the row. The float comes as its bit pattern
    /// `bits` and its shortest decimal text `text` that reads back as the
    /// same float. An infinity is written by its name; the text of any
    /// other float is written as an unquoted field, which leaves the
    /// decimal text of a float as it is.
    pub fn column_f64(&mut self, name: &str, bits: u64, text: &str) -> (r: Result<(), Error>)
        ensures
            final(self)@ == step(
                old(self)@,
                (Call::ColumnF64 { name: name@, bits, text: text@ }),
            ).next,
            outcome(r) == step(
                old(self)@,
                (Call::ColumnF64 { name: name@, bits, text: text@ }),
            ).result,
    {
        self.write_column_key(name)?;
        if bits == POSITIVE_INFINITY_BITS {
            self.output.append("Infinity");
        } else if bits == NEGATIVE_INFINITY_BITS {
            self.output.append("-Infinity");
        } else {
            write_escaped_unquoted(&mut self.output, text);
        }
        assert(self.output@ =~= old(self).output@ + (Call::ColumnF64 {
            name: name@,
            bits,
            text: text@,
        }).text(old(self).state));
        Ok(())
    }

    /// Adds a text column to the row.
    pub fn column_str(&mut self, name: &str, value: &str) -> (r: Result<(), Error>)
        ensures
            final(self)@ == step(
                old(self)@,
                (Call::ColumnStr { name: name@, value: value@ }),
            ).next,
            outcome(r) == step(
                old(self)@,
                (Call::ColumnStr { name: name@, value: value@ }),
            ).result,
    {
        self.write_column_key(name)?;
        write_escaped_quoted(&mut self.output, value);
        assert(self.output@ =~= old(self).output@ + (Call::ColumnStr {
            name: name@,
            value: value@,
        }).text(old(self).state));
        Ok(())
    }

    /// Moves the boundary of the committed rows to the end of the buffer.
    fn update_last_line_start(&mut self)
        ensures
            final(self)@ == (SenderView { committed: old(self)@.pending(), ..old(self)@ }),
    {
        self.last_line_start = self.pending_size();
    }

    /// Ends the row with the timestamp `epoch_nanos`, in nanoseconds since
    /// the epoch, and commits it.
    pub fn at(&mut self, epoch_nanos: i64) -> (r: Result<(), Error>)
        ensures
            final(self)@ == step(old(self)@, (Call::At { epoch_nanos })).next,
            outcome(r) == step(old(self)@, (Call::At { epoch_nanos })).result,
    {
        self.check_state(Op::At)?;
        self.output.push(' ');
        write_i64(&mut self.output, epoch_nanos);
        self.output.push('\n');
        assert(self.output@ =~= old(self).output@ + (Call::At { epoch_nanos }).text(
            old(self).state,
        ));
        self.update_last_line_start();
        self.state = State::MayFlushOrTable;
        Ok(())
    }

    /// Ends the row without a timestamp, which the receiver then assigns,
    /// and commits it.
    pub fn at_now(&mut self) -> (r: Result<(), Error>)
        ensures
            final(self)@ == step(old(self)@, Call::AtNow).next,
            outcome(r) == step(old(self)@, Call::AtNow).result,
    {
        self.check_state(Op::At)?;
        self.output.push('\n');
        assert(self.output@ =~= old(self).output@ + Call::AtNow.text(old(self).state));
        self.update_last_line_start();
        self.state = State::MayFlushOrTable;
        Ok(())
    }

    /// Opens a flush: tells whether the buffer may be sent now. Where
    /// it may, nothing changes, and the caller hands [`LineSender::buffered`]
    /// to the transport and its answer to [`LineSender::flushed`]. Where it
    /// may not, the sender is out of use and nothing is to be sent.
    pub fn begin_flush(&mut self) -> (r: Result<(), Error>)
        ensures
            old(self)@.state.permits(Op::Flush) ==> r is Ok && final(self)@ == old(self)@,
            !old(self)@.state.permits(Op::Flush) ==> outcome(r) == Err::<(), _>(
                misuse(Op::Flush, old(self)@.state),
            ) && final(self)@ == old(self)@.poisoned(),
    {
        self.check_state(Op::Flush)
    }

    /// The buffered text.
    pub fn buffered(&self) -> (s: &str)
        ensures
            s@ == self@.buffer,
    {
        self.output.as_str()
    }

    /// Records what the transport answered when it was handed the buffer.
    /// If it took the bytes the buffer is emptied and a new row may start;
    /// if it failed the sender is out of use, its buffer untouched, and the
    /// error carries what the transport reported.
    pub fn flushed(&mut self, sent: Result<(), String>) -> (r: Result<(), Error>)
        ensures
            final(self)@ == step(old(self)@, (Call::Flush { sent: sent_view(sent) })).next,
            outcome(r) == step(old(self)@, (Call::Flush { sent: sent_view(sent) })).result,
    {
        self.check_state(Op::Flush)?;
        match sent {
            Ok(_) => {
                self.output.clear();
                self.last_line_start = 0;
                self.state = State::Connected;
                Ok(())
            },
            Err(io_err) => {
                self.state = State::Moribund;
                Err(map_io_to_socket_err("Could not flush buffered messages: ", io_err.as_str()))
            },
        }
    }

    /// Sends the buffered rows: opens a flush, hands the bytes of the
    /// buffer to `write_all`, and records its answer.
    ///
    /// `write_all` need only accept the bytes of the buffer, and only where
    /// a flush is legal. So it is called with nothing else, and where the
    /// flush is refused it is not called: no byte of a row under
    /// construction reaches the transport.
    pub fn flush<W>(&mut self, write_all: W) -> (r: Result<(), Error>) where
        W: FnOnce(&[u8]) -> Result<(), String>,

        requires
            old(self)@.state.permits(Op::Flush) ==> forall|bytes: &[u8]|
                bytes@ == encode_utf8(old(self)@.buffer) ==> #[trigger] write_all.requires(
                    (bytes,),
                ),
        ensures
            !old(self)@.state.permits(Op::Flush) ==> final(self)@ == old(self)@.poisoned()
                && outcome(r) == Err::<(), _>(misuse(Op::Flush, old(self)@.state)),
            old(self)@.state.permits(Op::Flush) ==> exists|bytes: &[u8], sent: Result<(), String>|
                {
                    &&& bytes@ == encode_utf8(old(self)@.buffer)
                    &&& #[trigger] write_all.ensures((bytes,), sent)
                    &&& final(self)@ == step(
                        old(self)@,
                        (Call::Flush { sent: sent_view(sent) }),
                    ).next
                    &&& outcome(r) == step(
                        old(self)@,
                        (Call::Flush { sent: sent_view(sent) }),
                    ).result
                },
    {
        self.begin_flush()?;
        let sent = write_all(self.buffered().as_bytes());
        self.flushed(sent)
    }

    /// Pending size in bytes: what a flush would send now. It is zero once
    /// the sender is out of use.
    pub fn pending_size(&self) -> (n: usize)
        ensures
            n == self@.pending(),
    {
        broadcast use vstd::slice::group_slice_axioms;

        if self.state != State::Moribund {
            self.output.as_str().as_bytes().len()
        } else {
            0
        }
    }

    /// Tells whether the sender is out of use and must be discarded.
    pub fn must_close(&self) -> (b: bool)
        ensures
            b == (self@.state is Moribund),
    {
        self.state == State::Moribund
    }
}

} // verus!
