//! What the buffer holds after any sequence of calls: complete rows up to
//! the committed boundary, then the row under construction.

use vstd::prelude::*;
use crate::encoding::utf8_len;
use crate::model::{step, Call, SenderView};
use crate::sequence::{lemma_scan_field_call, run, timestamp_of};
use crate::state::State;
use crate::syntax::{
    lemma_scan_concat, lemma_scan_field, row_shape, scan, scan_start, well_formed_line,
};

verus! {

/// A complete row on the wire, with what it holds.
pub struct Line {
    pub text: Seq<char>,
    pub symbols: nat,
    pub columns: nat,
    pub timestamp: Option<i64>,
}

/// A reading of a buffer: the complete rows at its start, and the number
/// of symbols and columns of the row that follows them.
pub struct Reading {
    pub lines: Seq<Line>,
    pub symbols: nat,
    pub columns: nat,
}

/// The texts of `lines`, one after the other.
pub open spec fn joined(lines: Seq<Line>) -> Seq<char>
    decreases lines.len(),
{
    if lines.len() == 0 {
        Seq::<char>::empty()
    } else {
        joined(lines.drop_last()) + lines.last().text
    }
}

/// Whether each of `lines` is a well-formed row.
pub open spec fn all_well_formed(lines: Seq<Line>) -> bool {
    forall|i: int|
        0 <= i < lines.len() ==> well_formed_line(
            (#[trigger] lines[i]).text,
            lines[i].symbols,
            lines[i].columns,
            lines[i].timestamp,
        )
}

/// Whether `reading` tells what the sender `m` holds. The buffer starts
/// with the rows of the reading, all well-formed, and they end at the
/// committed boundary. What follows is nothing where no row is under
/// construction; else it reads as a table name and the symbols and
/// columns that the reading counts. Of a sender that is out of use only
/// the committed rows are told.
pub open spec fn describes(reading: Reading, m: SenderView) -> bool {
    let done = joined(reading.lines);
    let rest = m.buffer.skip(done.len() as int);
    &&& all_well_formed(reading.lines)
    &&& done.len() <= m.buffer.len()
    &&& m.buffer.take(done.len() as int) == done
    &&& m.committed == utf8_len(done)
    &&& match m.state {
        State::Connected => m.buffer.len() == 0,
        State::MayFlushOrTable => rest.len() == 0,
        State::TableWritten => reading.symbols == 0 && reading.columns == 0 && scan(
            scan_start(),
            rest,
        ) == row_shape(0, 0),
        State::SymbolWritten => reading.symbols > 0 && reading.columns == 0 && scan(
            scan_start(),
            rest,
        ) == row_shape(reading.symbols, 0),
        State::ColumnWritten => reading.columns > 0 && scan(scan_start(), rest) == row_shape(
            reading.symbols,
            reading.columns,
        ),
        State::Moribund => true,
    }
}

/// The reading of a new sender: no rows, no fields.
pub open spec fn blank() -> Reading {
    Reading { lines: Seq::<Line>::empty(), symbols: 0, columns: 0 }
}

/// The blank reading tells what a new sender holds.
pub proof fn lemma_blank_describes_fresh()
    ensures
        describes(blank(), SenderView::fresh()),
{
    assert(SenderView::fresh().buffer.take(0) == joined(blank().lines));
}

/// Each call keeps the buffer readable: from a reading of the sender
/// before the call, this gives one of the sender after it.
pub proof fn lemma_step_describes(reading: Reading, m: SenderView, call: Call) -> (after: Reading)
    requires
        describes(reading, m),
    ensures
        describes(after, step(m, call).next),
{
    let next = step(m, call).next;
    let done = joined(reading.lines);
    let n = done.len() as int;
    let rest = m.buffer.skip(n);
    if step(m, call).result is Err {
        return reading;
    }
    let text = call.text(m.state);
    match call {
        Call::Flush { .. } => {
            lemma_blank_describes_fresh();
            blank()
        },
        Call::Table { name } => {
            assert(next.buffer.take(n) == done);
            assert(next.buffer.skip(n) == text);
            lemma_scan_field(scan_start(), name, false);
            Reading { symbols: 0, columns: 0, ..reading }
        },
        Call::At { .. } | Call::AtNow => {
            let timestamp = timestamp_of(call);
            let line = rest + text;
            assert(line.skip(line.len() - text.len()) == text);
            assert(line.take(line.len() - text.len()) == rest);
            let added = Line {
                text: line,
                symbols: reading.symbols,
                columns: reading.columns,
                timestamp,
            };
            let lines = reading.lines.push(added);
            assert(lines.drop_last() == reading.lines);
            assert(next.buffer == done + line);
            assert(next.buffer.take(next.buffer.len() as int) == next.buffer);
            assert(all_well_formed(lines));
            Reading { lines, symbols: 0, columns: 0 }
        },
        _ => {
            let shape = row_shape(reading.symbols, reading.columns);
            assert(next.buffer.take(n) == m.buffer.take(n));
            assert(next.buffer.skip(n) == rest + text);
            lemma_scan_concat(scan_start(), rest, text);
            lemma_scan_field_call(shape, call, m.state);
            if call.op() is Symbol {
                Reading { symbols: reading.symbols + 1, ..reading }
            } else {
                Reading { columns: reading.columns + 1, ..reading }
            }
        },
    }
}

/// Whatever calls are made on a new sender, in whatever order and with
/// whatever arguments, its buffer stays readable: complete, well-formed
/// rows up to the committed boundary, and after them only the row under
/// construction.
pub proof fn lemma_run_describes(calls: Seq<Call>) -> (reading: Reading)
    ensures
        describes(reading, run(SenderView::fresh(), calls)),
    decreases calls.len(),
{
    if calls.len() == 0 {
        lemma_blank_describes_fresh();
        blank()
    } else {
        let earlier = calls.drop_last();
        let before = lemma_run_describes(earlier);
        lemma_step_describes(before, run(SenderView::fresh(), earlier), calls.last())
    }
}

/// What a flush hands to the transport is complete, well-formed rows and
/// nothing else: where a flush is legal after calls on a new sender, the
/// buffer is the rows of its reading, end to end.
pub proof fn lemma_flush_sends_whole_rows(calls: Seq<Call>) -> (lines: Seq<Line>)
    requires
        run(SenderView::fresh(), calls).state is MayFlushOrTable,
    ensures
        run(SenderView::fresh(), calls).buffer == joined(lines),
        all_well_formed(lines),
{
    let reading = lemma_run_describes(calls);
    reading.lines
}

} // verus!
