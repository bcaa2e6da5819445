//! Sequences of calls: what holds of a sender after any number of them.

use vstd::prelude::*;
use crate::encoding::{lemma_utf8_len_concat, utf8_len};
use crate::error::ErrorCode;
use crate::model::{column_separator, key_text, misuse, step, Call, SenderView};
use crate::name::valid_name;
use crate::state::{Op, State};
use crate::syntax::{
    at_rest, lemma_scan_float_token, lemma_number_tokens_inert, lemma_scan_concat,
    lemma_scan_field, lemma_scan_inert, lemma_scan_key, row_end, row_shape, scan, scan_char,
    scan_start, well_formed_line, Scan,
};

verus! {

/// The sender after the calls of `calls`, made in order on `m`.
pub open spec fn run(m: SenderView, calls: Seq<Call>) -> SenderView
    decreases calls.len(),
{
    if calls.len() == 0 {
        m
    } else {
        step(run(m, calls.drop_last()), calls.last()).next
    }
}

/// Whether each call of `calls`, made in order on `m`, succeeds.
pub open spec fn accepted(m: SenderView, calls: Seq<Call>) -> bool
    decreases calls.len(),
{
    if calls.len() == 0 {
        true
    } else {
        accepted(m, calls.drop_last()) && step(run(m, calls.drop_last()), calls.last()).result
            is Ok
    }
}

/// Whether `call`, made on `m`, fails as an invalid call.
pub open spec fn refused(m: SenderView, call: Call) -> bool {
    step(m, call).result is Err && step(m, call).result->Err_0.code == ErrorCode::InvalidApiCall
}

/// Whether each call of `calls`, made in order on `m`, fails as an
/// invalid call.
pub open spec fn all_refused(m: SenderView, calls: Seq<Call>) -> bool
    decreases calls.len(),
{
    if calls.len() == 0 {
        true
    } else {
        all_refused(m, calls.drop_last()) && refused(run(m, calls.drop_last()), calls.last())
    }
}

/// Whether the name that `call` carries, if any, is legal.
pub open spec fn name_is_valid(call: Call) -> bool {
    call.name() is Some ==> valid_name(call.name()->0)
}

/// Whether `call` adds a symbol or a column.
pub open spec fn is_field(call: Call) -> bool {
    call.op() is Symbol || call.op() is Column
}

/// Whether `calls` has the form of one row: a table, then symbols and
/// columns, then `at` or `at_now`.
pub open spec fn is_row(calls: Seq<Call>) -> bool {
    &&& calls.len() >= 2
    &&& calls[0].op() is Table
    &&& calls.last().op() is At
    &&& forall|i: int| 0 < i < calls.len() - 1 ==> is_field(#[trigger] calls[i])
}

/// Whether no symbol of `calls` comes after a column.
pub open spec fn symbols_first(calls: Seq<Call>) -> bool {
    forall|i: int, j: int|
        0 <= i < j < calls.len() && (#[trigger] calls[i]).op() is Column ==> !((
        #[trigger] calls[j]).op() is Symbol)
}

/// The number of symbols among `calls`.
pub open spec fn symbols_in(calls: Seq<Call>) -> nat
    decreases calls.len(),
{
    if calls.len() == 0 {
        0
    } else if calls.last().op() is Symbol {
        symbols_in(calls.drop_last()) + 1
    } else {
        symbols_in(calls.drop_last())
    }
}

/// The number of columns among `calls`.
pub open spec fn columns_in(calls: Seq<Call>) -> nat
    decreases calls.len(),
{
    if calls.len() == 0 {
        0
    } else if calls.last().op() is Column {
        columns_in(calls.drop_last()) + 1
    } else {
        columns_in(calls.drop_last())
    }
}

/// The timestamp that `call` ends a row with, if it gives one.
pub open spec fn timestamp_of(call: Call) -> Option<i64> {
    match call {
        Call::At { epoch_nanos } => Some(epoch_nanos),
        _ => None,
    }
}

/// The state after a table name, `symbols` symbols and `columns` columns.
pub open spec fn state_after(symbols: nat, columns: nat) -> State {
    if columns > 0 {
        State::ColumnWritten
    } else if symbols > 0 {
        State::SymbolWritten
    } else {
        State::TableWritten
    }
}

/// The text of the fields `fields`, written in this order after a table
/// name: each symbol behind a comma, the first column behind a space, each
/// later column behind a comma.
pub open spec fn fields_text(fields: Seq<Call>) -> Seq<char>
    decreases fields.len(),
{
    if fields.len() == 0 {
        Seq::<char>::empty()
    } else {
        let earlier = fields.drop_last();
        fields_text(earlier) + fields.last().text(
            state_after(symbols_in(earlier), columns_in(earlier)),
        )
    }
}

/// The text of the row that `calls` writes: the table name, the fields,
/// and the end of the row.
pub open spec fn row_text(calls: Seq<Call>) -> Seq<char> {
    calls[0].text(State::Connected) + fields_text(calls.subrange(1, calls.len() - 1)) + row_end(
        timestamp_of(calls.last()),
    )
}

/// A column is written behind a space if no column came before it in the
/// row, and behind a comma if one did.
pub proof fn lemma_separator_after(symbols: nat, columns: nat)
    ensures
        column_separator(state_after(symbols, columns)) == if columns == 0 {
            ' '
        } else {
            ','
        },
{
}

/// Every call keeps a well-formed sender well-formed.
pub proof fn lemma_step_preserves_wf(m: SenderView, call: Call)
    requires
        m.wf(),
    ensures
        step(m, call).next.wf(),
{
    lemma_utf8_len_concat(m.buffer, call.text(m.state));
}

/// Every sequence of calls on a new sender leaves it well-formed.
pub proof fn lemma_run_wf(calls: Seq<Call>)
    ensures
        run(SenderView::fresh(), calls).wf(),
    decreases calls.len(),
{
    if calls.len() > 0 {
        lemma_run_wf(calls.drop_last());
        lemma_step_preserves_wf(run(SenderView::fresh(), calls.drop_last()), calls.last());
    }
}

/// A call that the state does not permit fails as an invalid call and
/// puts the sender out of use, whatever the call and the state. On a
/// sender that is in use the name is looked at first, so it must be
/// legal.
pub proof fn lemma_misuse_poisons(m: SenderView, call: Call)
    requires
        m.state is Moribund || name_is_valid(call),
        !m.state.permits(call.op()),
    ensures
        step(m, call).result == Err::<(), _>(misuse(call.op(), m.state)),
        step(m, call).result->Err_0.code == ErrorCode::InvalidApiCall,
        step(m, call).next == m.poisoned(),
        step(m, call).next.state is Moribund,
{
}

/// On a sender that is out of use every call fails as an invalid call,
/// whatever its arguments, and changes nothing.
pub proof fn lemma_poisoned_refuses(m: SenderView, call: Call)
    requires
        m.state is Moribund,
    ensures
        step(m, call).result == Err::<(), _>(misuse(call.op(), m.state)),
        step(m, call).result->Err_0.code == ErrorCode::InvalidApiCall,
        step(m, call).next == m,
{
}

/// Once a call has been refused for its place in the sequence, every
/// later call fails as an invalid call too, and the sender stays out of
/// use with its buffer as it was.
pub proof fn lemma_misuse_is_final(m: SenderView, call: Call, later: Seq<Call>)
    requires
        m.state is Moribund || name_is_valid(call),
        !m.state.permits(call.op()),
    ensures
        all_refused(step(m, call).next, later),
        run(step(m, call).next, later) == m.poisoned(),
    decreases later.len(),
{
    if later.len() > 0 {
        lemma_misuse_is_final(m, call, later.drop_last());
        lemma_poisoned_refuses(m.poisoned(), later.last());
    }
}

/// After a flush the sender reports nothing pending: the buffer is empty
/// if the flush succeeded, and the sender is out of use if it failed,
/// whether the state or the transport refused.
pub proof fn lemma_flush_leaves_nothing_pending(m: SenderView, sent: Result<(), Seq<char>>)
    ensures
        ({
            let after = step(m, (Call::Flush { sent }));
            &&& after.next.pending() == 0
            &&& after.result is Ok ==> after.next.buffer.len() == 0 && after.next.committed == 0
            &&& after.result is Err ==> after.next.state is Moribund && after.next.buffer
                == m.buffer
            &&& after.result is Ok <==> m.state.permits(Op::Flush) && sent is Ok
        }),
{
}

/// A prefix of an accepted sequence is accepted, and the call after it
/// succeeds.
pub proof fn lemma_accepted_prefix(m: SenderView, calls: Seq<Call>, k: int)
    requires
        accepted(m, calls),
        0 <= k <= calls.len(),
    ensures
        accepted(m, calls.take(k)),
        k < calls.len() ==> step(run(m, calls.take(k)), calls[k]).result is Ok,
    decreases calls.len() - k,
{
    if k == calls.len() {
        assert(calls.take(k) == calls);
    } else {
        lemma_accepted_prefix(m, calls, k + 1);
        let longer = calls.take(k + 1);
        assert(longer.drop_last() == calls.take(k));
    }
}

/// The text of a field, read at rest, adds the separators of the field:
/// a comma and an `=` for a symbol; for a column its separator and an
/// `=`.
pub proof fn lemma_scan_field_call(st: Scan, call: Call, state: State)
    requires
        at_rest(st),
        is_field(call),
    ensures
        scan(st, call.text(state)) == scan_char(
            scan_char(
                st,
                if call.op() is Symbol {
                    ','
                } else {
                    column_separator(state)
                },
            ),
            '=',
        ),
{
    let sep = if call.op() is Symbol {
        ','
    } else {
        column_separator(state)
    };
    let name = call.name()->0;
    let after_key = scan_char(scan_char(st, sep), '=');
    lemma_scan_key(st, sep, name);
    match call {
        Call::Symbol { name, value } => {
            lemma_scan_concat(st, key_text(sep, name), crate::escape::field(value, false));
            lemma_scan_field(after_key, value, false);
        },
        Call::ColumnBool { name, value } => {
            lemma_number_tokens_inert(value, 0);
            lemma_scan_concat(st, key_text(sep, name), crate::model::bool_token(value));
            lemma_scan_inert(after_key, crate::model::bool_token(value));
        },
        Call::ColumnI64 { name, value } => {
            lemma_number_tokens_inert(true, value);
            lemma_scan_concat(st, key_text(sep, name), crate::model::i64_token(value));
            lemma_scan_inert(after_key, crate::model::i64_token(value));
        },
        Call::ColumnF64 { name, bits, text } => {
            lemma_scan_concat(st, key_text(sep, name), crate::model::f64_token(bits, text));
            lemma_scan_float_token(after_key, bits, text);
        },
        Call::ColumnStr { name, value } => {
            lemma_scan_concat(st, key_text(sep, name), crate::escape::field(value, true));
            lemma_scan_field(after_key, value, true);
        },
        _ => {},
    }
}

/// After the table and the first `k - 1` fields of an accepted row, the
/// sender has appended text that reads as a table name and those fields.
pub proof fn lemma_row_prefix(m: SenderView, calls: Seq<Call>, k: int)
    requires
        is_row(calls),
        accepted(m, calls),
        1 <= k <= calls.len() - 1,
    ensures
        ({
            let now = run(m, calls.take(k));
            let fields = calls.subrange(1, k);
            &&& now.buffer == m.buffer + calls[0].text(State::Connected) + fields_text(fields)
            &&& now.buffer.len() >= m.buffer.len()
            &&& now.buffer.take(m.buffer.len() as int) == m.buffer
            &&& scan(scan_start(), now.buffer.skip(m.buffer.len() as int)) == row_shape(
                symbols_in(fields),
                columns_in(fields),
            )
            &&& now.state == state_after(symbols_in(fields), columns_in(fields))
            &&& now.committed == m.committed
        }),
    decreases k,
{
    let n = m.buffer.len() as int;
    let prefix = calls.take(k);
    let call = calls[k - 1];
    assert(prefix.drop_last() == calls.take(k - 1));
    lemma_accepted_prefix(m, calls, k - 1);
    let before = run(m, calls.take(k - 1));
    let now = run(m, prefix);
    let text = call.text(before.state);
    if k == 1 {
        assert(now.buffer.skip(n) == text);
        assert(calls.subrange(1, 1) == Seq::<Call>::empty());
        assert(now.buffer == m.buffer + text + Seq::<char>::empty());
        lemma_scan_field(scan_start(), call.name()->0, false);
    } else {
        lemma_row_prefix(m, calls, k - 1);
        let earlier = calls.subrange(1, k - 1);
        let fields = calls.subrange(1, k);
        assert(fields.drop_last() == earlier);
        assert(now.buffer == m.buffer + calls[0].text(State::Connected) + (fields_text(earlier)
            + text));
        let shape = row_shape(symbols_in(earlier), columns_in(earlier));
        let written = before.buffer.skip(n);
        assert(now.buffer.skip(n) == written + text);
        lemma_scan_concat(scan_start(), written, text);
        lemma_scan_field_call(shape, call, before.state);
    }
}

/// A row whose names are legal, whose symbols come before its columns and
/// which has at least one field is accepted wherever a table may start.
pub proof fn lemma_row_accepted(m: SenderView, calls: Seq<Call>)
    requires
        m.state.permits(Op::Table),
        is_row(calls),
        calls.len() >= 3,
        symbols_first(calls),
        forall|i: int| 0 <= i < calls.len() ==> name_is_valid(#[trigger] calls[i]),
    ensures
        accepted(m, calls),
{
    lemma_row_accepted_prefix(m, calls, calls.len() as int);
    assert(calls.take(calls.len() as int) == calls);
}

/// The first `k` calls of such a row are accepted; after the table the
/// state tells whether a column has been written.
pub proof fn lemma_row_accepted_prefix(m: SenderView, calls: Seq<Call>, k: int)
    requires
        m.state.permits(Op::Table),
        is_row(calls),
        calls.len() >= 3,
        symbols_first(calls),
        forall|i: int| 0 <= i < calls.len() ==> name_is_valid(#[trigger] calls[i]),
        0 <= k <= calls.len(),
    ensures
        accepted(m, calls.take(k)),
        k == 1 ==> run(m, calls.take(k)).state is TableWritten,
        1 < k < calls.len() ==> run(m, calls.take(k)).state is SymbolWritten || run(
            m,
            calls.take(k),
        ).state is ColumnWritten,
        1 < k < calls.len() && run(m, calls.take(k)).state is ColumnWritten ==> exists|i: int|
            0 < i < k && (#[trigger] calls[i]).op() is Column,
    decreases k,
{
    if k > 0 {
        let call = calls[k - 1];
        let before = run(m, calls.take(k - 1));
        assert(calls.take(k).drop_last() == calls.take(k - 1));
        lemma_row_accepted_prefix(m, calls, k - 1);
        if 1 < k < calls.len() && before.state is ColumnWritten {
            // A column came before, so this call is no symbol.
            let i = choose|i: int| 0 < i < k - 1 && (#[trigger] calls[i]).op() is Column;
            assert(!(call.op() is Symbol));
        }
    }
}

/// Every accepted row is well-formed on the wire. Whatever the sender
/// held before, the calls of one row that all succeed leave the buffer
/// longer by one line, the text of the row: the escaped table name, each
/// field behind its separator, and the end of the row. That line reads
/// as a table name and the row's
/// symbols and columns, with exactly their separators, and ends with the
/// timestamp, if one was given, and a line feed; and the line is
/// committed.
pub proof fn lemma_row_well_formed(m: SenderView, calls: Seq<Call>)
    requires
        is_row(calls),
        accepted(m, calls),
    ensures
        ({
            let end = run(m, calls);
            let fields = calls.subrange(1, calls.len() - 1);
            &&& end.buffer == m.buffer + row_text(calls)
            &&& end.state is MayFlushOrTable
            &&& end.buffer.len() >= m.buffer.len()
            &&& end.buffer.take(m.buffer.len() as int) == m.buffer
            &&& well_formed_line(
                end.buffer.skip(m.buffer.len() as int),
                symbols_in(fields),
                columns_in(fields),
                timestamp_of(calls.last()),
            )
            &&& end.committed == utf8_len(end.buffer)
        }),
{
    let n = m.buffer.len() as int;
    let k = calls.len() - 1;
    lemma_accepted_prefix(m, calls, k);
    lemma_row_prefix(m, calls, k);
    let tail = row_end(timestamp_of(calls.last()));
    let body = run(m, calls.take(k)).buffer.skip(n);
    let line = run(m, calls).buffer.skip(n);
    assert(run(m, calls).buffer == m.buffer + (calls[0].text(State::Connected) + fields_text(
        calls.subrange(1, k),
    ) + tail));
    assert(line.skip(line.len() - tail.len()) == tail);
    assert(line.take(line.len() - tail.len()) == body);
}

} // verus!
