//! What holds of every session, proved of the transition function.

use vstd::prelude::*;
use crate::address::{raw_index, resolve, token_index};
use crate::buffer::{
    ends_in_cr, joined, law_round_trip, lemma_split_single_lines, single_line, single_lines,
};
use crate::error::EditorError;
use crate::model::{starts_address, Effect, Mode, Placement, State};
use crate::substitution::{fields, lemma_fields_single_line, lemma_spliced_single_line};
use crate::text::{first_index, is_digit, lemma_first_index, lemma_first_index_is_first};

verus! {

/// A step leads from a well-formed state to a well-formed state.
pub proof fn law_step_keeps_invariant(s: State, line: Seq<char>)
    requires
        s.wf(),
    ensures
        s.next(line).0.wf(),
{
}

/// The print command is a query: it leaves the state as it is, and on a
/// cursor that stands on a line it prints that line.
pub proof fn law_print_changes_nothing(s: State)
    requires
        s.mode == Mode::Idle,
    ensures
        s.next(seq!['p']).0 == s,
        s.addressable() ==> s.next(seq!['p']).1 == Ok::<Effect, EditorError>(
            Effect::Print(seq![s.buffer[s.current]]),
        ),
        !s.addressable() ==> s.next(seq!['p']).1 == Err::<Effect, EditorError>(
            EditorError::InvalidAddress,
        ),
{
}

/// A line that resolves to a range is read as an address.
pub proof fn lemma_resolved_starts_address(line: Seq<char>, current: int, len: int)
    requires
        resolve(line, current, len) is Some,
    ensures
        line.len() > 0,
        starts_address(line[0]),
{
    let k = first_index(line, ',');
    lemma_first_index_is_first(line, ',');
    let token = if k < line.len() {
        line.take(k)
    } else {
        line
    };
    assert(raw_index(token, current, len) is Some);
    assert(seq!['.'][0] == '.' && seq!['$'][0] == '$');
    assert(token.len() > 0);
    assert(token[0] == line[0]);
}

/// An address that resolves to the range from `start` to `end` prints the
/// `end - start + 1` lines of that range, in the order of the buffer, and
/// leaves the cursor on `start`; nothing else changes.
pub proof fn law_range_print(s: State, line: Seq<char>, start: int, end: int)
    requires
        s.mode == Mode::Idle,
        resolve(line, s.current, s.buffer.len() as int) == Some((start, end)),
    ensures
        0 <= start <= end < s.buffer.len(),
        s.next(line).0 == (State { current: start, ..s }),
        s.next(line).1 == Ok::<Effect, EditorError>(
            Effect::Print(s.buffer.subrange(start, end + 1)),
        ),
        s.buffer.subrange(start, end + 1).len() == end - start + 1,
        forall|i: int|
            0 <= i <= end - start ==> #[trigger] s.buffer.subrange(start, end + 1)[i]
                == s.buffer[start + i],
{
    lemma_resolved_starts_address(line, s.current, s.buffer.len() as int);
}

/// A text that is one address token holds no comma.
pub proof fn lemma_token_has_no_comma(token: Seq<char>, current: int, len: int)
    requires
        raw_index(token, current, len) is Some,
    ensures
        first_index(token, ',') == token.len(),
        token.len() > 0,
        starts_address(token[0]),
{
    assert(seq!['.'][0] == '.' && seq!['$'][0] == '$');
    assert forall|j: int| 0 <= j < token.len() implies token[j] != ',' by {
        if token != seq!['.'] && token != seq!['$'] {
            assert(is_digit(token[j]));
        }
    }
    lemma_first_index(token, ',', token.len() as int);
}

/// A token that denotes an index outside the buffer is an invalid address,
/// and given as a command it leaves the state, buffer and cursor with it, as
/// it is.
pub proof fn law_token_outside_buffer(s: State, token: Seq<char>, i: int)
    requires
        s.mode == Mode::Idle,
        raw_index(token, s.current, s.buffer.len() as int) == Some(i),
        !(0 <= i < s.buffer.len()),
    ensures
        token_index(token, s.current, s.buffer.len() as int) is None,
        s.next(token) == s.rejected(EditorError::InvalidAddress),
{
    lemma_token_has_no_comma(token, s.current, s.buffer.len() as int);
}

/// A range of which one end denotes an index outside the buffer is an invalid
/// address, and given as a command it leaves the state as it is.
pub proof fn law_range_outside_buffer(s: State, line: Seq<char>, i: int)
    requires
        s.mode == Mode::Idle,
        line.len() > 0,
        starts_address(line[0]),
        first_index(line, ',') < line.len(),
        !(0 <= i < s.buffer.len()),
        raw_index(line.take(first_index(line, ',')), s.current, s.buffer.len() as int) == Some(i)
            || raw_index(line.skip(first_index(line, ',') + 1), s.current, s.buffer.len() as int)
            == Some(i),
    ensures
        resolve(line, s.current, s.buffer.len() as int) is None,
        s.next(line) == s.rejected(EditorError::InvalidAddress),
{
}

/// Taking one input after another is taking the first part, then the rest.
pub proof fn lemma_run_all_concat(s: State, x: Seq<Seq<char>>, y: Seq<Seq<char>>)
    ensures
        s.run_all(x + y) == s.run_all(x).run_all(y),
    decreases y.len(),
{
    if y.len() == 0 {
        assert(x + y =~= x);
    } else {
        assert((x + y).drop_last() =~= x + y.drop_last());
        assert((x + y).last() == y.last());
        lemma_run_all_concat(s, x, y.drop_last());
    }
}

/// The buffer after `lines` went in behind the line at `current`; into an
/// empty buffer they go as they are.
pub open spec fn appended(buffer: Seq<Seq<char>>, current: int, lines: Seq<Seq<char>>) -> Seq<
    Seq<char>,
> {
    if buffer.len() == 0 {
        lines
    } else {
        buffer.take(current + 1) + lines + buffer.skip(current + 1)
    }
}

/// While the editor takes text to append, each line that is no lone `.` goes
/// in behind the one before it.
pub proof fn lemma_capture_after(s: State, lines: Seq<Seq<char>>)
    requires
        s.wf(),
        s.mode == Mode::Capturing(Placement::After),
        forall|i: int| 0 <= i < lines.len() ==> lines[i] != seq!['.'],
    ensures
        s.run_all(lines) == (State {
            buffer: appended(s.buffer, s.current, lines),
            current: if s.buffer.len() == 0 {
                if lines.len() == 0 {
                    s.current
                } else {
                    lines.len() - 1
                }
            } else {
                s.current + lines.len()
            },
            ..s
        }),
    decreases lines.len(),
{
    if lines.len() == 0 {
        if s.buffer.len() > 0 {
            assert(s.buffer.take(s.current + 1) + lines + s.buffer.skip(s.current + 1)
                =~= s.buffer);
        }
        assert(appended(s.buffer, s.current, lines) =~= s.buffer);
    } else {
        let init = lines.drop_last();
        let last = lines.last();
        lemma_capture_after(s, init);
        let before = s.run_all(init);
        assert(seq!['.'].len() == 1 && seq!['.'][0] == '.');
        if last.len() == 1 && last[0] == '.' {
            assert(last =~= seq!['.']);
        }
        assert(before.next(last).0 == before.capture(Placement::After, last));
        assert(before.capture(Placement::After, last).buffer =~= appended(
            s.buffer,
            s.current,
            lines,
        ));
    }
}

/// The append command, `k` lines of text that are no lone `.`, and the `.`
/// that ends them make the buffer longer by `k`: the lines stand in it in
/// the order given, directly behind the line on which the cursor stood (in
/// an empty buffer they are all of it), and the editor takes commands
/// again. This holds where the command is accepted: on an empty buffer, and
/// on a cursor that stands on a line.
pub proof fn law_append(s: State, lines: Seq<Seq<char>>)
    requires
        s.wf(),
        s.mode == Mode::Idle,
        s.buffer.len() == 0 || s.addressable(),
        forall|i: int| 0 <= i < lines.len() ==> lines[i] != seq!['.'],
    ensures
        ({
            let end = s.run_all(seq![seq!['a']] + lines + seq![seq!['.']]);
            &&& end.buffer == appended(s.buffer, s.current, lines)
            &&& end.buffer.len() == s.buffer.len() + lines.len()
            &&& forall|i: int|
                0 <= i < lines.len() ==> end.buffer[if s.buffer.len() == 0 {
                    i
                } else {
                    s.current + 1 + i
                }] == #[trigger] lines[i]
            &&& end.mode == Mode::Idle
            &&& end.path == s.path
            &&& end.run_command == s.run_command
            &&& s.buffer.len() > 0 ==> end.current == s.current + lines.len()
            &&& s.buffer.len() == 0 && lines.len() > 0 ==> end.current == lines.len() - 1
        }),
{
    let begin = seq![seq!['a']];
    let finish = seq![seq!['.']];
    let started = s.next(seq!['a']).0;
    assert(begin.drop_last() =~= Seq::<Seq<char>>::empty());
    assert(s.run_all(begin.drop_last()) == s);
    assert(begin.last() == seq!['a']);
    assert(s.run_all(begin) == started);
    assert(started == (State { mode: Mode::Capturing(Placement::After), ..s }));
    lemma_run_all_concat(s, begin, lines);
    lemma_capture_after(started, lines);
    let captured = started.run_all(lines);
    lemma_run_all_concat(s, begin + lines, finish);
    assert(finish.drop_last() =~= Seq::<Seq<char>>::empty());
    assert(captured.run_all(finish.drop_last()) == captured);
    assert(finish.last() == seq!['.']);
    assert(captured.run_all(finish) == captured.next(seq!['.']).0);
}

/// The buffer after `lines` went in before the line at `current`. Into an
/// empty buffer the first of them goes as its only line, and the others go
/// in before that one.
pub open spec fn inserted(buffer: Seq<Seq<char>>, current: int, lines: Seq<Seq<char>>) -> Seq<
    Seq<char>,
> {
    if buffer.len() > 0 {
        buffer.take(current) + lines + buffer.skip(current)
    } else if lines.len() > 0 {
        lines.drop_first().push(lines[0])
    } else {
        lines
    }
}

/// While the editor takes text to insert, each line that is no lone `.` goes
/// in before the line on which the cursor stands, and the cursor stays on
/// that line.
pub proof fn lemma_capture_before(s: State, lines: Seq<Seq<char>>)
    requires
        s.wf(),
        s.mode == Mode::Capturing(Placement::Before),
        forall|i: int| 0 <= i < lines.len() ==> lines[i] != seq!['.'],
    ensures
        s.run_all(lines) == (State {
            buffer: inserted(s.buffer, s.current, lines),
            current: if s.buffer.len() == 0 {
                if lines.len() == 0 {
                    s.current
                } else {
                    lines.len() - 1
                }
            } else {
                s.current + lines.len()
            },
            ..s
        }),
    decreases lines.len(),
{
    if lines.len() == 0 {
        if s.buffer.len() > 0 {
            assert(s.buffer.take(s.current) + lines + s.buffer.skip(s.current) =~= s.buffer);
        }
        assert(inserted(s.buffer, s.current, lines) =~= s.buffer);
    } else {
        let init = lines.drop_last();
        let last = lines.last();
        lemma_capture_before(s, init);
        let before = s.run_all(init);
        assert(seq!['.'].len() == 1 && seq!['.'][0] == '.');
        if last.len() == 1 && last[0] == '.' {
            assert(last =~= seq!['.']);
        }
        assert(before.next(last).0 == before.capture(Placement::Before, last));
        assert(before.capture(Placement::Before, last).buffer =~= inserted(
            s.buffer,
            s.current,
            lines,
        ));
    }
}

/// The insert command, `k` lines of text that are no lone `.`, and the `.`
/// that ends them make the buffer longer by `k`. In a buffer with lines they
/// stand in the order given directly before the line on which the cursor
/// stood, and the cursor stands on that line still. This holds where the
/// command is accepted: on an empty buffer, and on a cursor that stands on
/// a line.
pub proof fn law_insert(s: State, lines: Seq<Seq<char>>)
    requires
        s.wf(),
        s.mode == Mode::Idle,
        s.buffer.len() == 0 || s.addressable(),
        forall|i: int| 0 <= i < lines.len() ==> lines[i] != seq!['.'],
    ensures
        ({
            let end = s.run_all(seq![seq!['i']] + lines + seq![seq!['.']]);
            &&& end.buffer == inserted(s.buffer, s.current, lines)
            &&& end.buffer.len() == s.buffer.len() + lines.len()
            &&& end.mode == Mode::Idle
            &&& end.path == s.path
            &&& end.run_command == s.run_command
            &&& s.buffer.len() > 0 ==> end.current == s.current + lines.len()
                && end.buffer[end.current] == s.buffer[s.current]
        }),
{
    let begin = seq![seq!['i']];
    let finish = seq![seq!['.']];
    let started = s.next(seq!['i']).0;
    assert(begin.drop_last() =~= Seq::<Seq<char>>::empty());
    assert(s.run_all(begin.drop_last()) == s);
    assert(begin.last() == seq!['i']);
    assert(s.run_all(begin) == started);
    assert(started == (State { mode: Mode::Capturing(Placement::Before), ..s }));
    lemma_run_all_concat(s, begin, lines);
    lemma_capture_before(started, lines);
    let captured = started.run_all(lines);
    lemma_run_all_concat(s, begin + lines, finish);
    assert(finish.drop_last() =~= Seq::<Seq<char>>::empty());
    assert(captured.run_all(finish.drop_last()) == captured);
    assert(finish.last() == seq!['.']);
    assert(captured.run_all(finish) == captured.next(seq!['.']).0);
}

/// A buffer whose lines hold no newline stays such a buffer under every
/// step on a line of input that holds none.
pub proof fn law_step_keeps_single_lines(s: State, line: Seq<char>)
    requires
        s.wf(),
        single_lines(s.buffer),
        single_line(line),
    ensures
        single_lines(s.next(line).0.buffer),
{
    let after = s.next(line).0.buffer;
    if s.mode == Mode::Idle && line.len() > 0 && line[0] == 's' && fields(line) is Some
        && s.addressable() {
        let f = fields(line)->0;
        lemma_fields_single_line(line);
        assert(single_line(s.buffer[s.current]));
        lemma_spliced_single_line(s.buffer[s.current], f.0, f.1);
    }
    assert forall|i: int| 0 <= i < after.len() implies single_line(#[trigger] after[i]) by {
        if after != s.buffer {
            if after.len() == s.buffer.len() {
                if i != s.current {
                    assert(after[i] == s.buffer[i]);
                }
            } else if after.len() < s.buffer.len() {
                assert(after[i] == s.buffer[if i < s.current {
                    i
                } else {
                    i + 1
                }]);
            } else if s.buffer.len() > 0 {
                let at = if s.mode == Mode::Capturing(Placement::After) {
                    s.current + 1
                } else {
                    s.current
                };
                assert(after == s.buffer.insert(at, line));
                if i != at {
                    assert(after[i] == s.buffer[if i < at {
                        i
                    } else {
                        i - 1
                    }]);
                }
            }
        }
    }
}

/// A file that was opened gives a buffer whose lines hold no newline.
pub proof fn law_open_gives_single_lines(s: State, path: Seq<char>, text: Seq<char>)
    ensures
        single_lines(s.opened(path, Some(text)).buffer),
{
    lemma_split_single_lines(text);
}

/// Opening a text and saving it gives the text back, where the text is lines
/// with a newline between each two of them, none of them ending in a
/// carriage return and the last not empty.
pub proof fn law_open_then_save(s: State, path: Seq<char>, lines: Seq<Seq<char>>)
    requires
        path.len() > 0,
        single_lines(lines),
        forall|i: int| 0 <= i < lines.len() ==> !ends_in_cr(#[trigger] lines[i]),
        lines.len() > 0 ==> lines.last().len() > 0,
    ensures
        s.opened(path, Some(joined(lines))).next(seq!['w']).1 == Ok::<Effect, EditorError>(
            Effect::Save { path, content: joined(lines), quit: false },
        ),
{
    law_round_trip(lines);
}

/// Without a file name there is nothing to save to: `w` and `wq` are refused
/// with `SaveError`, and the state stays as it is.
pub proof fn law_save_needs_path(s: State)
    requires
        s.mode == Mode::Idle,
        s.path.len() == 0,
    ensures
        s.next(seq!['w']) == s.rejected(EditorError::SaveError),
        s.next(seq!['w', 'q']) == s.rejected(EditorError::SaveError),
{
}

/// Deleting the only line empties the buffer, and printing the current line
/// is then an invalid address.
pub proof fn law_delete_last_line(s: State)
    requires
        s.wf(),
        s.mode == Mode::Idle,
        s.buffer.len() == 1,
        s.current == 0,
    ensures
        s.next(seq!['d']).0.buffer.len() == 0,
        s.next(seq!['d']).0.next(seq!['p']) == s.next(seq!['d']).0.rejected(
            EditorError::InvalidAddress,
        ),
{
}

} // verus!
