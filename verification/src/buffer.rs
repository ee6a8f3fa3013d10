//! The line buffer: an ordered sequence of lines, its edits, and its form on
//! disk (lines joined by newlines, without a newline at the end).

use vstd::prelude::*;
use vstd::string::StringExecFns;
use vstd::string::StrSliceExecFns;
use crate::text::{
    chars_of, find_char, first_index, lemma_first_index, lemma_first_index_is_first, string_of,
};

verus! {

/// The lines of a buffer as sequences of characters.
pub open spec fn lines_of(v: Seq<String>) -> Seq<Seq<char>> {
    Seq::new(v.len(), |i: int| v[i]@)
}

/// The sum of the lengths of the lines, in characters; newlines not counted.
pub open spec fn total_length(lines: Seq<Seq<char>>) -> nat
    decreases lines.len(),
{
    if lines.len() == 0 {
        0
    } else {
        total_length(lines.drop_last()) + lines.last().len()
    }
}

/// The lines with one newline between each two of them, and none at the end.
pub open spec fn joined(lines: Seq<Seq<char>>) -> Seq<char>
    decreases lines.len(),
{
    if lines.len() == 0 {
        Seq::empty()
    } else if lines.len() == 1 {
        lines[0]
    } else {
        joined(lines.drop_last()) + seq!['\n'] + lines.last()
    }
}

/// A line without the carriage return that may end it.
pub open spec fn strip_cr(line: Seq<char>) -> Seq<char> {
    if line.len() > 0 && line.last() == '\r' {
        line.drop_last()
    } else {
        line
    }
}

/// The lines of a text: cut at each newline, a carriage return before the
/// newline dropped with it. A newline at the very end opens no further line.
pub open spec fn split(text: Seq<char>) -> Seq<Seq<char>>
    decreases text.len(),
{
    let k = first_index(text, '\n');
    if text.len() == 0 {
        Seq::empty()
    } else if 0 <= k < text.len() {
        seq![strip_cr(text.take(k))] + split(text.skip(k + 1))
    } else {
        seq![text]
    }
}

/// Whether the text holds no newline, as a line of the buffer should.
pub open spec fn single_line(line: Seq<char>) -> bool {
    forall|i: int| 0 <= i < line.len() ==> line[i] != '\n'
}

/// Whether each of the lines holds no newline.
pub open spec fn single_lines(lines: Seq<Seq<char>>) -> bool {
    forall|i: int| 0 <= i < lines.len() ==> single_line(#[trigger] lines[i])
}

/// Whether the line ends in a carriage return.
pub open spec fn ends_in_cr(line: Seq<char>) -> bool {
    line.len() > 0 && line.last() == '\r'
}

/// The lines of a text hold no newline.
pub proof fn lemma_split_single_lines(text: Seq<char>)
    ensures
        single_lines(split(text)),
    decreases text.len(),
{
    let k = first_index(text, '\n');
    lemma_first_index_is_first(text, '\n');
    if text.len() > 0 && k < text.len() {
        lemma_split_single_lines(text.skip(k + 1));
        let head = strip_cr(text.take(k));
        assert(single_line(head));
        assert forall|i: int| 0 <= i < split(text).len() implies single_line(
            #[trigger] split(text)[i],
        ) by {
            if i > 0 {
                assert(split(text)[i] == split(text.skip(k + 1))[i - 1]);
            }
        }
    }
}

/// More than one line joined is the first line, a newline, and the other
/// lines joined.
pub proof fn lemma_joined_front(lines: Seq<Seq<char>>)
    requires
        lines.len() >= 2,
    ensures
        joined(lines) == lines[0] + seq!['\n'] + joined(lines.drop_first()),
    decreases lines.len(),
{
    let init = lines.drop_last();
    let rest = lines.drop_first();
    if lines.len() == 2 {
        assert(joined(init) == lines[0]);
        assert(joined(rest) == lines[1]);
    } else {
        lemma_joined_front(init);
        assert(rest.drop_last() =~= init.drop_first());
        assert(joined(lines) =~= lines[0] + seq!['\n'] + joined(rest));
    }
}

/// Lines that were joined and cut again are the same lines, provided that
/// the text can be cut in one way only: no line holds a newline or ends in a
/// carriage return, and the last line is not empty.
pub proof fn law_round_trip(lines: Seq<Seq<char>>)
    requires
        single_lines(lines),
        forall|i: int| 0 <= i < lines.len() ==> !ends_in_cr(#[trigger] lines[i]),
        lines.len() > 0 ==> lines.last().len() > 0,
    ensures
        split(joined(lines)) == lines,
    decreases lines.len(),
{
    let text = joined(lines);
    if lines.len() == 0 {
    } else if lines.len() == 1 {
        assert(single_line(lines[0]));
        lemma_first_index(text, '\n', text.len() as int);
        assert(split(text) =~= lines);
    } else {
        let head = lines[0];
        let rest = lines.drop_first();
        lemma_joined_front(lines);
        assert(single_line(head));
        assert(!ends_in_cr(head));
        lemma_first_index(text, '\n', head.len() as int);
        assert(text.take(head.len() as int) =~= head);
        assert(text.skip(head.len() as int + 1) =~= joined(rest));
        assert forall|i: int| 0 <= i < rest.len() implies single_line(#[trigger] rest[i])
            && !ends_in_cr(rest[i]) by {
            assert(rest[i] == lines[i + 1]);
        }
        assert(rest.last() == lines.last());
        law_round_trip(rest);
        assert(split(text) =~= lines);
    }
}

/// Puts `text` into the buffer as the line at `index`; the lines from there
/// on move down by one.
pub fn insert_before(lines: &mut Vec<String>, index: usize, text: String)
    requires
        index <= old(lines)@.len(),
    ensures
        lines_of(final(lines)@) == lines_of(old(lines)@).insert(index as int, text@),
{
    lines.insert(index, text);
    assert(lines_of(lines@) =~= lines_of(old(lines)@).insert(index as int, text@));
}

/// Puts `text` into the buffer as the line that follows the line at `index`.
pub fn insert_after(lines: &mut Vec<String>, index: usize, text: String)
    requires
        index < old(lines)@.len(),
    ensures
        lines_of(final(lines)@) == lines_of(old(lines)@).insert(index + 1, text@),
{
    let n: usize = lines.len();
    lines.insert(index + 1, text);
    assert(lines_of(lines@) =~= lines_of(old(lines)@).insert(index + 1, text@));
}

/// Removes the line at `index`; the lines after it move up by one.
pub fn delete(lines: &mut Vec<String>, index: usize)
    requires
        index < old(lines)@.len(),
    ensures
        lines_of(final(lines)@) == lines_of(old(lines)@).remove(index as int),
{
    let _ = lines.remove(index);
    assert(lines_of(lines@) =~= lines_of(old(lines)@).remove(index as int));
}

/// Puts `text` in place of the line at `index`; no other line moves.
pub fn replace(lines: &mut Vec<String>, index: usize, text: String)
    requires
        index < old(lines)@.len(),
    ensures
        lines_of(final(lines)@) == lines_of(old(lines)@).update(index as int, text@),
{
    lines.set(index, text);
    assert(lines_of(lines@) =~= lines_of(old(lines)@).update(index as int, text@));
}

/// Copies of the lines `from..to`, in order.
pub fn copy_range(lines: &Vec<String>, from: usize, to: usize) -> (out: Vec<String>)
    requires
        from <= to <= lines@.len(),
    ensures
        lines_of(out@) == lines_of(lines@).subrange(from as int, to as int),
{
    let mut out: Vec<String> = Vec::new();
    let mut i: usize = from;
    while i < to
        invariant
            from <= i <= to <= lines@.len(),
            lines_of(out@) == lines_of(lines@).subrange(from as int, i as int),
        decreases to - i,
    {
        let ghost before = out@;
        out.push(lines[i].clone());
        i += 1;
        assert(lines_of(out@) =~= lines_of(before).push(lines@[i - 1]@));
        assert(lines_of(out@) =~= lines_of(lines@).subrange(from as int, i as int));
    }
    out
}

/// The size of the buffer: the characters of all its lines, counted.
pub fn size_in_bytes(lines: &Vec<String>) -> (size: u128)
    ensures
        size == total_length(lines_of(lines@)),
{
    let ghost all = lines_of(lines@);
    let mut size: u128 = 0;
    let mut i: usize = 0;
    proof {
        assert(all.take(0) =~= Seq::<Seq<char>>::empty());
    }
    while i < lines.len()
        invariant
            i <= lines@.len(),
            all == lines_of(lines@),
            size == total_length(all.take(i as int)),
            size <= i * usize::MAX,
        decreases lines@.len() - i,
    {
        let n: usize = lines[i].as_str().unicode_len();
        proof {
            assert(all.take(i + 1).drop_last() =~= all.take(i as int));
            assert(all.take(i + 1).last() == lines@[i as int]@);
            assert((i + 1) * usize::MAX <= usize::MAX * usize::MAX) by (nonlinear_arith)
                requires
                    i + 1 <= usize::MAX,
            ;
            assert(usize::MAX * usize::MAX < u128::MAX) by (nonlinear_arith)
                requires
                    usize::MAX <= 0xffff_ffff_ffff_ffff,
                    u128::MAX == 0xffff_ffff_ffff_ffff_ffff_ffff_ffff_ffff,
            ;
            assert(i * usize::MAX + usize::MAX == (i + 1) * usize::MAX) by (nonlinear_arith);
        }
        size = size + n as u128;
        i += 1;
    }
    proof {
        assert(all.take(lines@.len() as int) =~= all);
    }
    size
}

/// The text that is written to disk for these lines.
pub fn join_with_newlines(lines: &Vec<String>) -> (text: String)
    ensures
        text@ == joined(lines_of(lines@)),
{
    let ghost all = lines_of(lines@);
    let mut text = String::new();
    let mut i: usize = 0;
    proof {
        assert(all.take(0) =~= Seq::<Seq<char>>::empty());
    }
    while i < lines.len()
        invariant
            i <= lines@.len(),
            all == lines_of(lines@),
            text@ == joined(all.take(i as int)),
        decreases lines@.len() - i,
    {
        proof {
            assert(all.take(i + 1).drop_last() =~= all.take(i as int));
            assert(all.take(i + 1).last() == lines@[i as int]@);
        }
        if i > 0 {
            text.push('\n');
        }
        text.append(lines[i].as_str());
        i += 1;
        proof {
            if i == 1 {
                assert(text@ =~= all.take(1)[0]);
            } else {
                assert(text@ =~= joined(all.take(i - 1)) + seq!['\n'] + lines@[i - 1]@);
            }
        }
    }
    proof {
        assert(all.take(lines@.len() as int) =~= all);
    }
    text
}

/// Cuts a text into its lines, as `split` says.
pub fn split_lines(text: &str) -> (lines: Vec<String>)
    ensures
        lines_of(lines@) == split(text@),
{
    let chars = chars_of(text);
    let n: usize = chars.len();
    let mut lines: Vec<String> = Vec::new();
    let mut start: usize = 0;
    proof {
        assert(chars@.skip(0) =~= chars@);
        assert(lines_of(lines@) + split(chars@) =~= split(chars@));
    }
    while start < n
        invariant
            start <= n == chars@.len(),
            split(chars@) == lines_of(lines@) + split(chars@.skip(start as int)),
        decreases n - start,
    {
        let ghost rest = chars@.skip(start as int);
        let ghost before = lines@;
        let k: usize = find_char(&chars, start, '\n');
        if k < n {
            let end: usize = if k > start && chars[k - 1] == '\r' {
                k - 1
            } else {
                k
            };
            let line = string_of(&chars, start, end);
            proof {
                assert(rest.take(k - start) =~= chars@.subrange(start as int, k as int));
                assert(line@ =~= strip_cr(rest.take(k - start)));
                assert(rest.skip(k - start + 1) =~= chars@.skip(k + 1));
            }
            lines.push(line);
            start = k + 1;
            proof {
                assert(lines_of(lines@) =~= lines_of(before).push(line@));
                assert(split(chars@) =~= lines_of(lines@) + split(chars@.skip(start as int)));
            }
        } else {
            let line = string_of(&chars, start, n);
            proof {
                assert(line@ =~= rest);
                assert(chars@.skip(n as int) =~= Seq::<char>::empty());
            }
            lines.push(line);
            start = n;
            proof {
                assert(lines_of(lines@) =~= lines_of(before).push(line@));
                assert(split(chars@) =~= lines_of(lines@) + split(chars@.skip(start as int)));
            }
        }
    }
    proof {
        assert(chars@.skip(n as int) =~= Seq::<char>::empty());
        assert(lines_of(lines@) + Seq::<Seq<char>>::empty() =~= lines_of(lines@));
    }
    lines
}

} // verus!
