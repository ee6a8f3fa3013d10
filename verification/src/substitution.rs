//! Substitution: replacing the first literal occurrence of a pattern in a line.
//!
//! Matching is done by the `regex` crate on the escaped pattern, so that no
//! character of the pattern has a special meaning.

use vstd::prelude::*;
use crate::error::EditorError;
use crate::buffer::single_line;
use crate::text::{find_char, first_index, lemma_first_index_is_first, string_of};

verus! {

/// The characters that have a meaning of their own in a regular expression.
pub open spec fn is_meta(c: char) -> bool {
    c == '\\' || c == '.' || c == '+' || c == '*' || c == '?' || c == '(' || c == ')' || c == '|'
        || c == '[' || c == ']' || c == '{' || c == '}' || c == '^' || c == '$' || c == '#' || c
        == '&' || c == '-' || c == '~'
}

/// `s` with a backslash put before each of its meta characters.
pub open spec fn escaped(s: Seq<char>) -> Seq<char>
    decreases s.len(),
{
    if s.len() == 0 {
        s
    } else if is_meta(s[0]) {
        seq!['\\', s[0]] + escaped(s.drop_first())
    } else {
        seq![s[0]] + escaped(s.drop_first())
    }
}

/// Two texts with the same escaped form are the same text: an escaped
/// expression stands for one pattern only.
pub proof fn law_escaped_is_injective(p: Seq<char>, q: Seq<char>)
    requires
        escaped(p) == escaped(q),
    ensures
        p == q,
    decreases p.len(),
{
    if p.len() == 0 {
        if q.len() > 0 {
            assert(escaped(q).len() > 0);
        }
        assert(p =~= q);
    } else {
        assert(escaped(p).len() > 0);
        assert(q.len() > 0);
        assert(is_meta('\\'));
        let p_rest = escaped(p.drop_first());
        let q_rest = escaped(q.drop_first());
        assert(escaped(p)[0] == escaped(q)[0]);
        if is_meta(p[0]) {
            assert(escaped(p)[0] == '\\');
            assert(is_meta(q[0]));
            assert(escaped(p)[1] == p[0] && escaped(q)[1] == q[0]);
            assert(p_rest =~= escaped(p).skip(2));
            assert(q_rest =~= escaped(q).skip(2));
        } else {
            assert(escaped(p)[0] == p[0]);
            assert(!is_meta(q[0]));
            assert(escaped(q)[0] == q[0]);
            assert(p_rest =~= escaped(p).skip(1));
            assert(q_rest =~= escaped(q).skip(1));
        }
        assert(p[0] == q[0]);
        law_escaped_is_injective(p.drop_first(), q.drop_first());
        assert(p =~= seq![p[0]] + p.drop_first());
        assert(q =~= seq![q[0]] + q.drop_first());
    }
}

/// `line` with its first occurrence of `pattern` replaced by `replacement`;
/// `line` itself where `pattern` does not occur in it.
pub open spec fn spliced(line: Seq<char>, pattern: Seq<char>, replacement: Seq<char>) -> Seq<char>
    decreases line.len(),
{
    if pattern.is_prefix_of(line) {
        replacement + line.skip(pattern.len() as int)
    } else if line.len() == 0 {
        line
    } else {
        seq![line[0]] + spliced(line.drop_first(), pattern, replacement)
    }
}

/// Whether `pattern` stands in `line` at index `i`.
pub open spec fn occurs_at(line: Seq<char>, pattern: Seq<char>, i: int) -> bool {
    0 <= i && i + pattern.len() <= line.len() && line.subrange(i, i + pattern.len()) == pattern
}

/// Where `pattern` occurs at `i` and nowhere before, `spliced` keeps what
/// stands before `i` and what stands after the occurrence, with the
/// replacement between them.
pub proof fn law_spliced_at_first(
    line: Seq<char>,
    pattern: Seq<char>,
    replacement: Seq<char>,
    i: int,
)
    requires
        occurs_at(line, pattern, i),
        forall|j: int| 0 <= j < i ==> !occurs_at(line, pattern, j),
    ensures
        spliced(line, pattern, replacement) == line.take(i) + replacement + line.skip(
            i + pattern.len(),
        ),
    decreases line.len(),
{
    if pattern.is_prefix_of(line) {
        assert(line.subrange(0, pattern.len() as int) =~= pattern);
        assert(occurs_at(line, pattern, 0));
        assert(i == 0);
        assert(line.take(0) + replacement =~= replacement);
    } else {
        if i == 0 {
            assert(line.subrange(0, pattern.len() as int) == pattern);
            assert(pattern.is_prefix_of(line));
        }
        let rest = line.drop_first();
        assert(rest.subrange(i - 1, i - 1 + pattern.len()) =~= line.subrange(i, i + pattern.len()));
        assert forall|j: int| 0 <= j < i - 1 implies !occurs_at(rest, pattern, j) by {
            assert(rest.subrange(j, j + pattern.len()) =~= line.subrange(
                j + 1,
                j + 1 + pattern.len(),
            ));
            assert(!occurs_at(line, pattern, j + 1));
        }
        law_spliced_at_first(rest, pattern, replacement, i - 1);
        assert(seq![line[0]] + (rest.take(i - 1) + replacement + rest.skip(i - 1 + pattern.len()))
            =~= line.take(i) + replacement + line.skip(i + pattern.len()));
    }
}

/// Where `pattern` occurs nowhere in `line`, `spliced` is `line`.
pub proof fn law_spliced_without_occurrence(
    line: Seq<char>,
    pattern: Seq<char>,
    replacement: Seq<char>,
)
    requires
        forall|j: int| !occurs_at(line, pattern, j),
    ensures
        spliced(line, pattern, replacement) == line,
    decreases line.len(),
{
    if pattern.is_prefix_of(line) {
        assert(line.subrange(0, pattern.len() as int) =~= pattern);
        assert(occurs_at(line, pattern, 0));
    } else if line.len() > 0 {
        let rest = line.drop_first();
        assert forall|j: int| !occurs_at(rest, pattern, j) by {
            if 0 <= j && j + pattern.len() <= rest.len() {
                assert(rest.subrange(j, j + pattern.len()) =~= line.subrange(
                    j + 1,
                    j + 1 + pattern.len(),
                ));
                assert(!occurs_at(line, pattern, j + 1));
            }
        }
        law_spliced_without_occurrence(rest, pattern, replacement);
        assert(seq![line[0]] + rest =~= line);
    }
}

/// A substitution on a line without a newline, with a replacement without
/// one, gives a line without one.
pub proof fn lemma_spliced_single_line(
    line: Seq<char>,
    pattern: Seq<char>,
    replacement: Seq<char>,
)
    requires
        single_line(line),
        single_line(replacement),
    ensures
        single_line(spliced(line, pattern, replacement)),
    decreases line.len(),
{
    if !pattern.is_prefix_of(line) && line.len() > 0 {
        lemma_spliced_single_line(line.drop_first(), pattern, replacement);
    }
}

/// The fields of a command without a newline hold none.
pub proof fn lemma_fields_single_line(command: Seq<char>)
    requires
        single_line(command),
    ensures
        fields(command) matches Some(f) ==> single_line(f.0) && single_line(f.1),
{
    lemma_first_index_is_first(command, '/');
    let k1 = first_index(command, '/');
    if k1 < command.len() {
        let rest1 = command.skip(k1 + 1);
        lemma_first_index_is_first(rest1, '/');
        let k2 = first_index(rest1, '/');
        if k2 < rest1.len() {
            let rest2 = rest1.skip(k2 + 1);
            lemma_first_index_is_first(rest2, '/');
        }
    }
}

/// The error type of the `regex` crate, `regex::Error`: a value of it is
/// carried from the matcher to the place where it becomes `BadPattern`, and
/// nothing is known of what it holds.
#[verifier::external_type_specification]
#[verifier::external_body]
pub struct ExRegexError(regex::Error);

/// Calls `regex::escape`, which walks the characters of the pattern and puts a
/// backslash before each meta character: the result is `escaped` of the
/// pattern.
#[verifier::external_body]
fn escape_pattern(pattern: &str) -> (r: String)
    ensures
        r@ == escaped(pattern@),
{
    regex::escape(pattern)
}

/// Compiles `expression` with `regex::Regex::new` and, where that succeeds,
/// calls `regex::Regex::replace` on `line` with the replacement taken
/// literally (`regex::NoExpand`). The contract speaks only of an expression
/// that is the escaped form of some text (of one text at most, see
/// `law_escaped_is_injective`): such an expression matches that text and
/// nothing else, and `replace` puts the replacement in place of the leftmost
/// match, or returns the line as it is where there is none. Whether the
/// expression compiles is left open: the crate refuses one that is too
/// large.
#[verifier::external_body]
fn replace_first(expression: &str, line: &str, replacement: &str) -> (r: Result<
    String,
    regex::Error,
>)
    ensures
        forall|pattern: Seq<char>|
            expression@ == #[trigger] escaped(pattern) ==> (r matches Ok(s) ==> s@ == spliced(
                line@,
                pattern,
                replacement@,
            )),
{
    let compiled = regex::Regex::new(expression)?;
    Ok(compiled.replace(line, regex::NoExpand(replacement)).into_owned())
}

/// Replaces the first occurrence of `pattern` in `line`, taken literally, by
/// `replacement`. Fails with `BadPattern`, and only so, where the matcher
/// refuses the pattern.
pub fn substitute_first(line: &str, pattern: &str, replacement: &str) -> (r: Result<
    String,
    EditorError,
>)
    ensures
        r matches Ok(s) ==> s@ == spliced(line@, pattern@, replacement@),
        r matches Err(e) ==> e == EditorError::BadPattern,
{
    let expression = escape_pattern(pattern);
    match replace_first(expression.as_str(), line, replacement) {
        Ok(s) => Ok(s),
        Err(_) => Err(EditorError::BadPattern),
    }
}

/// The pattern and the replacement of a substitute command: the text between
/// the first and the second `/`, and the text from there to the third `/` or
/// to the end. `None` where the command holds fewer than two `/`.
pub open spec fn fields(command: Seq<char>) -> Option<(Seq<char>, Seq<char>)> {
    let k1 = first_index(command, '/');
    if k1 >= command.len() {
        None
    } else {
        let rest1 = command.skip(k1 + 1);
        let k2 = first_index(rest1, '/');
        if k2 >= rest1.len() {
            None
        } else {
            let rest2 = rest1.skip(k2 + 1);
            Some((rest1.take(k2), rest2.take(first_index(rest2, '/'))))
        }
    }
}

/// Splits a substitute command into its pattern and its replacement.
pub fn split_fields(command: &Vec<char>) -> (r: Result<(String, String), EditorError>)
    ensures
        match fields(command@) {
            Some(f) => r matches Ok(p) && p.0@ == f.0 && p.1@ == f.1,
            None => r matches Err(e) && e == EditorError::MissingDelimiter,
        },
{
    let n: usize = command.len();
    let k1: usize = find_char(command, 0, '/');
    proof {
        assert(command@.skip(0) =~= command@);
    }
    if k1 >= n {
        return Err(EditorError::MissingDelimiter);
    }
    let k2: usize = find_char(command, k1 + 1, '/');
    if k2 >= n {
        return Err(EditorError::MissingDelimiter);
    }
    let k3: usize = find_char(command, k2 + 1, '/');
    let pattern = string_of(command, k1 + 1, k2);
    let replacement = string_of(command, k2 + 1, k3);
    proof {
        let rest1 = command@.skip(k1 + 1);
        let rest2 = rest1.skip(k2 - k1);
        assert(rest2 =~= command@.skip(k2 + 1));
        assert(rest1.take(k2 - k1 - 1) =~= command@.subrange(k1 + 1, k2 as int));
        assert(rest2.take(k3 - k2 - 1) =~= command@.subrange(k2 + 1, k3 as int));
    }
    Ok((pattern, replacement))
}

} // verus!
