//! Address resolution: from the text of an address to indices into the buffer.
//!
//! An address is one token, or two tokens with a comma between them. A token
//! is `.` (the current line), `$` (the last line) or a run of decimal digits
//! (a line number, counted from one).

use vstd::prelude::*;
use crate::error::EditorError;
use crate::text::{all_digits, decimal, find_char, first_index, parse_decimal};

verus! {

/// The zero-based index that a token denotes, before any check against the
/// buffer's length; `None` where the text is no token.
pub open spec fn raw_index(token: Seq<char>, current: int, len: int) -> Option<int> {
    if token == seq!['.'] {
        Some(current)
    } else if token == seq!['$'] {
        Some(len - 1)
    } else if token.len() > 0 && all_digits(token) {
        Some(decimal(token) - 1)
    } else {
        None
    }
}

/// The index that a token denotes in a buffer of `len` lines: `raw_index`
/// where that lies in the buffer, and `None` otherwise.
pub open spec fn token_index(token: Seq<char>, current: int, len: int) -> Option<int> {
    match raw_index(token, current, len) {
        Some(i) => if 0 <= i < len {
            Some(i)
        } else {
            None
        },
        None => None,
    }
}

/// The range that an address denotes: both ends from `token_index`, the
/// start not after the end. Without a comma the one token is both ends; with
/// one, the address is cut at the first comma.
pub open spec fn resolve(s: Seq<char>, current: int, len: int) -> Option<(int, int)> {
    let k = first_index(s, ',');
    if k < s.len() {
        match (token_index(s.take(k), current, len), token_index(s.skip(k + 1), current, len)) {
            (Some(a), Some(b)) => if a <= b {
                Some((a, b))
            } else {
                None
            },
            _ => None,
        }
    } else {
        match token_index(s, current, len) {
            Some(n) => Some((n, n)),
            None => None,
        }
    }
}

/// Every resolved range lies in the buffer, start first.
pub proof fn law_resolved_range_in_buffer(s: Seq<char>, current: int, len: int)
    ensures
        resolve(s, current, len) matches Some(r) ==> 0 <= r.0 <= r.1 < len,
{
}

/// Resolves the token `chars[from..to]` against a buffer of `len` lines with
/// the cursor at `current`.
pub fn resolve_token(chars: &Vec<char>, from: usize, to: usize, current: usize, len: usize) -> (r:
    Result<usize, EditorError>)
    requires
        from <= to <= chars@.len(),
    ensures
        match token_index(chars@.subrange(from as int, to as int), current as int, len as int) {
            Some(i) => r == Ok::<usize, EditorError>(i as usize),
            None => r == Err::<usize, EditorError>(EditorError::InvalidAddress),
        },
{
    let ghost token = chars@.subrange(from as int, to as int);
    let n: usize = to - from;
    if n == 0 {
        return Err(EditorError::InvalidAddress);
    }
    let first: char = chars[from];
    proof {
        assert(token[0] == first);
        assert(seq!['.'].len() == 1 && seq!['$'].len() == 1);
        assert(seq!['.'][0] == '.' && seq!['$'][0] == '$');
    }
    if n == 1 && first == '.' {
        proof {
            assert(token =~= seq!['.']);
        }
        if current < len {
            Ok(current)
        } else {
            Err(EditorError::InvalidAddress)
        }
    } else if n == 1 && first == '$' {
        proof {
            assert(token =~= seq!['$']);
        }
        if len > 0 {
            Ok(len - 1)
        } else {
            Err(EditorError::InvalidAddress)
        }
    } else {
        match parse_decimal(chars, from, to, len) {
            Some(v) => {
                if v >= 1 {
                    Ok(v - 1)
                } else {
                    Err(EditorError::InvalidAddress)
                }
            },
            None => Err(EditorError::InvalidAddress),
        }
    }
}

/// Resolves the address that `chars` spells.
pub fn resolve_address(chars: &Vec<char>, current: usize, len: usize) -> (r: Result<
    (usize, usize),
    EditorError,
>)
    ensures
        match resolve(chars@, current as int, len as int) {
            Some(range) => r == Ok::<(usize, usize), EditorError>(
                (range.0 as usize, range.1 as usize),
            ),
            None => r == Err::<(usize, usize), EditorError>(EditorError::InvalidAddress),
        },
{
    let k: usize = find_char(chars, 0, ',');
    proof {
        assert(chars@.skip(0) =~= chars@);
        assert(chars@.subrange(0, chars@.len() as int) =~= chars@);
    }
    if k < chars.len() {
        proof {
            assert(chars@.subrange(0, k as int) =~= chars@.take(k as int));
            assert(chars@.subrange(k + 1, chars@.len() as int) =~= chars@.skip(k + 1));
        }
        let start = resolve_token(chars, 0, k, current, len);
        let end = resolve_token(chars, k + 1, chars.len(), current, len);
        match (start, end) {
            (Ok(a), Ok(b)) => {
                if a <= b {
                    Ok((a, b))
                } else {
                    Err(EditorError::InvalidAddress)
                }
            },
            _ => Err(EditorError::InvalidAddress),
        }
    } else {
        match resolve_token(chars, 0, chars.len(), current, len) {
            Ok(n) => Ok((n, n)),
            Err(_) => Err(EditorError::InvalidAddress),
        }
    }
}

} // verus!
