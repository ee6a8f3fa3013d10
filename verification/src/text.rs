//! Character-level helpers shared by the parsers of the editor.

use vstd::prelude::*;
use vstd::std_specs::iter::IteratorSpec;

verus! {

/// `String::push` appends one character to the end of the string; the
/// contract states just that, over the string's view.
pub assume_specification[ String::push ](s: &mut String, c: char)
    ensures
        final(s)@ == old(s)@.push(c),
;

/// The characters of `s`, in order.
pub fn chars_of(s: &str) -> (v: Vec<char>)
    ensures
        v@ == s@,
{
    let mut v: Vec<char> = Vec::new();
    let mut it = s.chars();
    let ghost total: Seq<char> = s@;
    loop
        invariant
            it.obeys_prophetic_iter_laws(),
            total == v@ + it.remaining(),
            it.decrease() is Some,
        ensures
            v@ == total,
        decreases it.decrease()->0,
    {
        broadcast use vstd::string::group_string_axioms;
        match it.next() {
            Some(c) => {
                v.push(c);
                assert(total =~= v@ + it.remaining());
            },
            None => {
                assert(total =~= v@);
                break;
            },
        }
    }
    v
}

/// The string made of `chars[from..to]`.
pub fn string_of(chars: &Vec<char>, from: usize, to: usize) -> (s: String)
    requires
        from <= to <= chars@.len(),
    ensures
        s@ == chars@.subrange(from as int, to as int),
{
    let mut s = String::new();
    let mut i: usize = from;
    while i < to
        invariant
            from <= i <= to <= chars@.len(),
            s@ == chars@.subrange(from as int, i as int),
        decreases to - i,
    {
        s.push(chars[i]);
        i += 1;
        assert(s@ =~= chars@.subrange(from as int, i as int));
    }
    assert(s@ =~= chars@.subrange(from as int, to as int));
    s
}

/// The index of the first `c` in `s`, or `s.len()` where `s` holds none.
pub open spec fn first_index(s: Seq<char>, c: char) -> int
    decreases s.len(),
{
    if s.len() == 0 {
        0
    } else if s[0] == c {
        0
    } else {
        1 + first_index(s.drop_first(), c)
    }
}

/// `first_index` is the one position before which no `c` stands and at which,
/// unless it is the end, a `c` stands.
pub proof fn lemma_first_index(s: Seq<char>, c: char, k: int)
    requires
        0 <= k <= s.len(),
        forall|j: int| 0 <= j < k ==> s[j] != c,
        k < s.len() ==> s[k] == c,
    ensures
        first_index(s, c) == k,
    decreases s.len(),
{
    if s.len() > 0 && k > 0 {
        lemma_first_index(s.drop_first(), c, k - 1);
    }
}

/// The converse of `lemma_first_index`: what holds at and before `first_index`.
pub proof fn lemma_first_index_is_first(s: Seq<char>, c: char)
    ensures
        0 <= first_index(s, c) <= s.len(),
        forall|j: int| 0 <= j < first_index(s, c) ==> s[j] != c,
        first_index(s, c) < s.len() ==> s[first_index(s, c)] == c,
    decreases s.len(),
{
    if s.len() > 0 && s[0] != c {
        let t = s.drop_first();
        lemma_first_index_is_first(t, c);
        assert forall|j: int| 0 <= j < first_index(s, c) implies s[j] != c by {
            if j > 0 {
                assert(s[j] == t[j - 1]);
            }
        }
    }
}

/// Finds the first `c` at or after `from`; returns the length where there is none.
pub fn find_char(chars: &Vec<char>, from: usize, c: char) -> (k: usize)
    requires
        from <= chars@.len(),
    ensures
        from <= k <= chars@.len(),
        k == from + first_index(chars@.skip(from as int), c),
        forall|j: int| from <= j < k ==> chars@[j] != c,
        k < chars@.len() ==> chars@[k as int] == c,
{
    let mut i: usize = from;
    while i < chars.len() && chars[i] != c
        invariant
            from <= i <= chars@.len(),
            forall|j: int| from <= j < i ==> chars@[j] != c,
        decreases chars@.len() - i,
    {
        i += 1;
    }
    proof {
        lemma_first_index(chars@.skip(from as int), c, i - from);
    }
    i
}

/// Whether `c` is one of the decimal digits `0` to `9`.
pub open spec fn is_digit(c: char) -> bool {
    48 <= c as u32 <= 57
}

/// The value of a decimal digit; 0 for any other character.
pub open spec fn digit_value(c: char) -> nat {
    if is_digit(c) {
        (c as u32 - 48) as nat
    } else {
        0
    }
}

/// Whether every character of `s` is a decimal digit.
pub open spec fn all_digits(s: Seq<char>) -> bool {
    forall|i: int| 0 <= i < s.len() ==> is_digit(#[trigger] s[i])
}

/// The number that the digits of `s` write in base ten.
pub open spec fn decimal(s: Seq<char>) -> nat
    decreases s.len(),
{
    if s.len() == 0 {
        0
    } else {
        decimal(s.drop_last()) * 10 + digit_value(s.last())
    }
}

/// A prefix of a digit string never writes a larger number than the whole.
pub proof fn lemma_decimal_prefix(s: Seq<char>, i: int)
    requires
        0 <= i <= s.len(),
    ensures
        decimal(s.take(i)) <= decimal(s),
    decreases s.len(),
{
    if i == s.len() {
        assert(s.take(i) =~= s);
    } else {
        assert(s.drop_last().take(i) =~= s.take(i));
        lemma_decimal_prefix(s.drop_last(), i);
    }
}

/// Reads `chars[from..to]` as a decimal number no larger than `limit`.
pub fn parse_decimal(chars: &Vec<char>, from: usize, to: usize, limit: usize) -> (r: Option<usize>)
    requires
        from <= to <= chars@.len(),
    ensures
        match r {
            Some(v) => all_digits(chars@.subrange(from as int, to as int)) && v == decimal(
                chars@.subrange(from as int, to as int),
            ) && v <= limit,
            None => !all_digits(chars@.subrange(from as int, to as int)) || decimal(
                chars@.subrange(from as int, to as int),
            ) > limit,
        },
{
    let ghost t = chars@.subrange(from as int, to as int);
    let mut acc: usize = 0;
    let mut i: usize = from;
    proof {
        assert(t.take(0) =~= Seq::<char>::empty());
    }
    while i < to
        invariant
            from <= i <= to <= chars@.len(),
            t == chars@.subrange(from as int, to as int),
            all_digits(t.take(i - from)),
            acc == decimal(t.take(i - from)),
            acc <= limit,
        decreases to - i,
    {
        let c: char = chars[i];
        let ghost k: int = i - from;
        proof {
            assert(t[k] == c);
            assert(t.take(k + 1).drop_last() =~= t.take(k));
            assert(t.take(k + 1).last() == c);
        }
        let code: u32 = c as u32;
        if code < 48 || code > 57 {
            return None;
        }
        let d: u128 = (code - 48) as u128;
        let wide: u128 = (acc as u128) * 10 + d;
        if wide > limit as u128 {
            proof {
                lemma_decimal_prefix(t, k + 1);
            }
            return None;
        }
        acc = wide as usize;
        i += 1;
        proof {
            assert forall|j: int| 0 <= j < t.take(k + 1).len() implies is_digit(
                #[trigger] t.take(k + 1)[j],
            ) by {
                if j < k {
                    assert(t.take(k + 1)[j] == t.take(k)[j]);
                }
            }
        }
    }
    proof {
        assert(t.take(to - from) =~= t);
    }
    Some(acc)
}

} // verus!
