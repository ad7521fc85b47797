//! Derivation paths: how the path of an account is put together, and which
//! paths the derivation cannot take.
//!
//! A path is a run of segments with `/` between them. Every segment but `m`
//! is an index. A segment that ends in `'` or `h` is a hardened index: the
//! number in front of the mark is raised by 2^31, so it has to be below 2^31
//! itself. A key is derived index by index, and the depth of a key is a
//! byte: a path has at most 255 indices.

use vstd::prelude::*;
use crate::text::{chars_of, decimal_text, push_decimal};

verus! {

/// The first index that is hardened: 2^31.
pub const HARDENED: u64 = 0x8000_0000;

/// The largest number of indices in a path.
pub const MAX_DEPTH: usize = 255;

/// Why a path cannot be taken.
#[derive(Debug, Clone, Copy, PartialEq, Eq, Structural)]
pub enum PathFault {
    /// A hardened index is 2^31 or more.
    IndexOutOfRange,
    /// The path has more than 255 indices.
    TooDeep,
}

/// The path of account `idx` under `template`: the template, `/`, and the
/// index in decimal.
pub open spec fn account_path(template: Seq<char>, idx: u32) -> Seq<char> {
    template + seq!['/'] + decimal_text(idx as nat)
}

/// The segments of `path`: what stands between its `/`. A path without `/`
/// is one segment; the empty path is one empty segment.
pub open spec fn split_path(path: Seq<char>) -> Seq<Seq<char>>
    decreases path.len(),
{
    if path.len() == 0 {
        seq![Seq::<char>::empty()]
    } else {
        let front = split_path(path.drop_last());
        if path.last() == '/' {
            front.push(Seq::<char>::empty())
        } else {
            front.update(front.len() - 1, front.last().push(path.last()))
        }
    }
}

/// Whether `c` is one of `0` to `9`.
pub open spec fn is_digit(c: char) -> bool {
    '0' <= c <= '9'
}

/// Whether every character of `s` is a decimal digit.
pub open spec fn all_digits(s: Seq<char>) -> bool {
    forall|i: int| 0 <= i < s.len() ==> is_digit(#[trigger] s[i])
}

/// The number that the decimal digits `s` write.
pub open spec fn digits_value(s: Seq<char>) -> nat
    decreases s.len(),
{
    if s.len() == 0 {
        0
    } else {
        digits_value(s.drop_last()) * 10 + (s.last() as u32 - '0' as u32) as nat
    }
}

/// Whether `body` writes a number of at least 2^31: digits, at least one,
/// with or without a `+` in front.
pub open spec fn writes_large_number(body: Seq<char>) -> bool {
    let digits = if body.len() > 0 && body[0] == '+' {
        body.drop_first()
    } else {
        body
    };
    digits.len() > 0 && all_digits(digits) && digits_value(digits) >= HARDENED
}

/// Whether the segment `seg` is a hardened index whose number is 2^31 or
/// more.
pub open spec fn overflowing_segment(seg: Seq<char>) -> bool {
    seg.len() > 0 && (seg.last() == '\'' || seg.last() == 'h') && writes_large_number(
        seg.drop_last(),
    )
}

/// Whether one of `segments` is a hardened index out of range.
pub open spec fn any_overflowing(segments: Seq<Seq<char>>) -> bool
    decreases segments.len(),
{
    if segments.len() == 0 {
        false
    } else {
        any_overflowing(segments.drop_last()) || overflowing_segment(segments.last())
    }
}

/// Whether a segment is an index: every segment is one but `m`.
pub open spec fn is_index(seg: Seq<char>) -> bool {
    seg != seq!['m']
}

/// The number of indices among `segments`.
pub open spec fn count_indices(segments: Seq<Seq<char>>) -> nat
    decreases segments.len(),
{
    if segments.len() == 0 {
        0
    } else {
        count_indices(segments.drop_last()) + if is_index(segments.last()) {
            1nat
        } else {
            0nat
        }
    }
}

/// Why `path` cannot be taken, if it cannot: a hardened index out of range,
/// or else more than 255 indices.
pub open spec fn path_fault(path: Seq<char>) -> Option<PathFault> {
    if any_overflowing(split_path(path)) {
        Some(PathFault::IndexOutOfRange)
    } else if count_indices(split_path(path)) > MAX_DEPTH {
        Some(PathFault::TooDeep)
    } else {
        None
    }
}

/// The text of the error for a fault.
pub open spec fn fault_text(fault: PathFault) -> Seq<char> {
    match fault {
        PathFault::IndexOutOfRange => "hardened index out of range"@,
        PathFault::TooDeep => "derivation path too deep"@,
    }
}

impl PathFault {
    /// The text of the error for the fault.
    pub fn text(&self) -> (text: String)
        ensures
            text@ == fault_text(*self),
    {
        match self {
            PathFault::IndexOutOfRange => String::from_str("hardened index out of range"),
            PathFault::TooDeep => String::from_str("derivation path too deep"),
        }
    }
}

/// Builds the path of account `idx` under `template`.
pub fn make_account_path(template: &str, idx: u32) -> (path: String)
    ensures
        path@ == account_path(template@, idx),
{
    let mut path = String::from_str(template);
    path.push('/');
    push_decimal(&mut path, idx);
    assert(path@ =~= account_path(template@, idx));
    path
}

/// Whether `chars[from..to]` writes a number of at least 2^31.
fn check_large_number(chars: &Vec<char>, from: usize, to: usize) -> (large: bool)
    requires
        from <= to <= chars.len(),
    ensures
        large == writes_large_number(chars@.subrange(from as int, to as int)),
{
    let ghost body = chars@.subrange(from as int, to as int);
    let start: usize = if from < to && chars[from] == '+' {
        from + 1
    } else {
        from
    };
    let ghost digits = chars@.subrange(start as int, to as int);
    proof {
        if from < to && chars[from as int] == '+' {
            assert(body[0] == '+');
            assert(body.drop_first() =~= digits);
        } else {
            if body.len() > 0 {
                assert(body[0] == chars[from as int]);
            }
            assert(body =~= digits);
        }
        assert(writes_large_number(body) == (digits.len() > 0 && all_digits(digits)
            && digits_value(digits) >= HARDENED));
    }
    if start == to {
        return false;
    }
    let mut value: u64 = 0;
    let mut i: usize = start;
    while i < to
        invariant
            start <= i <= to <= chars.len(),
            from <= to,
            digits == chars@.subrange(start as int, to as int),
            writes_large_number(chars@.subrange(from as int, to as int)) == (digits.len() > 0
                && all_digits(digits) && digits_value(digits) >= HARDENED),
            all_digits(digits.take(i - start)),
            value < HARDENED ==> value == digits_value(digits.take(i - start)),
            value >= HARDENED ==> digits_value(digits.take(i - start)) >= HARDENED,
            value < 10 * HARDENED,
        decreases to - i,
    {
        let c = chars[i];
        proof {
            assert(digits[i - start] == c);
            assert(digits.take(i - start + 1).drop_last() =~= digits.take(i - start));
            assert(digits.take(i - start + 1).last() == c);
        }
        if !('0' <= c && c <= '9') {
            proof {
                assert(!is_digit(digits[i - start]));
            }
            return false;
        }
        proof {
            assert forall|j: int| 0 <= j < i - start + 1 implies is_digit(
                #[trigger] digits.take(i - start + 1)[j],
            ) by {
                if j < i - start {
                    assert(digits.take(i - start)[j] == digits[j]);
                }
            }
        }
        if value < HARDENED {
            value = value * 10 + (c as u32 - '0' as u32) as u64;
        }
        i += 1;
    }
    proof {
        assert(digits.take(to - start) =~= digits);
    }
    value >= HARDENED
}

/// Whether the segment `chars[from..to]` is a hardened index out of range.
fn check_segment(chars: &Vec<char>, from: usize, to: usize) -> (bad: bool)
    requires
        from <= to <= chars.len(),
    ensures
        bad == overflowing_segment(chars@.subrange(from as int, to as int)),
{
    let ghost seg = chars@.subrange(from as int, to as int);
    if from == to {
        return false;
    }
    let last = chars[to - 1];
    proof {
        assert(seg.last() == last);
        assert(seg.drop_last() =~= chars@.subrange(from as int, to - 1));
    }
    if last == '\'' || last == 'h' {
        check_large_number(chars, from, to - 1)
    } else {
        false
    }
}

/// Whether the segment `chars[from..to]` is an index.
fn check_index(chars: &Vec<char>, from: usize, to: usize) -> (index: bool)
    requires
        from <= to <= chars.len(),
    ensures
        index == is_index(chars@.subrange(from as int, to as int)),
{
    let ghost seg = chars@.subrange(from as int, to as int);
    if to - from == 1 && chars[from] == 'm' {
        assert(seg =~= seq!['m']);
        false
    } else {
        proof {
            if seg == seq!['m'] {
                assert(seg.len() == 1);
                assert(seg[0] == 'm');
            }
        }
        true
    }
}

/// Why `path` cannot be taken, if it cannot.
pub fn check_path(path: &str) -> (fault: Option<PathFault>)
    ensures
        fault == path_fault(path@),
{
    let chars = chars_of(path);
    let mut start: usize = 0;
    let mut overflowing = false;
    let mut indices: usize = 0;
    let mut i: usize = 0;
    assert(chars@.take(0) =~= Seq::<char>::empty());
    assert(chars@.subrange(0, 0) =~= Seq::<char>::empty());
    assert(split_path(chars@.take(0)).drop_last() =~= Seq::<Seq<char>>::empty());
    while i < chars.len()
        invariant
            start <= i <= chars.len(),
            indices <= i,
            chars@ == path@,
            split_path(chars@.take(i as int)).len() > 0,
            split_path(chars@.take(i as int)).last() == chars@.subrange(start as int, i as int),
            overflowing == any_overflowing(split_path(chars@.take(i as int)).drop_last()),
            indices == count_indices(split_path(chars@.take(i as int)).drop_last()),
        decreases chars.len() - i,
    {
        let ghost before = split_path(chars@.take(i as int));
        let ghost after = split_path(chars@.take(i + 1));
        proof {
            assert(chars@.take(i + 1).drop_last() =~= chars@.take(i as int));
            assert(chars@.take(i + 1).last() == chars@[i as int]);
        }
        if chars[i] == '/' {
            let bad = check_segment(&chars, start, i);
            let index = check_index(&chars, start, i);
            proof {
                assert(after == before.push(Seq::<char>::empty()));
                assert(after.drop_last() =~= before);
                assert(chars@.subrange(i + 1, i + 1) =~= Seq::<char>::empty());
            }
            overflowing = overflowing || bad;
            if index {
                indices += 1;
            }
            start = i + 1;
        } else {
            proof {
                assert(after == before.update(before.len() - 1, before.last().push(chars@[i as int])));
                assert(after.drop_last() =~= before.drop_last());
                assert(chars@.subrange(start as int, i + 1) =~= chars@.subrange(
                    start as int,
                    i as int,
                ).push(chars@[i as int]));
            }
        }
        i += 1;
    }
    let bad = check_segment(&chars, start, i);
    let index = check_index(&chars, start, i);
    proof {
        assert(chars@.take(i as int) =~= chars@);
    }
    if overflowing || bad {
        Some(PathFault::IndexOutOfRange)
    } else if indices >= MAX_DEPTH && (indices > MAX_DEPTH || index) {
        Some(PathFault::TooDeep)
    } else {
        None
    }
}

} // verus!
