//! Windows over lists, lengths of texts, and derived identifiers.

use vstd::prelude::*;
use std::ops::Range;
use crate::types::{CallContext, Error, TaskId};

verus! {

/// Checks that exactly one unit is attached to the call.
pub fn assert_one_yocto(ctx: &CallContext) -> (r: Result<(), Error>)
    ensures
        r == (if ctx.attached_deposit == 1 {
            Ok::<(), Error>(())
        } else {
            Err::<(), Error>(Error::Validation)
        }),
{
    if ctx.attached_deposit == 1 {
        Ok(())
    } else {
        Err(Error::Validation)
    }
}

/// Where the window of a newest-first listing starts: `limit + from_index`
/// places before the end of the list, or at its start.
pub open spec fn window_start(len: u64, from_index: u64, limit: u64) -> u64 {
    if len > limit + from_index {
        (len - limit - from_index) as u64
    } else {
        0
    }
}

/// Where the window of a newest-first listing ends: `from_index` places
/// before the end of the list, or at its start.
pub open spec fn window_end(len: u64, from_index: u64) -> u64 {
    if len > from_index {
        (len - from_index) as u64
    } else {
        0
    }
}

/// The positions of a list of `len` entries that a newest-first listing shows
/// when it skips the `from_index` newest entries and shows at most `limit`.
pub fn calculate_rev_limit(len: u64, from_index: u64, limit: u64) -> (r: Range<u64>)
    ensures
        r.start == window_start(len, from_index, limit),
        r.end == window_end(len, from_index),
        r.start <= r.end <= len,
        r.end - r.start <= limit,
{
    let to = if len > from_index {
        len - from_index
    } else {
        0
    };
    let from = if to > limit {
        to - limit
    } else {
        0
    };
    from..to
}

/// How many bytes a text takes in UTF-8, as a machine word.
pub open spec fn byte_len(text: Seq<char>) -> usize {
    vstd::utf8::encode_utf8(text).len() as usize
}

/// The decimal digit for `d`.
pub open spec fn digit(d: nat) -> char {
    if d == 0 {
        '0'
    } else if d == 1 {
        '1'
    } else if d == 2 {
        '2'
    } else if d == 3 {
        '3'
    } else if d == 4 {
        '4'
    } else if d == 5 {
        '5'
    } else if d == 6 {
        '6'
    } else if d == 7 {
        '7'
    } else if d == 8 {
        '8'
    } else {
        '9'
    }
}

/// `n` written in decimal, without leading zeros.
pub open spec fn decimal(n: nat) -> Seq<char>
    decreases n,
{
    if n < 10 {
        seq![digit(n)]
    } else {
        decimal(n / 10).push(digit(n % 10))
    }
}

/// The identifier of the task that `owner` posts under sequence number `seq`.
pub open spec fn task_id_of(owner: Seq<char>, seq: u64) -> Seq<char> {
    owner + seq!['_'] + decimal(seq as nat)
}

fn digit_text(d: u64) -> (s: &'static str)
    requires
        d < 10,
    ensures
        s@ == seq![digit(d as nat)],
{
    proof {
        reveal_strlit("0");
        reveal_strlit("1");
        reveal_strlit("2");
        reveal_strlit("3");
        reveal_strlit("4");
        reveal_strlit("5");
        reveal_strlit("6");
        reveal_strlit("7");
        reveal_strlit("8");
        reveal_strlit("9");
    }
    let s = if d == 0 {
        "0"
    } else if d == 1 {
        "1"
    } else if d == 2 {
        "2"
    } else if d == 3 {
        "3"
    } else if d == 4 {
        "4"
    } else if d == 5 {
        "5"
    } else if d == 6 {
        "6"
    } else if d == 7 {
        "7"
    } else if d == 8 {
        "8"
    } else {
        "9"
    };
    assert(s@ =~= seq![digit(d as nat)]);
    s
}

/// Writes `n` in decimal.
pub fn to_decimal(n: u64) -> (s: String)
    ensures
        s@ == decimal(n as nat),
{
    let mut s = String::from_str(digit_text(n % 10));
    let mut m: u64 = n / 10;
    proof {
        if m > 0 {
            assert(decimal(n as nat) =~= decimal(m as nat) + s@);
        }
    }
    while m > 0
        invariant
            m > 0 ==> decimal(n as nat) == decimal(m as nat) + s@,
            m == 0 ==> decimal(n as nat) == s@,
        decreases m,
    {
        let head = String::from_str(digit_text(m % 10));
        let ghost tail = s@;
        s = head.concat(s.as_str());
        proof {
            if m >= 10 {
                assert(decimal(m as nat) + tail =~= decimal((m / 10) as nat) + s@);
            } else {
                assert(decimal(m as nat) + tail =~= s@);
            }
        }
        m = m / 10;
    }
    s
}

/// Derives the identifier of the task that `owner` posts under sequence
/// number `seq`.
pub fn make_task_id(owner: &String, seq: u64) -> (id: TaskId)
    ensures
        id@ == task_id_of(owner@, seq),
{
    proof {
        reveal_strlit("_");
    }
    let number = to_decimal(seq);
    let id = owner.clone().concat("_").concat(number.as_str());
    assert("_"@ =~= seq!['_']);
    id
}

/// How many bytes `text` takes.
pub fn text_len(text: &String) -> (n: usize)
    ensures
        n == byte_len(text@),
{
    text.as_str().len()
}

} // verus!
