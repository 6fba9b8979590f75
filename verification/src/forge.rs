//! The load generator: how much memory it takes, and what it says on the way.
use crate::number::{decimal, parse_unsigned, parsed_unsigned, push_decimal};
use crate::text::chars_of;
use crate::units::GIB;
use vstd::prelude::*;

verus! {

/// Bytes per buffer.
pub const CHUNK: u64 = 268_435_456;

/// A numeric argument, or the default where it is missing or no number.
pub fn argument_or(arg: Option<&str>, default: u64) -> (n: u64)
    ensures
        n == (match arg {
            Some(a) => match parsed_unsigned(a@, 10, u64::MAX as nat) {
                Ok(v) => v,
                Err(_) => default as nat,
            },
            None => default as nat,
        }),
{
    match arg {
        None => default,
        Some(a) => {
            let chars = chars_of(a);
            match parse_unsigned(chars.as_slice(), 10, u64::MAX) {
                Ok(v) => v,
                Err(_) => default,
            }
        },
    }
}

/// The number of buffers for a target in GiB.
pub fn target_chunks(target_gib: u64) -> (n: u64)
    requires
        target_gib * GIB <= u64::MAX,
    ensures
        n == target_gib * 4,
        n * CHUNK == target_gib * GIB,
{
    target_gib * GIB / CHUNK
}

/// The size of buffers in whole GiB.
pub open spec fn chunks_gib(chunks: nat) -> nat {
    chunks * (CHUNK as nat) / (GIB as nat)
}

/// What is said when buffer `i` (from 0) was filled: something at every eighth.
pub open spec fn progress_text(i: nat) -> Option<Seq<char>> {
    if (i + 1) % 8 == 0 {
        Some("spillforge: allocated+uploaded "@ + decimal(chunks_gib(i + 1)) + " GiB"@)
    } else {
        None
    }
}

/// What is said when buffer `i` (from 0) was filled: something at every eighth.
pub fn progress(i: u64) -> (r: Option<String>)
    requires
        (i + 1) * CHUNK <= u64::MAX,
    ensures
        crate::text::opt_text(r) == progress_text(i as nat),
{
    if (i + 1) % 8 == 0 {
        let mut s = String::from_str("spillforge: allocated+uploaded ");
        push_decimal(&mut s, (i + 1) * CHUNK / GIB);
        s.append(" GiB");
        Some(s)
    } else {
        None
    }
}

/// What is said before the buffers are touched in turn.
pub fn churn_notice(chunks: u64, hold_secs: u64) -> (s: String)
    requires
        chunks * CHUNK <= u64::MAX,
    ensures
        s@ == "spillforge: churning "@ + decimal(chunks_gib(chunks as nat))
            + " GiB working set for "@ + decimal(hold_secs as nat) + " s..."@,
{
    let mut s = String::from_str("spillforge: churning ");
    push_decimal(&mut s, chunks * CHUNK / GIB);
    s.append(" GiB working set for ");
    push_decimal(&mut s, hold_secs);
    s.append(" s...");
    s
}

/// The buffer that touch number `i` goes to: each in turn.
pub fn touched_buffer(i: usize, buffers: usize) -> (k: usize)
    requires
        buffers > 0,
    ensures
        k == i % buffers,
        k < buffers,
{
    i % buffers
}

} // verus!
