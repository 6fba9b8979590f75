//! What the instance names of the performance counters are read as.
use crate::gpu::pdh::{
    luid_tail, multi_string, parse_adapter_instance_name, parse_instance_name, parse_multi_string,
    unit_words,
};
use crate::number::{decimal, hex8_upper, hex_char_upper, law_decimal_round_trip};
use crate::text::{has_prefix, stripped_prefix, texts};
use crate::text_laws::{law_decimal_digits, law_eight_hex_digits, law_nul_ends, law_split_at_first};
use crate::utf::utf16_text;
use vstd::prelude::*;

verus! {

/// The name of an adapter's instance: high and low part of the identifier in hexadecimal,
/// and the segment.
pub open spec fn adapter_name_of(high: nat, low: nat, segment: nat) -> Seq<char> {
    "luid_0x"@ + (hex8_upper(high) + "_0x"@ + (hex8_upper(low) + "_phys_"@ + decimal(segment)))
}

/// The name of a process's instance: the process, and the adapter's instance.
pub open spec fn process_name_of(pid: nat, high: nat, low: nat, segment: nat) -> Seq<char> {
    "pid_"@ + (decimal(pid) + "_"@ + adapter_name_of(high, low, segment))
}

proof fn lemma_hex_has_no_underscore(n: nat)
    ensures
        forall|k: int| 0 <= k < 8 ==> #[trigger] hex8_upper(n)[k] != '_',
        hex8_upper(n).len() == 8,
{
    assert forall|k: int| 0 <= k < 8 implies #[trigger] hex8_upper(n)[k] != '_' by {
        assert(forall|d: nat| d < 16 ==> #[trigger] hex_char_upper(d) != '_');
    }
}

proof fn lemma_prefix_is_stripped(p: Seq<char>, s: Seq<char>)
    ensures
        stripped_prefix(p + s, p) == Some(s),
{
    assert((p + s).take(p.len() as int) =~= p);
    assert((p + s).skip(p.len() as int) =~= s);
}

proof fn lemma_adapter_name(high: nat, low: nat, segment: nat)
    requires
        high <= u32::MAX,
        low <= u32::MAX,
        segment <= u32::MAX,
    ensures
        luid_tail(adapter_name_of(high, low, segment)) matches Some((luid, seg)) && luid.0 == (
        if high < 0x8000_0000 {
            high as int
        } else {
            high - 0x1_0000_0000
        }) && luid.1 == low && seg == segment,
{
    let tail = decimal(segment);
    let second = hex8_upper(low) + "_phys_"@ + tail;
    let first = hex8_upper(high) + "_0x"@ + second;
    reveal_strlit("_0x");
    reveal_strlit("_phys_");
    lemma_prefix_is_stripped("luid_0x"@, first);
    lemma_hex_has_no_underscore(high);
    lemma_hex_has_no_underscore(low);
    law_split_at_first(hex8_upper(high), "_0x"@, second);
    law_split_at_first(hex8_upper(low), "_phys_"@, tail);
    law_eight_hex_digits(high, u32::MAX as nat);
    law_eight_hex_digits(low, u32::MAX as nat);
    law_decimal_round_trip(segment, u32::MAX as nat);
}

/// The instance name of an adapter is read as what it is made of: the high part with its
/// sign, the low part and the segment.
pub proof fn law_adapter_instance_name(
    high: nat,
    low: nat,
    segment: nat,
    name: &str,
    r: Option<((i32, u32), u32)>,
)
    requires
        call_ensures(parse_adapter_instance_name, (name,), r),
        high <= u32::MAX,
        low <= u32::MAX,
        segment <= u32::MAX,
        name@ == adapter_name_of(high, low, segment),
    ensures
        r is Some,
        high < 0x8000_0000 ==> ((r->0).0).0 == high,
        high >= 0x8000_0000 ==> ((r->0).0).0 == high - 0x1_0000_0000,
        ((r->0).0).1 == low,
        (r->0).1 == segment,
{
    lemma_adapter_name(high, low, segment);
}

/// The instance name of a process is read as what it is made of: the process, the high part
/// of the identifier with its sign, the low part and the segment.
pub proof fn law_process_instance_name(
    pid: nat,
    high: nat,
    low: nat,
    segment: nat,
    name: &str,
    r: Option<(u32, (i32, u32), u32)>,
)
    requires
        call_ensures(parse_instance_name, (name,), r),
        pid <= u32::MAX,
        high <= u32::MAX,
        low <= u32::MAX,
        segment <= u32::MAX,
        name@ == process_name_of(pid, high, low, segment),
    ensures
        r is Some,
        (r->0).0 == pid,
        high < 0x8000_0000 ==> ((r->0).1).0 == high,
        high >= 0x8000_0000 ==> ((r->0).1).0 == high - 0x1_0000_0000,
        ((r->0).1).1 == low,
        (r->0).2 == segment,
{
    let adapter = adapter_name_of(high, low, segment);
    reveal_strlit("_");
    lemma_adapter_name(high, low, segment);
    lemma_prefix_is_stripped("pid_"@, decimal(pid) + "_"@ + adapter);
    law_decimal_digits(pid);
    let d = decimal(pid);
    assert forall|k: int| 0 <= k < d.len() implies d[k] != "_"@[0] by {
        assert('0' as u32 <= d[k] as u32 <= '9' as u32);
    }
    law_split_at_first(d, "_"@, adapter);
    law_decimal_round_trip(pid, u32::MAX as nat);
}

/// A name that starts otherwise is no instance of an adapter, or of a process.
pub proof fn law_other_names_are_no_instances(
    name: &str,
    a: Option<((i32, u32), u32)>,
    p: Option<(u32, (i32, u32), u32)>,
)
    requires
        call_ensures(parse_adapter_instance_name, (name,), a),
        call_ensures(parse_instance_name, (name,), p),
    ensures
        !has_prefix(name@, "luid_0x"@) ==> a is None,
        !has_prefix(name@, "pid_"@) ==> p is None,
{
}

/// Whether units hold no NUL.
pub open spec fn is_word(w: Seq<u16>) -> bool {
    w.len() > 0 && forall|k: int| 0 <= k < w.len() ==> #[trigger] w[k] != 0
}

/// A word and a NUL at the front of a buffer are its first name; a NUL alone is no name; a
/// word at the end needs no NUL.
pub proof fn law_names_of_buffer(w: Seq<u16>, rest: Seq<u16>)
    requires
        is_word(w),
    ensures
        multi_string(w + seq![0u16] + rest) == seq![utf16_text(w)] + multi_string(rest),
        multi_string(seq![0u16] + rest) == multi_string(rest),
        multi_string(w) == seq![utf16_text(w)],
        multi_string(Seq::<u16>::empty()) == Seq::<Seq<char>>::empty(),
{
    let u = w + seq![0u16] + rest;
    let n = w.len() as int;
    assert forall|k: int| 0 <= k < n implies u[k] != 0 by {
        assert(u[k] == w[k]);
    }
    law_nul_ends(u, n);
    assert(u.take(n) =~= w);
    assert(u.skip(n + 1) =~= rest);
    assert(unit_words(u) == seq![w] + unit_words(rest));
    assert(multi_string(u) =~= seq![utf16_text(w)] + multi_string(rest));
    let z = seq![0u16] + rest;
    law_nul_ends(z, 0);
    assert(z.skip(1) =~= rest);
    assert(multi_string(z) =~= multi_string(rest));
    law_nul_ends(w, n);
    assert(unit_words(w) == seq![w]);
    assert(multi_string(w) =~= seq![utf16_text(w)]);
    assert(multi_string(Seq::<u16>::empty()) =~= Seq::<Seq<char>>::empty());
}

/// The names of a buffer are read by that.
pub proof fn law_first_name_of_buffer(w: Seq<u16>, rest: Seq<u16>, buf: &[u16], v: Vec<String>)
    requires
        call_ensures(parse_multi_string, (buf,), v),
        is_word(w),
        buf@ == w + seq![0u16] + rest,
    ensures
        v@.len() == 1 + multi_string(rest).len(),
        v@[0]@ == utf16_text(w),
{
    law_names_of_buffer(w, rest);
    assert(texts(v@).len() == v@.len());
    assert(texts(v@)[0] == v@[0]@);
}

} // verus!
