//! DXGI adapters: which of them count, and what their descriptions say.
//!
//! The adapters are those that the system lists, in order, up to the first that cannot
//! be read.
use crate::text::opt_text;
use crate::utf::{decode_utf16, utf16_text};
use vstd::prelude::*;
use vstd::slice::slice_subrange;

verus! {

/// PCI vendor ID of NVIDIA.
pub const NVIDIA_VENDOR_ID: u32 = 0x10DE;

/// PCI vendor ID of the Microsoft Basic Render Driver, which has no GPU memory.
pub const MICROSOFT_BASIC_VENDOR_ID: u32 = 0x1414;

/// An adapter as the system describes it.
#[derive(Debug)]
pub struct AdapterDesc {
    /// PCI vendor ID.
    pub vendor_id: u32,
    /// Name in UTF-16, filled up with NULs.
    pub description: Vec<u16>,
    /// Dedicated video memory in bytes.
    pub dedicated_video_memory: u64,
    /// Shared system memory in bytes.
    pub shared_system_memory: u64,
    /// Locally unique identifier: high and low part.
    pub luid: (i32, u32),
    /// Local memory that the process uses; `None` where it cannot be queried.
    pub current_usage: Option<u64>,
}

/// Whether the adapter is an NVIDIA device with memory of its own.
pub open spec fn is_nvidia(a: AdapterDesc) -> bool {
    a.vendor_id == NVIDIA_VENDOR_ID && a.dedicated_video_memory > 0
}

/// Whether the adapter is another device with memory, dedicated or shared.
pub open spec fn is_other_gpu(a: AdapterDesc) -> bool {
    &&& a.vendor_id != NVIDIA_VENDOR_ID
    &&& a.vendor_id != MICROSOFT_BASIC_VENDOR_ID
    &&& a.dedicated_video_memory > 0 || a.shared_system_memory > 0
}

/// The position of NVIDIA adapter number `idx` (from 0) among the adapters.
pub open spec fn nvidia_position(adapters: Seq<AdapterDesc>, idx: nat) -> Option<int>
    decreases adapters.len(),
{
    if adapters.len() == 0 {
        None
    } else if is_nvidia(adapters[0]) && idx == 0 {
        Some(0)
    } else {
        let next = if is_nvidia(adapters[0]) {
            (idx - 1) as nat
        } else {
            idx
        };
        match nvidia_position(adapters.skip(1), next) {
            Some(i) => Some(i + 1),
            None => None,
        }
    }
}

/// The number of NVIDIA adapters.
pub open spec fn nvidia_count(adapters: Seq<AdapterDesc>) -> nat
    decreases adapters.len(),
{
    if adapters.len() == 0 {
        0
    } else {
        nvidia_count(adapters.drop_last()) + if is_nvidia(adapters.last()) {
            1nat
        } else {
            0nat
        }
    }
}

/// A text without the NULs at its end.
pub open spec fn without_nuls(s: Seq<char>) -> Seq<char>
    decreases s.len(),
{
    if s.len() > 0 && s.last() == '\0' {
        without_nuls(s.drop_last())
    } else {
        s
    }
}

/// The adapter's name; `None` where it is empty.
pub open spec fn description_name(units: Seq<u16>) -> Option<Seq<char>> {
    let name = without_nuls(utf16_text(units));
    if name.len() > 0 {
        Some(name)
    } else {
        None
    }
}

fn adapter_is_nvidia(a: &AdapterDesc) -> (r: bool)
    ensures
        r == is_nvidia(*a),
{
    a.vendor_id == NVIDIA_VENDOR_ID && a.dedicated_video_memory > 0
}

/// Decode an adapter's name.
pub fn decode_description(units: &[u16]) -> (r: Option<String>)
    ensures
        opt_text(r) == description_name(units@),
{
    let raw = decode_utf16(units);
    let chars = crate::text::chars_of(raw.as_str());
    let mut n: usize = chars.len();
    assert(chars@.take(n as int) =~= chars@);
    while n > 0 && chars[n - 1] == '\0'
        invariant
            n <= chars@.len(),
            without_nuls(chars@) == without_nuls(chars@.take(n as int)),
        decreases n,
    {
        assert(chars@.take(n as int).last() == chars@[n - 1]);
        assert(chars@.take(n as int).drop_last() =~= chars@.take(n - 1));
        n -= 1;
    }
    assert(n > 0 ==> chars@.take(n as int).last() == chars@[n - 1]);
    if n == 0 {
        None
    } else {
        let name = slice_subrange(chars.as_slice(), 0, n);
        assert(name@ =~= chars@.take(n as int));
        Some(crate::text::string_of(name))
    }
}

/// The position of NVIDIA adapter number `idx` among the adapters.
pub fn find_nvidia(adapters: &Vec<AdapterDesc>, idx: u32) -> (r: Option<usize>)
    ensures
        match r {
            Some(i) => i < adapters@.len() && nvidia_position(adapters@, idx as nat) == Some(i as int)
                && is_nvidia(adapters@[i as int]),
            None => nvidia_position(adapters@, idx as nat) is None,
        },
{
    let mut left: u32 = idx;
    let mut i: usize = 0;
    assert(adapters@.skip(0) =~= adapters@);
    while i < adapters.len()
        invariant
            i <= adapters@.len(),
            nvidia_position(adapters@, idx as nat) == (match nvidia_position(
                adapters@.skip(i as int),
                left as nat,
            ) {
                Some(k) => Some(k + i),
                None => None,
            }),
        decreases adapters@.len() - i,
    {
        assert(adapters@.skip(i as int)[0] == adapters@[i as int]);
        assert(adapters@.skip(i as int).skip(1) =~= adapters@.skip(i + 1));
        if adapter_is_nvidia(&adapters[i]) {
            if left == 0 {
                return Some(i);
            }
            left -= 1;
        }
        i += 1;
    }
    None
}

/// What DXGI says about one NVIDIA adapter.
#[derive(Debug)]
pub struct DxgiQueryResult {
    /// Memory that the process uses, in bytes.
    pub current_usage: u64,
    /// Dedicated memory in bytes.
    pub dedicated_video_memory: u64,
    /// Adapter name.
    pub adapter_name: Option<String>,
}

/// What DXGI says about NVIDIA adapter number `idx`; `None` where there is none or its
/// usage cannot be queried.
pub fn query(adapters: &Vec<AdapterDesc>, idx: u32) -> (r: Option<DxgiQueryResult>)
    ensures
        match nvidia_position(adapters@, idx as nat) {
            Some(i) => {
                let a = adapters@[i];
                &&& r is Some <==> a.current_usage is Some
                &&& r matches Some(q) ==> q.current_usage == a.current_usage->0
                    && q.dedicated_video_memory == a.dedicated_video_memory && opt_text(
                    q.adapter_name,
                ) == description_name(a.description@)
            },
            None => r is None,
        },
{
    match find_nvidia(adapters, idx) {
        None => None,
        Some(i) => match adapters[i].current_usage {
            None => None,
            Some(current_usage) => Some(
                DxgiQueryResult {
                    current_usage,
                    dedicated_video_memory: adapters[i].dedicated_video_memory,
                    adapter_name: decode_description(adapters[i].description.as_slice()),
                },
            ),
        },
    }
}

/// The name of NVIDIA adapter number `idx`.
pub fn adapter_name(adapters: &Vec<AdapterDesc>, idx: u32) -> (r: Option<String>)
    ensures
        opt_text(r) == (match nvidia_position(adapters@, idx as nat) {
            Some(i) => description_name(adapters@[i].description@),
            None => None,
        }),
{
    match find_nvidia(adapters, idx) {
        None => None,
        Some(i) => decode_description(adapters[i].description.as_slice()),
    }
}

/// The identifier of NVIDIA adapter number `idx`.
pub fn adapter_luid(adapters: &Vec<AdapterDesc>, idx: u32) -> (r: Option<(i32, u32)>)
    ensures
        r == (match nvidia_position(adapters@, idx as nat) {
            Some(i) => Some(adapters@[i].luid),
            None => None,
        }),
{
    match find_nvidia(adapters, idx) {
        None => None,
        Some(i) => Some(adapters[i].luid),
    }
}

/// The dedicated memory of NVIDIA adapter number `idx`.
pub fn adapter_dedicated_video_memory(adapters: &Vec<AdapterDesc>, idx: u32) -> (r: Option<u64>)
    ensures
        r == (match nvidia_position(adapters@, idx as nat) {
            Some(i) => Some(adapters@[i].dedicated_video_memory),
            None => None,
        }),
{
    match find_nvidia(adapters, idx) {
        None => None,
        Some(i) => Some(adapters[i].dedicated_video_memory),
    }
}

/// The number of NVIDIA adapters; `None` where DXGI is not available.
pub fn device_count(adapters: &Option<Vec<AdapterDesc>>) -> (r: Option<u32>)
    requires
        adapters matches Some(v) ==> v@.len() <= u32::MAX,
    ensures
        match *adapters {
            Some(v) => r == Some(nvidia_count(v@) as u32),
            None => r is None,
        },
{
    match adapters {
        None => None,
        Some(v) => {
            let mut n: u32 = 0;
            let mut i: usize = 0;
            assert(v@.take(0) =~= seq![]);
            while i < v.len()
                invariant
                    i <= v@.len(),
                    v@.len() <= u32::MAX,
                    n <= i,
                    n == nvidia_count(v@.take(i as int)),
                decreases v@.len() - i,
            {
                assert(v@.take(i + 1).drop_last() =~= v@.take(i as int));
                assert(v@.take(i + 1).last() == v@[i as int]);
                if adapter_is_nvidia(&v[i]) {
                    n += 1;
                }
                i += 1;
            }
            assert(v@.take(i as int) =~= v@);
            Some(n)
        },
    }
}

/// An adapter that is not NVIDIA's.
#[derive(Debug)]
pub struct DxgiAdapterEntry {
    /// Adapter name.
    pub adapter_name: Option<String>,
    /// Memory that the process uses, in bytes; 0 where it cannot be queried.
    pub current_usage: u64,
    /// Dedicated memory in bytes.
    pub dedicated_video_memory: u64,
    /// Shared system memory in bytes.
    pub shared_system_memory: u64,
}

/// Whether an entry describes an adapter.
pub open spec fn entry_describes(e: DxgiAdapterEntry, a: AdapterDesc) -> bool {
    &&& opt_text(e.adapter_name) == description_name(a.description@)
    &&& e.current_usage == (match a.current_usage {
        Some(u) => u,
        None => 0,
    })
    &&& e.dedicated_video_memory == a.dedicated_video_memory
    &&& e.shared_system_memory == a.shared_system_memory
}

/// The adapters that are other GPUs, in order.
pub open spec fn other_gpus(adapters: Seq<AdapterDesc>) -> Seq<AdapterDesc>
    decreases adapters.len(),
{
    if adapters.len() == 0 {
        seq![]
    } else if is_other_gpu(adapters.last()) {
        other_gpus(adapters.drop_last()).push(adapters.last())
    } else {
        other_gpus(adapters.drop_last())
    }
}

/// One entry per adapter that is not NVIDIA's nor the basic render driver and has memory.
pub fn enumerate_non_nvidia(adapters: &Vec<AdapterDesc>) -> (v: Vec<DxgiAdapterEntry>)
    ensures
        v@.len() == other_gpus(adapters@).len(),
        forall|i: int|
            0 <= i < v@.len() ==> entry_describes(#[trigger] v@[i], other_gpus(adapters@)[i]),
{
    let mut v: Vec<DxgiAdapterEntry> = Vec::new();
    let mut i: usize = 0;
    assert(adapters@.take(0) =~= seq![]);
    while i < adapters.len()
        invariant
            i <= adapters@.len(),
            v@.len() == other_gpus(adapters@.take(i as int)).len(),
            forall|k: int|
                0 <= k < v@.len() ==> entry_describes(
                    #[trigger] v@[k],
                    other_gpus(adapters@.take(i as int))[k],
                ),
        decreases adapters@.len() - i,
    {
        let a = &adapters[i];
        assert(adapters@.take(i + 1).drop_last() =~= adapters@.take(i as int));
        assert(adapters@.take(i + 1).last() == *a);
        if a.vendor_id != NVIDIA_VENDOR_ID && a.vendor_id != MICROSOFT_BASIC_VENDOR_ID && (
        a.dedicated_video_memory > 0 || a.shared_system_memory > 0) {
            v.push(
                DxgiAdapterEntry {
                    adapter_name: decode_description(a.description.as_slice()),
                    current_usage: match a.current_usage {
                        Some(u) => u,
                        None => 0,
                    },
                    dedicated_video_memory: a.dedicated_video_memory,
                    shared_system_memory: a.shared_system_memory,
                },
            );
        }
        i += 1;
    }
    assert(adapters@.take(i as int) =~= adapters@);
    v
}

proof fn lemma_nvidia_count_front(adapters: Seq<AdapterDesc>)
    requires
        adapters.len() > 0,
    ensures
        nvidia_count(adapters) == nvidia_count(adapters.skip(1)) + if is_nvidia(adapters[0]) {
            1nat
        } else {
            0nat
        },
    decreases adapters.len(),
{
    if adapters.len() == 1 {
        assert(adapters.skip(1) =~= seq![]);
        assert(adapters.drop_last() =~= seq![]);
    } else {
        lemma_nvidia_count_front(adapters.drop_last());
        assert(adapters.drop_last().skip(1) =~= adapters.skip(1).drop_last());
        assert(adapters.skip(1).last() == adapters.last());
    }
}

/// The indices that DXGI can resolve are exactly those below its device count.
pub proof fn law_count_bounds_index(adapters: Seq<AdapterDesc>, idx: nat)
    ensures
        nvidia_position(adapters, idx) is Some <==> idx < nvidia_count(adapters),
    decreases adapters.len(),
{
    if adapters.len() > 0 {
        lemma_nvidia_count_front(adapters);
        if is_nvidia(adapters[0]) {
            if idx > 0 {
                law_count_bounds_index(adapters.skip(1), (idx - 1) as nat);
            }
        } else {
            law_count_bounds_index(adapters.skip(1), idx);
        }
    }
}

} // verus!
