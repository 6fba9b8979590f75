//! The process listing.
use crate::sort::{sorted, stable_sort, Ranked};
use crate::text::{
    clone_opt, lemma_text_order_equal, lemma_text_order_swaps, lemma_text_order_transitive,
    opt_text, opt_text_order, order_names,
};
use std::cmp::Ordering;
use vstd::prelude::*;

verus! {

/// One row of the listing.
#[derive(Debug)]
pub struct PsRow {
    /// Process ID.
    pub pid: u32,
    /// Process name, where one was found.
    pub name: Option<String>,
    /// GPU memory in bytes.
    pub used_bytes: u64,
    /// Resident shared memory in bytes.
    pub shared_used_bytes: u64,
    /// Zero-based device index.
    pub device_index: u32,
    /// Device name, where one was found.
    pub device_name: Option<String>,
}

impl Clone for PsRow {
    fn clone(&self) -> (r: Self)
        ensures
            r == *self,
    {
        PsRow {
            pid: self.pid,
            name: clone_opt(&self.name),
            used_bytes: self.used_bytes,
            shared_used_bytes: self.shared_used_bytes,
            device_index: self.device_index,
            device_name: clone_opt(&self.device_name),
        }
    }
}

/// What the listing is sorted by, largest first.
#[derive(Debug, Clone, Copy, PartialEq, Eq, Structural)]
pub enum SortKey {
    /// GPU memory.
    Dedicated,
    /// Resident shared memory.
    Shared,
    /// Both together.
    Total,
}

// ---------------------------------------------------------------------------
// Order
// ---------------------------------------------------------------------------

/// The figure that a row is sorted by.
pub open spec fn sort_value(key: SortKey, r: PsRow) -> u64 {
    match key {
        SortKey::Dedicated => r.used_bytes,
        SortKey::Shared => r.shared_used_bytes,
        SortKey::Total => if r.used_bytes + r.shared_used_bytes > u64::MAX {
            u64::MAX
        } else {
            (r.used_bytes + r.shared_used_bytes) as u64
        },
    }
}

/// How two rows with the given figures compare: by the figure, largest first, then by
/// name, then by process ID. Negative when `a` comes first.
pub open spec fn rank_order(va: u64, a: PsRow, vb: u64, b: PsRow) -> int {
    if va > vb {
        -1
    } else if va < vb {
        1
    } else if opt_text_order(opt_text(a.name), opt_text(b.name)) != 0 {
        opt_text_order(opt_text(a.name), opt_text(b.name))
    } else if a.pid < b.pid {
        -1
    } else if a.pid > b.pid {
        1
    } else {
        0
    }
}

/// How two rows compare under a key. Negative when `a` comes first.
pub open spec fn row_order(key: SortKey, a: PsRow, b: PsRow) -> int {
    rank_order(sort_value(key, a), a, sort_value(key, b), b)
}

fn value_for(key: SortKey, r: &PsRow) -> (v: u64)
    ensures
        v == sort_value(key, *r),
{
    match key {
        SortKey::Dedicated => r.used_bytes,
        SortKey::Shared => r.shared_used_bytes,
        SortKey::Total => r.used_bytes.saturating_add(r.shared_used_bytes),
    }
}

fn rank(va: u64, a: &PsRow, vb: u64, b: &PsRow) -> (r: i32)
    ensures
        r == rank_order(va, *a, vb, *b),
{
    if va > vb {
        return -1;
    }
    if va < vb {
        return 1;
    }
    let n = order_names(&a.name, &b.name);
    if n != 0 {
        n
    } else if a.pid < b.pid {
        -1
    } else if a.pid > b.pid {
        1
    } else {
        0
    }
}

/// How two rows compare under a key, largest first, then by name, then by process ID.
pub fn ps_row_comparator(key: SortKey, a: &PsRow, b: &PsRow) -> (o: Ordering)
    ensures
        o == (if row_order(key, *a, *b) < 0 {
            Ordering::Less
        } else if row_order(key, *a, *b) > 0 {
            Ordering::Greater
        } else {
            Ordering::Equal
        }),
{
    let r = rank(value_for(key, a), a, value_for(key, b), b);
    if r < 0 {
        Ordering::Less
    } else if r > 0 {
        Ordering::Greater
    } else {
        Ordering::Equal
    }
}

/// A row with the figure that it is sorted by.
pub struct RankedRow {
    /// The figure.
    pub value: u64,
    /// The row.
    pub row: PsRow,
}

proof fn lemma_opt_order(a: Option<Seq<char>>, b: Option<Seq<char>>)
    ensures
        opt_text_order(a, b) == -opt_text_order(b, a),
        opt_text_order(a, b) == 0 <==> a == b,
{
    if a is Some && b is Some {
        lemma_text_order_swaps(a->0, b->0);
        lemma_text_order_equal(a->0, b->0);
    }
}

proof fn lemma_opt_order_transitive(
    a: Option<Seq<char>>,
    b: Option<Seq<char>>,
    c: Option<Seq<char>>,
)
    requires
        opt_text_order(a, b) <= 0,
        opt_text_order(b, c) <= 0,
    ensures
        opt_text_order(a, c) <= 0,
        opt_text_order(a, c) == 0 ==> opt_text_order(a, b) == 0 && opt_text_order(b, c) == 0,
{
    if a is Some && b is Some && c is Some {
        lemma_text_order_transitive(a->0, b->0, c->0);
    }
}

impl Ranked for RankedRow {
    open spec fn le(&self, other: &Self) -> bool {
        rank_order(self.value, self.row, other.value, other.row) <= 0
    }

    proof fn le_total(a: &Self, b: &Self) {
        lemma_opt_order(opt_text(a.row.name), opt_text(b.row.name));
    }

    proof fn le_transitive(a: &Self, b: &Self, c: &Self) {
        let x = opt_text(a.row.name);
        let y = opt_text(b.row.name);
        let z = opt_text(c.row.name);
        lemma_opt_order(x, y);
        lemma_opt_order(y, z);
        if opt_text_order(x, y) <= 0 && opt_text_order(y, z) <= 0 {
            lemma_opt_order_transitive(x, y, z);
        }
    }

    fn not_after(&self, other: &Self) -> (r: bool) {
        rank(self.value, &self.row, other.value, &other.row) <= 0
    }
}

/// The rows with their figures.
pub open spec fn ranked(rows: Seq<PsRow>, key: SortKey) -> Seq<RankedRow> {
    rows.map_values(|r: PsRow| RankedRow { value: sort_value(key, r), row: r })
}

/// The rows in display order: a stable sort by the key.
pub open spec fn in_display_order(rows: Seq<PsRow>, key: SortKey) -> Seq<PsRow> {
    sorted(ranked(rows, key)).map_values(|r: RankedRow| r.row)
}

/// Sort the rows for display.
pub fn sort_rows(rows: Vec<PsRow>, key: SortKey) -> (out: Vec<PsRow>)
    ensures
        out@ == in_display_order(rows@, key),
{
    let ghost all = rows@;
    let mut keyed: Vec<RankedRow> = Vec::new();
    for row in it: rows
        invariant
            it.seq() == all,
            keyed@.len() == it.index(),
            forall|k: int| 0 <= k < keyed@.len() ==> #[trigger] keyed@[k] == ranked(all, key)[k],
    {
        let value = value_for(key, &row);
        keyed.push(RankedRow { value, row });
    }
    assert(keyed@ =~= ranked(all, key));
    let done = stable_sort(keyed);
    let ghost order = done@;
    let mut out: Vec<PsRow> = Vec::new();
    for r in it: done
        invariant
            it.seq() == order,
            out@.len() == it.index(),
            forall|k: int| 0 <= k < out@.len() ==> #[trigger] out@[k] == order[k].row,
    {
        out.push(r.row);
    }
    assert(out@ =~= in_display_order(all, key));
    out
}

/// In display order no row stands behind one that it precedes, under the key that the
/// rows were sorted by.
pub proof fn law_display_order(rows: Seq<PsRow>, key: SortKey)
    ensures
        in_display_order(rows, key).len() == rows.len(),
        forall|i: int, j: int|
            0 <= i <= j < rows.len() ==> row_order(
                key,
                #[trigger] in_display_order(rows, key)[i],
                #[trigger] in_display_order(rows, key)[j],
            ) <= 0,
{
    let s = ranked(rows, key);
    crate::sort::law_sorted_is_in_order(s);
    lemma_ranked_values(rows, key);
    let out = in_display_order(rows, key);
    assert forall|i: int, j: int| 0 <= i <= j < rows.len() implies row_order(
        key,
        #[trigger] out[i],
        #[trigger] out[j],
    ) <= 0 by {
        assert(sorted(s)[i].le(&sorted(s)[j]));
    }
}

/// Every row of the sorted sequence carries its own figure.
proof fn lemma_ranked_values(rows: Seq<PsRow>, key: SortKey)
    ensures
        forall|i: int|
            0 <= i < sorted(ranked(rows, key)).len() ==> (#[trigger] sorted(
                ranked(rows, key),
            )[i]).value == sort_value(key, sorted(ranked(rows, key))[i].row),
    decreases rows.len(),
{
    if rows.len() > 0 {
        let init = rows.drop_last();
        lemma_ranked_values(init, key);
        assert(ranked(rows, key).drop_last() =~= ranked(init, key));
        lemma_inserted_values(sorted(ranked(init, key)), ranked(rows, key).last(), key);
    } else {
        assert(ranked(rows, key) =~= seq![]);
    }
}

proof fn lemma_inserted_values(s: Seq<RankedRow>, x: RankedRow, key: SortKey)
    requires
        forall|i: int| 0 <= i < s.len() ==> (#[trigger] s[i]).value == sort_value(key, s[i].row),
        x.value == sort_value(key, x.row),
    ensures
        forall|i: int|
            0 <= i < crate::sort::inserted(s, x).len() ==> (#[trigger] crate::sort::inserted(
                s,
                x,
            )[i]).value == sort_value(key, crate::sort::inserted(s, x)[i].row),
    decreases s.len(),
{
    if s.len() > 0 && !s.last().le(&x) {
        let init = s.drop_last();
        assert forall|i: int| 0 <= i < init.len() implies (#[trigger] init[i]).value == sort_value(
            key,
            init[i].row,
        ) by {
            assert(s[i] == init[i]);
        }
        assert(s[s.len() - 1].value == sort_value(key, s.last().row));
        lemma_inserted_values(init, x, key);
    }
}

/// The rows without their figures.
pub open spec fn plain(s: Seq<RankedRow>) -> Seq<PsRow> {
    s.map_values(|r: RankedRow| r.row)
}

proof fn lemma_inserted_rows(s: Seq<RankedRow>, x: RankedRow)
    ensures
        plain(crate::sort::inserted(s, x)).to_multiset() == plain(s).to_multiset().insert(x.row),
    decreases s.len(),
{
    broadcast use vstd::seq_lib::group_to_multiset_ensures;

    if s.len() == 0 || s.last().le(&x) {
        assert(plain(s.push(x)) =~= plain(s).push(x.row));
    } else {
        let init = s.drop_last();
        lemma_inserted_rows(init, x);
        let u = crate::sort::inserted(init, x);
        assert(plain(u.push(s.last())) =~= plain(u).push(s.last().row));
        assert(plain(s) =~= plain(init).push(s.last().row));
        assert(plain(s).to_multiset().insert(x.row) =~= plain(init).to_multiset().insert(
            x.row,
        ).insert(s.last().row));
    }
}

/// Display order neither adds nor loses a row.
pub proof fn law_display_keeps_rows(rows: Seq<PsRow>, key: SortKey)
    ensures
        in_display_order(rows, key).to_multiset() == rows.to_multiset(),
    decreases rows.len(),
{
    broadcast use vstd::seq_lib::group_to_multiset_ensures;

    if rows.len() > 0 {
        let init = rows.drop_last();
        law_display_keeps_rows(init, key);
        assert(ranked(rows, key).drop_last() =~= ranked(init, key));
        lemma_inserted_rows(sorted(ranked(init, key)), ranked(rows, key).last());
        assert(in_display_order(init, key) =~= plain(sorted(ranked(init, key))));
        assert(in_display_order(rows, key) =~= plain(sorted(ranked(rows, key))));
        assert(rows =~= init.push(rows.last()));
    } else {
        assert(in_display_order(rows, key) =~= rows);
    }
}

/// Rows with equal figures are ordered alike under every key: by name, then by process ID.
pub proof fn law_ties_break_alike(k1: SortKey, k2: SortKey, a: PsRow, b: PsRow)
    requires
        sort_value(k1, a) == sort_value(k1, b),
        sort_value(k2, a) == sort_value(k2, b),
    ensures
        row_order(k1, a, b) == row_order(k2, a, b),
{
}

/// The process IDs of rows.
pub open spec fn pids_of(rows: Seq<PsRow>) -> Seq<u32> {
    rows.map_values(|r: PsRow| r.pid)
}

/// The first `n` of a sequence; all where there are fewer.
pub open spec fn at_most<T>(s: Seq<T>, n: nat) -> Seq<T> {
    if n <= s.len() {
        s.take(n as int)
    } else {
        s
    }
}

/// The processes with the most GPU memory, at most `n`, in the order of the listing.
pub fn select_top_n_pids(rows: &[PsRow], n: usize) -> (v: Vec<u32>)
    ensures
        v@ == at_most(pids_of(in_display_order(rows@, SortKey::Dedicated)), n as nat),
{
    let mut copy: Vec<PsRow> = Vec::new();
    let mut i: usize = 0;
    while i < rows.len()
        invariant
            i <= rows@.len(),
            copy@ == rows@.take(i as int),
        decreases rows@.len() - i,
    {
        copy.push(rows[i].clone());
        i += 1;
        assert(copy@ =~= rows@.take(i as int));
    }
    assert(rows@.take(i as int) =~= rows@);
    let order = sort_rows(copy, SortKey::Dedicated);
    let mut v: Vec<u32> = Vec::new();
    let mut k: usize = 0;
    while k < order.len() && k < n
        invariant
            k <= order@.len(),
            k <= n,
            v@ == pids_of(order@).take(k as int),
        decreases order@.len() - k,
    {
        v.push(order[k].pid);
        k += 1;
        assert(v@ =~= pids_of(order@).take(k as int));
    }
    assert(v@ =~= at_most(pids_of(order@), n as nat));
    v
}

/// The processes selected are the first of the listing sorted by GPU memory.
pub proof fn law_top_n_is_prefix(rows: Seq<PsRow>, n: nat, m: nat)
    requires
        n <= m <= rows.len(),
    ensures
        at_most(pids_of(in_display_order(rows, SortKey::Dedicated)), n) == at_most(
            pids_of(in_display_order(rows, SortKey::Dedicated)),
            m,
        ).take(n as int),
{
    law_display_order(rows, SortKey::Dedicated);
    let p = pids_of(in_display_order(rows, SortKey::Dedicated));
    assert(at_most(p, n) =~= at_most(p, m).take(n as int));
}

/// No process left out of a selection holds more GPU memory than one in it.
pub proof fn law_selected_hold_most(rows: Seq<PsRow>, n: nat)
    requires
        n <= rows.len(),
    ensures
        forall|i: int, j: int|
            0 <= i < n && n <= j < rows.len() ==> (#[trigger] in_display_order(
                rows,
                SortKey::Dedicated,
            )[i]).used_bytes >= (#[trigger] in_display_order(
                rows,
                SortKey::Dedicated,
            )[j]).used_bytes,
{
    law_display_order(rows, SortKey::Dedicated);
    let d = in_display_order(rows, SortKey::Dedicated);
    assert forall|i: int, j: int| 0 <= i < n && n <= j < rows.len() implies (
    #[trigger] d[i]).used_bytes >= (#[trigger] d[j]).used_bytes by {
        assert(row_order(SortKey::Dedicated, d[i], d[j]) <= 0);
    }
}

} // verus!
