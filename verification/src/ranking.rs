//! Ranking of measured entries by size: the largest (or smallest) first,
//! entries of equal size in the order in which they were measured.

use vstd::prelude::*;
use crate::types::SizedEntry;

verus! {

/// Values that are ranked by a size in bytes.
pub trait SizeKeyed {
    spec fn size_key(&self) -> u64;

    fn key(&self) -> (k: u64)
        ensures
            k == self.size_key(),
    ;
}

impl SizeKeyed for SizedEntry {
    open spec fn size_key(&self) -> u64 {
        self.size_bytes
    }

    fn key(&self) -> (k: u64) {
        self.size_bytes
    }
}

/// Key `a` ranks strictly ahead of key `b`: it is larger when ranking
/// largest first (`descending`), smaller otherwise.
pub open spec fn ranks_ahead(a: u64, b: u64, descending: bool) -> bool {
    if descending {
        a > b
    } else {
        a < b
    }
}

/// `out` is `input` reordered by `perm` (`out[i]` is `input[perm[i]]`, no
/// index taken twice), ordered by key, with entries of equal key in input
/// order. This is what a stable sort of `input` by key produces.
pub open spec fn is_stable_ranking<T: SizeKeyed>(
    input: Seq<T>,
    out: Seq<T>,
    perm: Seq<int>,
    descending: bool,
) -> bool {
    &&& out.len() == input.len()
    &&& perm.len() == input.len()
    &&& forall|i: int|
        0 <= i < perm.len() ==> 0 <= #[trigger] perm[i] < input.len() && out[i] == input[perm[i]]
    &&& forall|i: int, j: int| 0 <= i < j < perm.len() ==> perm[i] != perm[j]
    &&& forall|i: int, j: int|
        0 <= i < j < out.len() ==> ranks_ahead(
            #[trigger] out[i].size_key(),
            #[trigger] out[j].size_key(),
            descending,
        ) || (out[i].size_key() == out[j].size_key() && perm[i] < perm[j])
}

/// `out` is the first `max` entries (or all, if fewer) of the stable ranking
/// of `input`.
pub open spec fn is_top_ranked<T: SizeKeyed>(
    input: Seq<T>,
    out: Seq<T>,
    max: int,
    descending: bool,
) -> bool {
    exists|full: Seq<T>, perm: Seq<int>|
        #[trigger] is_stable_ranking(input, full, perm, descending) && out == full.take(
            if max < input.len() {
                max
            } else {
                input.len() as int
            },
        )
}

/// Sorts `v` by key, largest first when `descending`, smallest first
/// otherwise; entries of equal key keep their relative order.
pub fn stable_rank<T: SizeKeyed>(v: Vec<T>, descending: bool) -> (out: Vec<T>)
    ensures
        exists|perm: Seq<int>| #[trigger] is_stable_ranking(v@, out@, perm, descending),
{
    let ghost input = v@;
    let mut rest = v;
    let mut out: Vec<T> = Vec::new();
    let ghost mut perm: Seq<int> = Seq::empty();
    while rest.len() > 0
        invariant
            rest@ == input.take(rest@.len() as int),
            rest@.len() <= input.len(),
            out@.len() == input.len() - rest@.len(),
            perm.len() == out@.len(),
            forall|i: int|
                0 <= i < perm.len() ==> rest@.len() <= #[trigger] perm[i] < input.len()
                    && out@[i] == input[perm[i]],
            forall|i: int, j: int| 0 <= i < j < perm.len() ==> perm[i] != perm[j],
            forall|i: int, j: int|
                0 <= i < j < out@.len() ==> ranks_ahead(
                    #[trigger] out@[i].size_key(),
                    #[trigger] out@[j].size_key(),
                    descending,
                ) || (out@[i].size_key() == out@[j].size_key() && perm[i] < perm[j]),
        decreases rest@.len(),
    {
        let ghost k: int = rest@.len() - 1;
        let x = rest.pop().unwrap();
        assert(x == input[k]);
        assert(rest@ =~= input.take(k));
        let xk = x.key();
        let mut pos: usize = 0;
        while pos < out.len() && ranks_ahead_exec(out[pos].key(), xk, descending)
            invariant
                pos <= out@.len(),
                forall|p: int| 0 <= p < pos ==> ranks_ahead(#[trigger] out@[p].size_key(), xk, descending),
            decreases out@.len() - pos,
        {
            pos = pos + 1;
        }
        let ghost old_out = out@;
        let ghost old_perm = perm;
        assert(pos < old_out.len() ==> !ranks_ahead(old_out[pos as int].size_key(), xk, descending));
        out.insert(pos, x);
        proof {
            perm = old_perm.insert(pos as int, k);
            old_out.insert_ensures(pos as int, x);
            old_perm.insert_ensures(pos as int, k);
            assert forall|i: int|
                0 <= i < perm.len() implies k <= #[trigger] perm[i] < input.len() && out@[i]
                == input[perm[i]] by {
                if i < pos {
                } else if i == pos {
                } else {
                    assert(perm[i] == old_perm[i - 1]);
                    assert(out@[i] == old_out[i - 1]);
                }
            }
            assert forall|i: int, j: int| 0 <= i < j < perm.len() implies perm[i] != perm[j] by {
                if i < pos && j < pos {
                } else if i < pos && j == pos {
                    assert(old_perm[i] >= k + 1);
                } else if i < pos {
                    assert(perm[j] == old_perm[j - 1]);
                } else if i == pos {
                    assert(perm[j] == old_perm[j - 1]);
                    assert(old_perm[j - 1] >= k + 1);
                } else {
                    assert(perm[i] == old_perm[i - 1]);
                    assert(perm[j] == old_perm[j - 1]);
                }
            }
            assert forall|i: int, j: int| 0 <= i < j < out@.len() implies ranks_ahead(
                #[trigger] out@[i].size_key(),
                #[trigger] out@[j].size_key(),
                descending,
            ) || (out@[i].size_key() == out@[j].size_key() && perm[i] < perm[j]) by {
                if i < pos && j < pos {
                } else if i < pos && j == pos {
                    assert(out@[i] == old_out[i]);
                    assert(ranks_ahead(old_out[i].size_key(), xk, descending));
                } else if i < pos {
                    assert(out@[i] == old_out[i]);
                    assert(out@[j] == old_out[j - 1]);
                    assert(perm[j] == old_perm[j - 1]);
                } else if i == pos {
                    assert(out@[j] == old_out[j - 1]);
                    assert(perm[j] == old_perm[j - 1]);
                    assert(old_perm[j - 1] >= k + 1);
                    if j - 1 > pos {
                        // old_out[pos] ranks no lower than old_out[j - 1]
                        assert(ranks_ahead(old_out[pos as int].size_key(), old_out[j - 1].size_key(), descending)
                            || old_out[pos as int].size_key() == old_out[j - 1].size_key());
                    }
                } else {
                    assert(out@[i] == old_out[i - 1]);
                    assert(out@[j] == old_out[j - 1]);
                    assert(perm[i] == old_perm[i - 1]);
                    assert(perm[j] == old_perm[j - 1]);
                }
            }
        }
    }
    assert(exists|perm: Seq<int>| #[trigger] is_stable_ranking(input, out@, perm, descending)) by {
        assert(is_stable_ranking(input, out@, perm, descending));
    }
    out
}

fn ranks_ahead_exec(a: u64, b: u64, descending: bool) -> (r: bool)
    ensures
        r == ranks_ahead(a, b, descending),
{
    if descending {
        a > b
    } else {
        a < b
    }
}

/// The first `max_results` entries of the stable ranking of `v`.
pub fn top_ranked<T: SizeKeyed>(v: Vec<T>, max_results: usize, descending: bool) -> (out: Vec<T>)
    ensures
        is_top_ranked(v@, out@, max_results as int, descending),
{
    let ghost input = v@;
    let mut out = stable_rank(v, descending);
    let ghost full = out@;
    out.truncate(max_results);
    proof {
        let perm = choose|perm: Seq<int>| #[trigger] is_stable_ranking(input, full, perm, descending);
        let n: int = if max_results < input.len() {
            max_results as int
        } else {
            input.len() as int
        };
        assert(out@ =~= full.take(n));
        assert(is_stable_ranking(input, full, perm, descending) && out@ == full.take(n));
    }
    out
}

/// The children of a directory, largest first, at most `max_results` of
/// them. Children of equal size keep the order in which they were listed.
pub fn scan_children(children: Vec<SizedEntry>, max_results: usize) -> (out: Vec<SizedEntry>)
    ensures
        is_top_ranked(children@, out@, max_results as int, true),
        forall|i: int, j: int|
            0 <= i < j < out@.len() ==> #[trigger] out@[i].size_bytes >= #[trigger] out@[j].size_bytes,
        forall|k: int, i: int|
            0 <= k < children@.len() && 0 <= i < out@.len() && #[trigger] children@[k].size_bytes >
                #[trigger] out@[i].size_bytes ==> out@.contains(children@[k]),
        forall|i: int| 0 <= i < out@.len() ==> children@.contains(#[trigger] out@[i]),
        out@.len() == if max_results < children@.len() {
            max_results as int
        } else {
            children@.len() as int
        },
{
    let ghost input = children@;
    let out = top_ranked(children, max_results, true);
    proof {
        lemma_entries_ranked_by_bytes(input, out@, max_results as int, true);
    }
    out
}

/// The `max_results` largest of the measured files, largest first. Files
/// of equal size keep the order in which they were found.
pub fn find_largest_files(files: Vec<SizedEntry>, max_results: usize) -> (out: Vec<SizedEntry>)
    ensures
        is_top_ranked(files@, out@, max_results as int, true),
        forall|i: int, j: int|
            0 <= i < j < out@.len() ==> #[trigger] out@[i].size_bytes >= #[trigger] out@[j].size_bytes,
        forall|k: int, i: int|
            0 <= k < files@.len() && 0 <= i < out@.len() && #[trigger] files@[k].size_bytes >
                #[trigger] out@[i].size_bytes ==> out@.contains(files@[k]),
        forall|i: int| 0 <= i < out@.len() ==> files@.contains(#[trigger] out@[i]),
        out@.len() == if max_results < files@.len() {
            max_results as int
        } else {
            files@.len() as int
        },
{
    let ghost input = files@;
    let out = top_ranked(files, max_results, true);
    proof {
        lemma_entries_ranked_by_bytes(input, out@, max_results as int, true);
    }
    out
}

/// The `max_results` smallest of the measured files, smallest first. Files
/// of equal size keep the order in which they were found.
pub fn find_smallest_files(files: Vec<SizedEntry>, max_results: usize) -> (out: Vec<SizedEntry>)
    ensures
        is_top_ranked(files@, out@, max_results as int, false),
        forall|i: int, j: int|
            0 <= i < j < out@.len() ==> #[trigger] out@[i].size_bytes <= #[trigger] out@[j].size_bytes,
        forall|k: int, i: int|
            0 <= k < files@.len() && 0 <= i < out@.len() && #[trigger] files@[k].size_bytes <
                #[trigger] out@[i].size_bytes ==> out@.contains(files@[k]),
        forall|i: int| 0 <= i < out@.len() ==> files@.contains(#[trigger] out@[i]),
        out@.len() == if max_results < files@.len() {
            max_results as int
        } else {
            files@.len() as int
        },
{
    let ghost input = files@;
    let out = top_ranked(files, max_results, false);
    proof {
        lemma_entries_ranked_by_bytes(input, out@, max_results as int, false);
    }
    out
}

/// The summed size of the entries.
pub open spec fn entries_size(es: Seq<SizedEntry>) -> nat
    decreases es.len(),
{
    if es.len() == 0 {
        0
    } else {
        entries_size(es.drop_last()) + es.last().size_bytes as nat
    }
}

proof fn lemma_entries_size_prefix(es: Seq<SizedEntry>, i: int)
    requires
        0 <= i <= es.len(),
    ensures
        entries_size(es.take(i)) <= entries_size(es),
    decreases es.len() - i,
{
    if i < es.len() {
        lemma_entries_size_prefix(es, i + 1);
        assert(es.take(i + 1).drop_last() =~= es.take(i));
    } else {
        assert(es.take(i) =~= es);
    }
}

/// The total size of a folder listing.
pub fn entries_total(entries: &Vec<SizedEntry>) -> (total: u64)
    requires
        entries_size(entries@) <= u64::MAX,
    ensures
        total == entries_size(entries@),
{
    let mut total: u64 = 0;
    let mut i: usize = 0;
    while i < entries.len()
        invariant
            i <= entries.len(),
            entries_size(entries@) <= u64::MAX,
            total == entries_size(entries@.take(i as int)),
        decreases entries.len() - i,
    {
        assert(entries@.take(i + 1).drop_last() =~= entries@.take(i as int));
        proof {
            lemma_entries_size_prefix(entries@, i + 1);
        }
        total = total + entries[i].size_bytes;
        i = i + 1;
    }
    assert(entries@.take(i as int) =~= entries@);
    total
}

// ── Laws ─────────────────────────────────────────────────────────────────

/// An injective arrangement of the positions `0..n` covers all of them.
proof fn lemma_perm_onto(perm: Seq<int>, n: int)
    requires
        perm.len() == n,
        forall|i: int| 0 <= i < n ==> 0 <= #[trigger] perm[i] < n,
        forall|i: int, j: int| 0 <= i < j < n ==> perm[i] != perm[j],
    ensures
        forall|a: int| 0 <= a < n ==> #[trigger] perm.contains(a),
{
    assert(perm.no_duplicates()) by {
        assert forall|i: int, j: int| 0 <= i < perm.len() && 0 <= j < perm.len() && i != j implies perm[i]
            != perm[j] by {
            if i > j {
                assert(perm[j] != perm[i]);
            }
        }
    }
    perm.unique_seq_to_set();
    vstd::set_lib::lemma_int_range(0, n);
    let range = vstd::set_lib::set_int_range(0, n);
    assert(perm.to_set().subset_of(range));
    vstd::set_lib::lemma_len_subset(perm.to_set(), range);
    vstd::set_lib::lemma_subset_equality(perm.to_set(), range);
    assert forall|a: int| 0 <= a < n implies #[trigger] perm.contains(a) by {
        assert(range.contains(a));
        assert(perm.to_set().contains(a));
    }
}

proof fn lemma_rankings_agree_up_to<T: SizeKeyed>(
    input: Seq<T>,
    out1: Seq<T>,
    perm1: Seq<int>,
    out2: Seq<T>,
    perm2: Seq<int>,
    descending: bool,
    i: int,
)
    requires
        is_stable_ranking(input, out1, perm1, descending),
        is_stable_ranking(input, out2, perm2, descending),
        forall|a: int| 0 <= a < input.len() ==> #[trigger] perm1.contains(a),
        forall|a: int| 0 <= a < input.len() ==> #[trigger] perm2.contains(a),
        0 <= i < input.len(),
    ensures
        forall|k: int| 0 <= k <= i ==> perm1[k] == perm2[k],
    decreases i,
{
    if i > 0 {
        lemma_rankings_agree_up_to(input, out1, perm1, out2, perm2, descending, i - 1);
    }
    let a = perm1[i];
    let b = perm2[i];
    if a != b {
        assert(perm2.contains(a));
        assert(perm1.contains(b));
        let j2 = choose|j: int| 0 <= j < input.len() && #[trigger] perm2[j] == a;
        let j1 = choose|j: int| 0 <= j < input.len() && #[trigger] perm1[j] == b;
        if j2 < i {
            assert(perm1[j2] == perm2[j2]);
            assert(perm1[j2] != perm1[i]);
        }
        if j1 < i {
            assert(perm2[j1] == perm1[j1]);
            assert(perm2[j1] != perm2[i]);
        }
        assert(j2 > i && j1 > i);
        assert(out2[i] == input[b] && out2[j2] == input[a]);
        assert(out1[i] == input[a] && out1[j1] == input[b]);
        let ka = input[a].size_key();
        let kb = input[b].size_key();
        assert(ranks_ahead(out2[i].size_key(), out2[j2].size_key(), descending) || (
        out2[i].size_key() == out2[j2].size_key() && perm2[i] < perm2[j2]));
        assert(ranks_ahead(out1[i].size_key(), out1[j1].size_key(), descending) || (
        out1[i].size_key() == out1[j1].size_key() && perm1[i] < perm1[j1]));
        assert(false);
    }
}

/// A stable ranking is unique: the input alone determines the arrangement,
/// so the contracts of [`stable_rank`] and [`top_ranked`] pin their result
/// down.
pub proof fn lemma_stable_ranking_unique<T: SizeKeyed>(
    input: Seq<T>,
    out1: Seq<T>,
    perm1: Seq<int>,
    out2: Seq<T>,
    perm2: Seq<int>,
    descending: bool,
)
    requires
        is_stable_ranking(input, out1, perm1, descending),
        is_stable_ranking(input, out2, perm2, descending),
    ensures
        perm1 == perm2,
        out1 == out2,
{
    let n = input.len() as int;
    lemma_perm_onto(perm1, n);
    lemma_perm_onto(perm2, n);
    if n > 0 {
        lemma_rankings_agree_up_to(input, out1, perm1, out2, perm2, descending, n - 1);
    }
    assert(perm1 =~= perm2);
    assert forall|i: int| 0 <= i < n implies out1[i] == out2[i] by {
        assert(out1[i] == input[perm1[i]]);
        assert(out2[i] == input[perm2[i]]);
    }
    assert(out1 =~= out2);
}

/// What a top ranking keeps: `min(max, n)` entries, each taken from the
/// input, in ranking order, and none of the entries left out ranks ahead of
/// any kept one.
pub proof fn lemma_top_ranked_dominates<T: SizeKeyed>(
    input: Seq<T>,
    out: Seq<T>,
    max: int,
    descending: bool,
)
    requires
        0 <= max,
        is_top_ranked(input, out, max, descending),
    ensures
        out.len() == if max < input.len() {
            max
        } else {
            input.len() as int
        },
        forall|i: int| 0 <= i < out.len() ==> #[trigger] input.contains(out[i]),
        forall|i: int, j: int|
            0 <= i < j < out.len() ==> !ranks_ahead(
                #[trigger] out[j].size_key(),
                #[trigger] out[i].size_key(),
                descending,
            ),
        exists|full: Seq<T>, perm: Seq<int>|
            #[trigger] is_stable_ranking(input, full, perm, descending) && out == full.take(out.len() as int)
                && forall|i: int, j: int|
                0 <= i < out.len() <= j < full.len() ==> !ranks_ahead(
                    #[trigger] full[j].size_key(),
                    #[trigger] full[i].size_key(),
                    descending,
                ),
{
    let (full, perm) = choose|full: Seq<T>, perm: Seq<int>|
        #[trigger] is_stable_ranking(input, full, perm, descending) && out == full.take(
            if max < input.len() {
                max
            } else {
                input.len() as int
            },
        );
    assert forall|i: int| 0 <= i < out.len() implies #[trigger] input.contains(out[i]) by {
        assert(out[i] == full[i]);
        assert(full[i] == input[perm[i]]);
    }
    assert forall|i: int, j: int| 0 <= i < j < out.len() implies !ranks_ahead(
        #[trigger] out[j].size_key(),
        #[trigger] out[i].size_key(),
        descending,
    ) by {
        assert(out[i] == full[i] && out[j] == full[j]);
        assert(ranks_ahead(full[i].size_key(), full[j].size_key(), descending) || full[i].size_key()
            == full[j].size_key());
    }
    assert forall|i: int, j: int| 0 <= i < out.len() <= j < full.len() implies !ranks_ahead(
        #[trigger] full[j].size_key(),
        #[trigger] full[i].size_key(),
        descending,
    ) by {
        assert(ranks_ahead(full[i].size_key(), full[j].size_key(), descending) || full[i].size_key()
            == full[j].size_key());
    }
    assert(is_stable_ranking(input, full, perm, descending) && out == full.take(out.len() as int));
}

/// Every input entry that ranks strictly ahead of a kept entry is kept too,
/// and the kept entries come in ranking order.
pub proof fn lemma_top_ranked_keeps_leaders<T: SizeKeyed>(
    input: Seq<T>,
    out: Seq<T>,
    max: int,
    descending: bool,
)
    requires
        0 <= max,
        is_top_ranked(input, out, max, descending),
    ensures
        forall|i: int, j: int|
            0 <= i < j < out.len() ==> !ranks_ahead(
                #[trigger] out[j].size_key(),
                #[trigger] out[i].size_key(),
                descending,
            ),
        forall|k: int, i: int|
            0 <= k < input.len() && 0 <= i < out.len() && ranks_ahead(
                #[trigger] input[k].size_key(),
                #[trigger] out[i].size_key(),
                descending,
            ) ==> out.contains(input[k]),
{
    lemma_top_ranked_dominates(input, out, max, descending);
    let (full, perm) = choose|full: Seq<T>, perm: Seq<int>|
        #[trigger] is_stable_ranking(input, full, perm, descending) && out == full.take(
            if max < input.len() {
                max
            } else {
                input.len() as int
            },
        );
    lemma_perm_onto(perm, input.len() as int);
    assert forall|k: int, i: int|
        0 <= k < input.len() && 0 <= i < out.len() && ranks_ahead(
            #[trigger] input[k].size_key(),
            #[trigger] out[i].size_key(),
            descending,
        ) implies out.contains(input[k]) by {
        assert(perm.contains(k));
        let p = choose|p: int| 0 <= p < perm.len() && #[trigger] perm[p] == k;
        assert(full[p] == input[k]);
        assert(out[i] == full[i]);
        if p >= out.len() {
            assert(ranks_ahead(full[i].size_key(), full[p].size_key(), descending) || (
            full[i].size_key() == full[p].size_key() && perm[i] < perm[p]));
            assert(false);
        }
        assert(out[p] == input[k]);
    }
}

/// Measured entries are ranked by their size in bytes: largest first when
/// `descending` (smallest first otherwise), and an entry strictly larger
/// (smaller) than a kept one is never left out.
pub proof fn lemma_entries_ranked_by_bytes(
    input: Seq<SizedEntry>,
    out: Seq<SizedEntry>,
    max: int,
    descending: bool,
)
    requires
        0 <= max,
        is_top_ranked(input, out, max, descending),
    ensures
        forall|i: int, j: int|
            0 <= i < j < out.len() ==> if descending {
                out[i].size_bytes >= out[j].size_bytes
            } else {
                out[i].size_bytes <= out[j].size_bytes
            },
        forall|k: int, i: int|
            0 <= k < input.len() && 0 <= i < out.len() && (if descending {
                input[k].size_bytes > out[i].size_bytes
            } else {
                input[k].size_bytes < out[i].size_bytes
            }) ==> out.contains(input[k]),
        forall|i: int| 0 <= i < out.len() ==> input.contains(#[trigger] out[i]),
        out.len() == if max < input.len() {
            max
        } else {
            input.len() as int
        },
{
    lemma_top_ranked_dominates(input, out, max, descending);
    lemma_top_ranked_keeps_leaders(input, out, max, descending);
    assert forall|i: int, j: int| 0 <= i < j < out.len() implies if descending {
        out[i].size_bytes >= out[j].size_bytes
    } else {
        out[i].size_bytes <= out[j].size_bytes
    } by {
        assert(!ranks_ahead(out[j].size_key(), out[i].size_key(), descending));
    }
    assert forall|k: int, i: int|
        0 <= k < input.len() && 0 <= i < out.len() && (if descending {
            input[k].size_bytes > out[i].size_bytes
        } else {
            input[k].size_bytes < out[i].size_bytes
        }) implies out.contains(input[k]) by {
        assert(ranks_ahead(input[k].size_key(), out[i].size_key(), descending));
    }
}

} // verus!
