//! What the disk walker computes from the files it finds: the size of a
//! directory tree and the breakdown of its files by extension.

use vstd::prelude::*;
use crate::ranking::{is_top_ranked, lemma_top_ranked_dominates, lemma_top_ranked_keeps_leaders, top_ranked, SizeKeyed};
use crate::text::{lowercase, to_lowercase};

verus! {

// ── Directory size ───────────────────────────────────────────────────────

/// The sum of a sequence of sizes.
pub open spec fn sizes_sum(s: Seq<u64>) -> nat
    decreases s.len(),
{
    if s.len() == 0 {
        0
    } else {
        sizes_sum(s.drop_last()) + s.last() as nat
    }
}

/// The total size and number of the regular files found under a directory,
/// from the sizes of those files. The total wraps around past `u64::MAX`,
/// as the atomic counter it replaces does.
pub fn dir_size(file_sizes: &Vec<u64>) -> (r: (u64, usize))
    ensures
        r.0 as nat == sizes_sum(file_sizes@) % 0x1_0000_0000_0000_0000,
        r.1 == file_sizes@.len(),
{
    let mut total: u64 = 0;
    let mut i: usize = 0;
    while i < file_sizes.len()
        invariant
            i <= file_sizes.len(),
            total as nat == sizes_sum(file_sizes@.take(i as int)) % 0x1_0000_0000_0000_0000,
        decreases file_sizes.len() - i,
    {
        assert(file_sizes@.take(i + 1).drop_last() =~= file_sizes@.take(i as int));
        let size = file_sizes[i];
        proof {
            let m: int = 0x1_0000_0000_0000_0000;
            let prev: int = sizes_sum(file_sizes@.take(i as int)) as int;
            let x: int = total as int + size as int;
            vstd::arithmetic::div_mod::lemma_add_mod_noop(prev, size as int, m);
            vstd::arithmetic::div_mod::lemma_small_mod(size as nat, m as nat);
            vstd::arithmetic::div_mod::lemma_small_mod(total as nat, m as nat);
            if x < m {
                vstd::arithmetic::div_mod::lemma_small_mod(x as nat, m as nat);
            } else {
                vstd::arithmetic::div_mod::lemma_small_mod((x - m) as nat, m as nat);
                vstd::arithmetic::div_mod::lemma_mod_add_multiples_vanish(x - m, m);
            }
            assert((prev + size) % m == x % m);
        }
        total = total.wrapping_add(size);
        i = i + 1;
    }
    assert(file_sizes@.take(i as int) =~= file_sizes@);
    (total, i)
}

// ── File type breakdown ──────────────────────────────────────────────────

/// A regular file found by the walker: its extension as the path gives it
/// (`None` when the name has none, or it is not valid Unicode) and its
/// size.
#[derive(Debug, Clone)]
pub struct FileRecord {
    pub extension: Option<String>,
    pub size_bytes: u64,
}

/// The total size and number of the files with one extension.
#[derive(Debug, Clone)]
pub struct ExtensionTotal {
    pub extension: String,
    pub total_bytes: u64,
    pub file_count: usize,
}

impl SizeKeyed for ExtensionTotal {
    open spec fn size_key(&self) -> u64 {
        self.total_bytes
    }

    fn key(&self) -> (k: u64) {
        self.total_bytes
    }
}

/// The mathematical content of an [`ExtensionTotal`].
pub struct ExtensionTally {
    pub extension: Seq<char>,
    pub total_bytes: nat,
    pub file_count: nat,
}

pub open spec fn tally_of(t: ExtensionTotal) -> ExtensionTally {
    ExtensionTally {
        extension: t.extension@,
        total_bytes: t.total_bytes as nat,
        file_count: t.file_count as nat,
    }
}

pub open spec fn tallies_of(ts: Seq<ExtensionTotal>) -> Seq<ExtensionTally> {
    ts.map_values(|t: ExtensionTotal| tally_of(t))
}

/// The lower case extension that a file is counted under; files without
/// one are counted under `(no ext)`.
pub open spec fn extension_key(f: FileRecord) -> Seq<char> {
    lowercase(
        match f.extension {
            Some(e) => e@,
            None => "(no ext)"@,
        },
    )
}

/// The position of the tally for extension `ext`, if there is one.
pub open spec fn tally_index(tallies: Seq<ExtensionTally>, ext: Seq<char>) -> Option<int> {
    if exists|i: int| 0 <= i < tallies.len() && tallies[i].extension == ext {
        Some(choose|i: int| 0 <= i < tallies.len() && tallies[i].extension == ext)
    } else {
        None
    }
}

/// The tallies after counting one more file of extension `ext` and `size`
/// bytes: its tally grows, or a new tally is appended.
pub open spec fn count_file(tallies: Seq<ExtensionTally>, ext: Seq<char>, size: nat) -> Seq<
    ExtensionTally,
> {
    match tally_index(tallies, ext) {
        Some(i) => tallies.update(
            i,
            ExtensionTally {
                extension: ext,
                total_bytes: tallies[i].total_bytes + size,
                file_count: tallies[i].file_count + 1,
            },
        ),
        None => tallies.push(ExtensionTally { extension: ext, total_bytes: size, file_count: 1 }),
    }
}

/// The files grouped by extension, in order of first appearance.
pub open spec fn tally_by_extension(files: Seq<FileRecord>) -> Seq<ExtensionTally>
    decreases files.len(),
{
    if files.len() == 0 {
        seq![]
    } else {
        count_file(
            tally_by_extension(files.drop_last()),
            extension_key(files.last()),
            files.last().size_bytes as nat,
        )
    }
}

/// The total size of the files.
pub open spec fn files_total(files: Seq<FileRecord>) -> nat
    decreases files.len(),
{
    if files.len() == 0 {
        0
    } else {
        files_total(files.drop_last()) + files.last().size_bytes as nat
    }
}

/// No extension has two tallies.
pub open spec fn distinct_extensions(tallies: Seq<ExtensionTally>) -> bool {
    forall|i: int, j: int|
        0 <= i < j < tallies.len() ==> #[trigger] tallies[i].extension != #[trigger] tallies[j].extension
}

pub proof fn lemma_files_total_prefix(files: Seq<FileRecord>, i: int)
    requires
        0 <= i <= files.len(),
    ensures
        files_total(files.take(i)) <= files_total(files),
    decreases files.len() - i,
{
    if i < files.len() {
        lemma_files_total_prefix(files, i + 1);
        assert(files.take(i + 1).drop_last() =~= files.take(i));
    } else {
        assert(files.take(i) =~= files);
    }
}

/// The summed size of the tallies.
pub open spec fn tallies_total(tallies: Seq<ExtensionTally>) -> nat
    decreases tallies.len(),
{
    if tallies.len() == 0 {
        0
    } else {
        tallies_total(tallies.drop_last()) + tallies.last().total_bytes
    }
}

/// The summed file count of the tallies.
pub open spec fn tallies_count(tallies: Seq<ExtensionTally>) -> nat
    decreases tallies.len(),
{
    if tallies.len() == 0 {
        0
    } else {
        tallies_count(tallies.drop_last()) + tallies.last().file_count
    }
}

proof fn lemma_tallies_update(tallies: Seq<ExtensionTally>, i: int, t: ExtensionTally)
    requires
        0 <= i < tallies.len(),
    ensures
        tallies_total(tallies.update(i, t)) + tallies[i].total_bytes == tallies_total(tallies)
            + t.total_bytes,
        tallies_count(tallies.update(i, t)) + tallies[i].file_count == tallies_count(tallies)
            + t.file_count,
        tallies[i].total_bytes <= tallies_total(tallies),
    decreases tallies.len(),
{
    let u = tallies.update(i, t);
    if i == tallies.len() - 1 {
        assert(u.drop_last() =~= tallies.drop_last());
    } else {
        lemma_tallies_update(tallies.drop_last(), i, t);
        assert(u.drop_last() =~= tallies.drop_last().update(i, t));
    }
}

/// Counting a file adds its size to the summed size and one to the summed
/// count, and keeps extensions distinct.
proof fn lemma_count_file(tallies: Seq<ExtensionTally>, ext: Seq<char>, size: nat)
    requires
        distinct_extensions(tallies),
    ensures
        distinct_extensions(count_file(tallies, ext, size)),
        tallies_total(count_file(tallies, ext, size)) == tallies_total(tallies) + size,
        tallies_count(count_file(tallies, ext, size)) == tallies_count(tallies) + 1,
{
    let r = count_file(tallies, ext, size);
    match tally_index(tallies, ext) {
        Some(i) => {
            lemma_tallies_update(tallies, i, r[i]);
            assert forall|a: int, b: int| 0 <= a < b < r.len() implies #[trigger] r[a].extension
                != #[trigger] r[b].extension by {
                if a != i && b != i {
                    assert(r[a] == tallies[a] && r[b] == tallies[b]);
                } else if a == i {
                    assert(tallies[a].extension == r[a].extension);
                    assert(r[b] == tallies[b]);
                } else {
                    assert(tallies[b].extension == r[b].extension);
                    assert(r[a] == tallies[a]);
                }
            }
        },
        None => {
            assert(r.drop_last() =~= tallies);
            assert forall|a: int, b: int| 0 <= a < b < r.len() implies #[trigger] r[a].extension
                != #[trigger] r[b].extension by {
                if b == r.len() - 1 {
                    assert(r[a] == tallies[a]);
                } else {
                    assert(r[a] == tallies[a] && r[b] == tallies[b]);
                }
            }
        },
    }
}

/// Grouping by extension loses no file and no byte, and gives each
/// extension a single group.
pub proof fn lemma_tally_by_extension(files: Seq<FileRecord>)
    ensures
        distinct_extensions(tally_by_extension(files)),
        tallies_total(tally_by_extension(files)) == files_total(files),
        tallies_count(tally_by_extension(files)) == files.len(),
    decreases files.len(),
{
    if files.len() > 0 {
        lemma_tally_by_extension(files.drop_last());
        lemma_count_file(
            tally_by_extension(files.drop_last()),
            extension_key(files.last()),
            files.last().size_bytes as nat,
        );
    }
}

fn find_tally(tallies: &Vec<ExtensionTotal>, ext: &String) -> (r: Option<usize>)
    requires
        distinct_extensions(tallies_of(tallies@)),
    ensures
        match r {
            Some(j) => j < tallies.len() && tally_index(tallies_of(tallies@), ext@) == Some(
                j as int,
            ),
            None => tally_index(tallies_of(tallies@), ext@) is None,
        },
{
    let ghost views = tallies_of(tallies@);
    let mut j: usize = 0;
    while j < tallies.len()
        invariant
            j <= tallies.len(),
            views == tallies_of(tallies@),
            distinct_extensions(views),
            forall|k: int| 0 <= k < j ==> #[trigger] views[k].extension != ext@,
        decreases tallies.len() - j,
    {
        if tallies[j].extension == *ext {
            proof {
                assert(views[j as int].extension == ext@);
                let c = choose|i: int| 0 <= i < views.len() && views[i].extension == ext@;
                if c != j {
                    if c < j {
                        assert(views[c].extension != views[j as int].extension);
                    } else {
                        assert(views[j as int].extension != views[c].extension);
                    }
                }
            }
            return Some(j);
        }
        j = j + 1;
    }
    None
}

/// Extension totals are ranked by their total size: the kept types come
/// largest total first, each of them is one of the groups, and a group whose
/// total is strictly larger than that of a kept type is kept too.
pub proof fn lemma_types_ranked_by_total(
    groups: Seq<ExtensionTotal>,
    types: Seq<ExtensionTotal>,
    max: int,
)
    requires
        0 <= max,
        is_top_ranked(groups, types, max, true),
    ensures
        forall|i: int, j: int|
            0 <= i < j < types.len() ==> #[trigger] types[i].total_bytes >= #[trigger] types[j].total_bytes,
        forall|k: int, i: int|
            0 <= k < groups.len() && 0 <= i < types.len() && #[trigger] groups[k].total_bytes
                > #[trigger] types[i].total_bytes ==> types.contains(groups[k]),
        forall|i: int| 0 <= i < types.len() ==> groups.contains(#[trigger] types[i]),
        types.len() == if max < groups.len() {
            max
        } else {
            groups.len() as int
        },
{
    lemma_top_ranked_dominates(groups, types, max, true);
    lemma_top_ranked_keeps_leaders(groups, types, max, true);
    assert forall|i: int, j: int| 0 <= i < j < types.len() implies #[trigger] types[i].total_bytes
        >= #[trigger] types[j].total_bytes by {
        assert(!crate::ranking::ranks_ahead(types[j].size_key(), types[i].size_key(), true));
    }
    assert forall|k: int, i: int|
        0 <= k < groups.len() && 0 <= i < types.len() && #[trigger] groups[k].total_bytes
            > #[trigger] types[i].total_bytes implies types.contains(groups[k]) by {
        assert(crate::ranking::ranks_ahead(groups[k].size_key(), types[i].size_key(), true));
    }
}

/// The file types found, largest total first, with the total size of all
/// files.
pub struct TypeBreakdown {
    pub types: Vec<ExtensionTotal>,
    pub total_bytes: u64,
}

/// Aggregates the files by lower case extension and keeps the
/// `max_results` extensions of largest total size, largest first
/// (extensions of equal total in order of first appearance), together with
/// the total size of all the files.
pub fn file_type_breakdown(files: &Vec<FileRecord>, max_results: usize) -> (r: TypeBreakdown)
    requires
        files_total(files@) <= u64::MAX,
    ensures
        r.total_bytes == files_total(files@),
        exists|groups: Seq<ExtensionTotal>|
            tallies_of(groups) == tally_by_extension(files@) && #[trigger] is_top_ranked(
                groups,
                r.types@,
                max_results as int,
                true,
            ),
        forall|i: int, j: int|
            0 <= i < j < r.types@.len() ==> #[trigger] r.types@[i].total_bytes
                >= #[trigger] r.types@[j].total_bytes,
        forall|i: int|
            0 <= i < r.types@.len() ==> tally_by_extension(files@).contains(
                #[trigger] tally_of(r.types@[i]),
            ),
        forall|k: int, i: int|
            0 <= k < tally_by_extension(files@).len() && 0 <= i < r.types@.len() && #[trigger] tally_by_extension(
                files@,
            )[k].total_bytes > #[trigger] r.types@[i].total_bytes ==> tallies_of(r.types@).contains(
                tally_by_extension(files@)[k],
            ),
        r.types@.len() == if max_results < tally_by_extension(files@).len() {
            max_results as int
        } else {
            tally_by_extension(files@).len() as int
        },
{
    let mut groups: Vec<ExtensionTotal> = Vec::new();
    let mut total: u64 = 0;
    let mut i: usize = 0;
    assert(files@.take(0) =~= Seq::<FileRecord>::empty());
    assert(tallies_of(groups@) =~= Seq::<ExtensionTally>::empty());
    while i < files.len()
        invariant
            i <= files.len(),
            files_total(files@) <= u64::MAX,
            tallies_of(groups@) == tally_by_extension(files@.take(i as int)),
            distinct_extensions(tallies_of(groups@)),
            tallies_total(tallies_of(groups@)) == files_total(files@.take(i as int)),
            total == files_total(files@.take(i as int)),
            forall|k: int| 0 <= k < groups@.len() ==> #[trigger] groups@[k].file_count <= i,
        decreases files.len() - i,
    {
        let ghost before = tallies_of(groups@);
        assert(files@.take(i + 1).drop_last() =~= files@.take(i as int));
        assert(files@.take(i + 1).last() == files@[i as int]);
        proof {
            lemma_files_total_prefix(files@, i + 1);
            lemma_count_file(before, extension_key(files@[i as int]), files@[i as int].size_bytes as nat);
        }
        let ext = match &files[i].extension {
            Some(e) => to_lowercase(e.as_str()),
            None => to_lowercase("(no ext)"),
        };
        let size = files[i].size_bytes;
        total = total + size;
        match find_tally(&groups, &ext) {
            Some(j) => {
                proof {
                    lemma_tallies_update(before, j as int, before[j as int]);
                }
                assert(groups@[j as int].total_bytes + size <= total);
                let new_total = groups[j].total_bytes + size;
                let new_count = groups[j].file_count + 1;
                groups[j].total_bytes = new_total;
                groups[j].file_count = new_count;
                assert(tallies_of(groups@) =~= count_file(before, ext@, size as nat));
            },
            None => {
                groups.push(ExtensionTotal { extension: ext, total_bytes: size, file_count: 1 });
                assert(tallies_of(groups@) =~= count_file(before, ext@, size as nat));
            },
        }
        i = i + 1;
    }
    assert(files@.take(i as int) =~= files@);
    let ghost all_groups = groups@;
    let types = top_ranked(groups, max_results, true);
    let r = TypeBreakdown { types, total_bytes: total };
    proof {
        let tallies = tally_by_extension(files@);
        let kept = r.types@;
        lemma_types_ranked_by_total(all_groups, kept, max_results as int);
        assert forall|i: int| 0 <= i < kept.len() implies tallies.contains(
            #[trigger] tally_of(kept[i]),
        ) by {
            assert(all_groups.contains(kept[i]));
            let p = choose|p: int| 0 <= p < all_groups.len() && all_groups[p] == kept[i];
            assert(tallies[p] == tally_of(all_groups[p]));
        }
        assert forall|k: int, i: int|
            0 <= k < tallies.len() && 0 <= i < kept.len() && #[trigger] tallies[k].total_bytes
                > #[trigger] kept[i].total_bytes implies tallies_of(kept).contains(tallies[k]) by {
            assert(tallies[k] == tally_of(all_groups[k]));
            assert(kept.contains(all_groups[k]));
            let p = choose|p: int| 0 <= p < kept.len() && kept[p] == all_groups[k];
            assert(tallies_of(kept)[p] == tallies[k]);
        }
    }
    assert(tallies_of(all_groups) == tally_by_extension(files@) && is_top_ranked(
        all_groups,
        r.types@,
        max_results as int,
        true,
    ));
    r
}

} // verus!
