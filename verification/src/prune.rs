//! Which files leave the preview cache when it has grown too large.

use vstd::prelude::*;

verus! {

/// The most files that the preview cache keeps.
pub const PREVIEW_CACHE_MAX_FILES: usize = 30;

/// The most bytes that the files of the preview cache hold together.
pub const PREVIEW_CACHE_MAX_TOTAL_BYTES: u64 = 80 * 1024 * 1024;

/// What a file system tells of a file.
#[derive(Clone, Copy, Debug)]
pub struct FileMetadata {
    /// When the file was last written, in nanoseconds since the Unix epoch, where the
    /// platform knows it.
    pub modified: Option<i128>,
    /// The length of the file in bytes.
    pub len: u64,
}

/// One entry of the listing of the cache directory.
#[derive(Clone, Copy, Debug)]
pub struct DirEntry {
    pub is_file: bool,
    /// `None` where the metadata cannot be read.
    pub metadata: Option<FileMetadata>,
}

impl DirEntry {
    /// Whether the entry takes part in pruning: it is a file, and its metadata is known.
    pub open spec fn counted(self) -> bool {
        self.is_file && self.metadata is Some
    }

    /// When the file was last written; the epoch where that is not known.
    pub open spec fn written(self) -> int {
        match self.metadata {
            Some(FileMetadata { modified: Some(time), .. }) => time as int,
            _ => 0,
        }
    }

    /// The length of the file.
    pub open spec fn bytes(self) -> nat {
        match self.metadata {
            Some(metadata) => metadata.len as nat,
            None => 0,
        }
    }
}

/// Whether entry `i` goes before entry `j`: it was written earlier or, written at the same
/// time, is listed earlier.
pub open spec fn older(entries: Seq<DirEntry>, i: int, j: int) -> bool {
    entries[i].written() < entries[j].written() || (entries[i].written() == entries[j].written()
        && i < j)
}

/// Whether `removed` names entry `i`.
pub open spec fn names(removed: Seq<usize>, i: int) -> bool {
    exists|k: int| 0 <= k < removed.len() && #[trigger] removed[k] == i
}

/// Whether entry `i` is a file of the cache that `removed` leaves in place.
pub open spec fn kept(entries: Seq<DirEntry>, removed: Seq<usize>, i: int) -> bool {
    entries[i].counted() && !names(removed, i)
}

/// How many files stay when those named by `removed` are gone.
pub open spec fn kept_files(entries: Seq<DirEntry>, removed: Seq<usize>) -> nat
    decreases entries.len(),
{
    if entries.len() == 0 {
        0
    } else {
        let i = entries.len() - 1;
        kept_files(entries.drop_last(), removed) + (if kept(entries, removed, i) {
            1nat
        } else {
            0nat
        })
    }
}

/// How many bytes stay when the files named by `removed` are gone.
pub open spec fn kept_bytes(entries: Seq<DirEntry>, removed: Seq<usize>) -> nat
    decreases entries.len(),
{
    if entries.len() == 0 {
        0
    } else {
        let i = entries.len() - 1;
        kept_bytes(entries.drop_last(), removed) + (if kept(entries, removed, i) {
            entries[i].bytes()
        } else {
            0nat
        })
    }
}

/// Whether the cache is within its limits when the files named by `removed` are gone.
pub open spec fn fits(entries: Seq<DirEntry>, removed: Seq<usize>) -> bool {
    kept_files(entries, removed) <= PREVIEW_CACHE_MAX_FILES && kept_bytes(entries, removed)
        <= PREVIEW_CACHE_MAX_TOTAL_BYTES
}

/// Whether `plan` names the files to remove, in the order of removal: the oldest first, as
/// many as it takes for the cache to be within its limits, and none more.
pub open spec fn is_prune_plan(entries: Seq<DirEntry>, plan: Seq<usize>) -> bool {
    &&& forall|k: int| #![trigger plan[k]]
        0 <= k < plan.len() ==> plan[k] < entries.len() && entries[plan[k] as int].counted()
    &&& forall|j: int, k: int|
        0 <= j < k < plan.len() ==> older(
            entries,
            #[trigger] plan[j] as int,
            #[trigger] plan[k] as int,
        )
    &&& forall|i: int, k: int|
        0 <= i < entries.len() && (#[trigger] entries[i]).counted() && 0 <= k < plan.len() && older(
            entries,
            i,
            #[trigger] plan[k] as int,
        ) ==> names(plan, i)
    &&& fits(entries, plan)
    &&& plan.len() > 0 ==> !fits(entries, plan.drop_last())
}

/// With one more entry named, that entry is named besides those named before.
proof fn lemma_names_one_more(removed: Seq<usize>, i: usize)
    ensures
        forall|j: int| #[trigger]
            names(removed.push(i), j) == (names(removed, j) || j == i),
{
    let more = removed.push(i);
    assert forall|j: int| #[trigger] names(more, j) == (names(removed, j) || j == i) by {
        if names(removed, j) {
            let k = choose|k: int| 0 <= k < removed.len() && #[trigger] removed[k] == j;
            assert(more[k] == j);
        }
        if j == i {
            assert(more[removed.len() as int] == j);
        }
        if names(more, j) && j != i {
            let k = choose|k: int| 0 <= k < more.len() && #[trigger] more[k] == j;
            assert(removed[k] == j);
        }
    }
}

/// With one more file removed, one file less stays, and its bytes are gone.
proof fn lemma_remove_one(entries: Seq<DirEntry>, removed: Seq<usize>, i: usize)
    ensures
        i < entries.len() && kept(entries, removed, i as int) ==> {
            &&& kept_files(entries, removed.push(i)) + 1 == kept_files(entries, removed)
            &&& kept_bytes(entries, removed.push(i)) + entries[i as int].bytes() == kept_bytes(
                entries,
                removed,
            )
        },
        i >= entries.len() ==> {
            &&& kept_files(entries, removed.push(i)) == kept_files(entries, removed)
            &&& kept_bytes(entries, removed.push(i)) == kept_bytes(entries, removed)
        },
    decreases entries.len(),
{
    let more = removed.push(i);
    lemma_names_one_more(removed, i);
    if entries.len() > 0 {
        lemma_remove_one(entries.drop_last(), removed, i);
        let last = entries.len() - 1;
        assert(kept(entries, more, last) == (kept(entries, removed, last) && last != i));
        if i < last {
            assert(kept(entries.drop_last(), removed, i as int) == kept(entries, removed, i as int));
        }
    }
}

/// Where no file stays, no bytes stay.
proof fn lemma_no_files_no_bytes(entries: Seq<DirEntry>, removed: Seq<usize>)
    requires
        kept_files(entries, removed) == 0,
    ensures
        kept_bytes(entries, removed) == 0,
    decreases entries.len(),
{
    if entries.len() > 0 {
        lemma_no_files_no_bytes(entries.drop_last(), removed);
    }
}

/// The first entries hold no more bytes than all of them.
proof fn lemma_bytes_grow(entries: Seq<DirEntry>, removed: Seq<usize>, n: int)
    requires
        0 <= n <= entries.len(),
    ensures
        kept_bytes(entries.take(n), removed) <= kept_bytes(entries, removed),
    decreases entries.len() - n,
{
    if n < entries.len() {
        lemma_bytes_grow(entries, removed, n + 1);
        assert(entries.take(n + 1).drop_last() == entries.take(n));
    } else {
        assert(entries.take(n) == entries);
    }
}

/// The files of the cache, the oldest first, and how many bytes they hold together.
fn oldest_first(entries: &Vec<DirEntry>) -> (listing: (Vec<usize>, u64))
    requires
        kept_bytes(entries@, Seq::empty()) <= u64::MAX,
    ensures
        forall|k: int| #![trigger listing.0@[k]]
            0 <= k < listing.0@.len() ==> listing.0@[k] < entries@.len()
                && entries@[listing.0@[k] as int].counted(),
        forall|j: int, k: int|
            0 <= j < k < listing.0@.len() ==> older(
                entries@,
                #[trigger] listing.0@[j] as int,
                #[trigger] listing.0@[k] as int,
            ),
        forall|i: int|
            0 <= i < entries@.len() && (#[trigger] entries@[i]).counted() ==> names(listing.0@, i),
        listing.0@.len() == kept_files(entries@, Seq::empty()),
        listing.1 == kept_bytes(entries@, Seq::empty()),
{
    let ghost none = Seq::<usize>::empty();
    let mut order: Vec<usize> = Vec::new();
    let mut total: u64 = 0;
    let mut i: usize = 0;
    while i < entries.len()
        invariant
            i <= entries@.len(),
            none == Seq::<usize>::empty(),
            kept_bytes(entries@, none) <= u64::MAX,
            forall|k: int| #![trigger order@[k]]
                0 <= k < order@.len() ==> order@[k] < i && entries@[order@[k] as int].counted(),
            forall|j: int, k: int|
                0 <= j < k < order@.len() ==> older(
                    entries@,
                    #[trigger] order@[j] as int,
                    #[trigger] order@[k] as int,
                ),
            forall|m: int| 0 <= m < i && (#[trigger] entries@[m]).counted() ==> names(order@, m),
            order@.len() == kept_files(entries@.take(i as int), none),
            total == kept_bytes(entries@.take(i as int), none),
        decreases entries@.len() - i,
    {
        let entry = entries[i];
        proof {
            lemma_bytes_grow(entries@, none, i + 1);
            assert(entries@.take(i + 1).drop_last() == entries@.take(i as int));
            assert(kept(entries@.take(i + 1), none, i as int) == entry.counted());
        }
        if entry.is_file {
            if let Some(metadata) = entry.metadata {
                let written: i128 = match metadata.modified {
                    Some(time) => time,
                    None => 0,
                };
                let mut at: usize = order.len();
                while at > 0 && written < written_at(entries, order[at - 1])
                    invariant
                        at <= order@.len(),
                        i < entries@.len(),
                        written == entries@[i as int].written(),
                        forall|k: int| #![trigger order@[k]]
                            0 <= k < order@.len() ==> order@[k] < i
                                && entries@[order@[k] as int].counted(),
                        forall|k: int|
                            at <= k < order@.len() ==> written
                                < entries@[#[trigger] order@[k] as int].written(),
                    decreases at,
                {
                    at = at - 1;
                }
                let ghost before = order@;
                order.insert(at, i);
                total = total + metadata.len;
                proof {
                    assert(order@[at as int] == i);
                    assert forall|j: int, k: int| 0 <= j < k < order@.len() implies older(
                        entries@,
                        #[trigger] order@[j] as int,
                        #[trigger] order@[k] as int,
                    ) by {
                        if k == at && j < at - 1 {
                            assert(older(entries@, before[j] as int, before[at - 1] as int));
                        }
                    }
                    assert forall|m: int|
                        0 <= m < i + 1 && (#[trigger] entries@[m]).counted() implies names(
                        order@,
                        m,
                    ) by {
                        if m < i {
                            assert(names(before, m));
                            let k = choose|k: int|
                                0 <= k < before.len() && #[trigger] before[k] == m;
                            if k < at {
                                assert(order@[k] == m);
                            } else {
                                assert(order@[k + 1] == m);
                            }
                        }
                    }
                }
            }
        }
        i = i + 1;
    }
    assert(entries@.take(entries@.len() as int) == entries@);
    (order, total)
}

fn written_at(entries: &Vec<DirEntry>, i: usize) -> (written: i128)
    requires
        i < entries@.len(),
    ensures
        written == entries@[i as int].written(),
{
    match entries[i].metadata {
        Some(metadata) => match metadata.modified {
            Some(time) => time,
            None => 0,
        },
        None => 0,
    }
}

/// Names the files to remove from the preview cache, in the order of removal.
pub fn prune_preview_cache(entries: &Vec<DirEntry>) -> (plan: Vec<usize>)
    requires
        kept_bytes(entries@, Seq::empty()) <= u64::MAX,
    ensures
        is_prune_plan(entries@, plan@),
{
    let (mut order, mut total) = oldest_first(entries);
    let ghost all = order@;
    let mut n: usize = 0;
    assert(all.take(0) == Seq::<usize>::empty());
    while order.len() - n > PREVIEW_CACHE_MAX_FILES || total > PREVIEW_CACHE_MAX_TOTAL_BYTES
        invariant
            order@ == all,
            n <= all.len(),
            forall|k: int| #![trigger all[k]]
                0 <= k < all.len() ==> all[k] < entries@.len() && entries@[all[k] as int].counted(),
            forall|j: int, k: int|
                0 <= j < k < all.len() ==> older(
                    entries@,
                    #[trigger] all[j] as int,
                    #[trigger] all[k] as int,
                ),
            all.len() - n == kept_files(entries@, all.take(n as int)),
            total == kept_bytes(entries@, all.take(n as int)),
            n > 0 ==> !fits(entries@, all.take(n - 1)),
        decreases all.len() - n,
    {
        proof {
            if n == all.len() {
                lemma_no_files_no_bytes(entries@, all.take(n as int));
            }
        }
        let i: usize = order[n];
        proof {
            assert(!names(all.take(n as int), i as int)) by {
                if names(all.take(n as int), i as int) {
                    let k = choose|k: int|
                        0 <= k < n && #[trigger] all.take(n as int)[k] == i;
                    assert(older(entries@, all[k] as int, all[n as int] as int));
                }
            }
            lemma_remove_one(entries@, all.take(n as int), i);
            assert(all.take(n as int).push(i) == all.take(n + 1));
        }
        total = total - len_at(entries, i);
        n = n + 1;
    }
    order.truncate(n);
    proof {
        assert(order@ == all.take(n as int));
        assert forall|i: int, k: int|
            0 <= i < entries@.len() && (#[trigger] entries@[i]).counted() && 0 <= k < order@.len()
                && older(entries@, i, #[trigger] order@[k] as int) implies names(order@, i) by {
            let m = choose|m: int| 0 <= m < all.len() && #[trigger] all[m] == i;
            if k < m {
                assert(older(entries@, all[k] as int, all[m] as int));
            }
            assert(order@[m] == i);
        }
        if n > 0 {
            assert(order@.drop_last() == all.take(n - 1));
        }
    }
    order
}

fn len_at(entries: &Vec<DirEntry>, i: usize) -> (len: u64)
    requires
        i < entries@.len(),
    ensures
        len == entries@[i as int].bytes(),
{
    match entries[i].metadata {
        Some(metadata) => metadata.len,
        None => 0,
    }
}

/// Where more is removed, no more stays.
proof fn lemma_fewer_kept(entries: Seq<DirEntry>, less: Seq<usize>, more: Seq<usize>)
    requires
        forall|i: int| names(less, i) ==> names(more, i),
    ensures
        kept_files(entries, more) <= kept_files(entries, less),
        kept_bytes(entries, more) <= kept_bytes(entries, less),
    decreases entries.len(),
{
    if entries.len() > 0 {
        lemma_fewer_kept(entries.drop_last(), less, more);
    }
}

/// Two plans agree as far as both go.
proof fn lemma_plans_agree(entries: Seq<DirEntry>, p: Seq<usize>, q: Seq<usize>, k: int)
    requires
        is_prune_plan(entries, p),
        is_prune_plan(entries, q),
        0 <= k < p.len(),
        k < q.len(),
    ensures
        p[k] == q[k],
    decreases k,
{
    assert forall|j: int| 0 <= j < k implies p[j] == q[j] by {
        lemma_plans_agree(entries, p, q, j);
    }
    let a = p[k] as int;
    let b = q[k] as int;
    if older(entries, a, b) {
        assert(entries[a].counted());
        let m = choose|m: int| 0 <= m < q.len() && #[trigger] q[m] == a;
        if m < k {
            assert(older(entries, p[m] as int, p[k] as int));
        } else if m > k {
            assert(older(entries, q[k] as int, q[m] as int));
        }
    } else if older(entries, b, a) {
        assert(entries[b].counted());
        let m = choose|m: int| 0 <= m < p.len() && #[trigger] p[m] == b;
        if m < k {
            assert(older(entries, q[m] as int, q[k] as int));
        } else if m > k {
            assert(older(entries, p[k] as int, p[m] as int));
        }
    }
}

/// No plan stops before another does.
proof fn lemma_plan_not_shorter(entries: Seq<DirEntry>, p: Seq<usize>, q: Seq<usize>)
    requires
        is_prune_plan(entries, p),
        is_prune_plan(entries, q),
    ensures
        q.len() <= p.len(),
{
    if p.len() < q.len() {
        let shorter = q.drop_last();
        assert forall|i: int| names(p, i) implies names(shorter, i) by {
            let k = choose|k: int| 0 <= k < p.len() && #[trigger] p[k] == i;
            lemma_plans_agree(entries, p, q, k);
            assert(shorter[k] == i);
        }
        lemma_fewer_kept(entries, p, shorter);
    }
}

/// A listing of the cache directory admits exactly one plan.
pub proof fn law_prune_plan_is_unique(entries: Seq<DirEntry>, p: Seq<usize>, q: Seq<usize>)
    requires
        is_prune_plan(entries, p),
        is_prune_plan(entries, q),
    ensures
        p == q,
{
    lemma_plan_not_shorter(entries, p, q);
    lemma_plan_not_shorter(entries, q, p);
    assert forall|k: int| 0 <= k < p.len() implies p[k] == q[k] by {
        lemma_plans_agree(entries, p, q, k);
    }
    assert(p == q);
}

/// A cache within its limits loses nothing, and only such a cache does.
pub proof fn law_fitting_cache_is_untouched(entries: Seq<DirEntry>, plan: Seq<usize>)
    requires
        is_prune_plan(entries, plan),
    ensures
        fits(entries, Seq::empty()) <==> plan == Seq::<usize>::empty(),
{
    let none = Seq::<usize>::empty();
    if fits(entries, none) {
        assert(is_prune_plan(entries, none));
        law_prune_plan_is_unique(entries, plan, none);
    }
}

/// A file stays whenever one that is older stays.
pub proof fn law_newest_files_stay(entries: Seq<DirEntry>, plan: Seq<usize>, i: int, j: int)
    requires
        is_prune_plan(entries, plan),
        0 <= i < entries.len(),
        0 <= j < entries.len(),
        kept(entries, plan, i),
        entries[j].counted(),
        older(entries, i, j),
    ensures
        kept(entries, plan, j),
{
    if names(plan, j) {
        let k = choose|k: int| 0 <= k < plan.len() && #[trigger] plan[k] == j;
        assert(older(entries, i, plan[k] as int));
    }
}

/// The entries of the directory that are left when those named by `removed` are gone.
pub open spec fn survivors(entries: Seq<DirEntry>, removed: Seq<usize>) -> Seq<DirEntry>
    decreases entries.len(),
{
    if entries.len() == 0 {
        Seq::empty()
    } else {
        let i = entries.len() - 1;
        let rest = survivors(entries.drop_last(), removed);
        if names(removed, i) {
            rest
        } else {
            rest.push(entries[i])
        }
    }
}

/// What survives holds the files that are kept and their bytes, and no others.
pub proof fn lemma_survivors_are_kept(entries: Seq<DirEntry>, removed: Seq<usize>)
    ensures
        kept_files(survivors(entries, removed), Seq::empty()) == kept_files(entries, removed),
        kept_bytes(survivors(entries, removed), Seq::empty()) == kept_bytes(entries, removed),
    decreases entries.len(),
{
    if entries.len() > 0 {
        let i = entries.len() - 1;
        let rest = survivors(entries.drop_last(), removed);
        lemma_survivors_are_kept(entries.drop_last(), removed);
        if !names(removed, i) {
            assert(rest.push(entries[i]).drop_last() == rest);
            assert(kept(survivors(entries, removed), Seq::empty(), rest.len() as int)
                == entries[i].counted());
        }
    }
}

/// Once the planned files are gone the cache is within its limits, and pruning it again
/// removes nothing.
pub proof fn law_pruning_settles(entries: Seq<DirEntry>, plan: Seq<usize>, again: Seq<usize>)
    requires
        is_prune_plan(entries, plan),
        is_prune_plan(survivors(entries, plan), again),
    ensures
        fits(survivors(entries, plan), Seq::empty()),
        again == Seq::<usize>::empty(),
{
    lemma_survivors_are_kept(entries, plan);
    law_fitting_cache_is_untouched(survivors(entries, plan), again);
}

/// Whether two listings agree on the files that take part in pruning, whatever they hold at
/// the other places: directories, other entries that are not files, files without metadata.
pub open spec fn agree_on_files(a: Seq<DirEntry>, b: Seq<DirEntry>) -> bool {
    &&& a.len() == b.len()
    &&& forall|i: int|
        #![trigger a[i]]
        #![trigger b[i]]
        0 <= i < a.len() ==> a[i].counted() == b[i].counted() && (a[i].counted() ==> a[i] == b[i])
}

proof fn lemma_agreeing_listings_keep_alike(
    a: Seq<DirEntry>,
    b: Seq<DirEntry>,
    removed: Seq<usize>,
)
    requires
        agree_on_files(a, b),
    ensures
        kept_files(a, removed) == kept_files(b, removed),
        kept_bytes(a, removed) == kept_bytes(b, removed),
    decreases a.len(),
{
    if a.len() > 0 {
        let i = a.len() - 1;
        assert(agree_on_files(a.drop_last(), b.drop_last())) by {
            assert forall|j: int| 0 <= j < a.len() - 1 implies a.drop_last()[j] == a[j]
                && b.drop_last()[j] == b[j] by {}
        }
        lemma_agreeing_listings_keep_alike(a.drop_last(), b.drop_last(), removed);
        assert(kept(a, removed, i) == kept(b, removed, i));
    }
}

/// Entries that are not files, and files whose metadata cannot be read, do not matter: two
/// listings that agree on all others have the same plan.
pub proof fn law_other_entries_do_not_matter(
    a: Seq<DirEntry>,
    b: Seq<DirEntry>,
    plan: Seq<usize>,
)
    requires
        agree_on_files(a, b),
        is_prune_plan(a, plan),
    ensures
        is_prune_plan(b, plan),
{
    lemma_agreeing_listings_keep_alike(a, b, plan);
    if plan.len() > 0 {
        lemma_agreeing_listings_keep_alike(a, b, plan.drop_last());
    }
    assert forall|k: int| #![trigger plan[k]] 0 <= k < plan.len() implies plan[k] < b.len()
        && b[plan[k] as int].counted() && b[plan[k] as int] == a[plan[k] as int] by {}
    assert forall|j: int, k: int| 0 <= j < k < plan.len() implies older(
        b,
        #[trigger] plan[j] as int,
        #[trigger] plan[k] as int,
    ) by {
        assert(older(a, plan[j] as int, plan[k] as int));
    }
    assert forall|i: int, k: int|
        0 <= i < b.len() && (#[trigger] b[i]).counted() && 0 <= k < plan.len() && older(
            b,
            i,
            #[trigger] plan[k] as int,
        ) implies names(plan, i) by {
        assert(a[i].counted());
        assert(older(a, i, plan[k] as int));
    }
}

/// Entries that are not files, and files whose metadata cannot be read, are never removed.
pub proof fn law_other_entries_stay(entries: Seq<DirEntry>, plan: Seq<usize>, i: int)
    requires
        is_prune_plan(entries, plan),
        0 <= i < entries.len(),
        !entries[i].counted(),
    ensures
        !names(plan, i),
        survivors(entries, plan).contains(entries[i]),
{
    if names(plan, i) {
        let k = choose|k: int| 0 <= k < plan.len() && #[trigger] plan[k] == i;
        assert(entries[plan[k] as int].counted());
    }
    lemma_survivors_are_the_unnamed(entries, plan);
}

proof fn lemma_survivors_are_the_unnamed(entries: Seq<DirEntry>, removed: Seq<usize>)
    ensures
        forall|i: int|
            0 <= i < entries.len() && !names(removed, i) ==> survivors(entries, removed).contains(
                #[trigger] entries[i],
            ),
        forall|k: int|
            0 <= k < survivors(entries, removed).len() ==> exists|i: int|
                0 <= i < entries.len() && !names(removed, i) && #[trigger] entries[i]
                    == #[trigger] survivors(entries, removed)[k],
    decreases entries.len(),
{
    if entries.len() > 0 {
        let last = entries.len() - 1;
        let rest = survivors(entries.drop_last(), removed);
        let all = survivors(entries, removed);
        lemma_survivors_are_the_unnamed(entries.drop_last(), removed);
        assert forall|i: int| 0 <= i < entries.len() && !names(removed, i) implies all.contains(
            #[trigger] entries[i],
        ) by {
            if i == last {
                assert(all[rest.len() as int] == entries[i]);
            } else {
                assert(entries.drop_last()[i] == entries[i]);
                assert(rest.contains(entries[i]));
                let k = choose|k: int| 0 <= k < rest.len() && rest[k] == entries[i];
                assert(all[k] == entries[i]);
            }
        }
        assert forall|k: int| 0 <= k < all.len() implies exists|i: int|
            0 <= i < entries.len() && !names(removed, i) && #[trigger] entries[i]
                == #[trigger] all[k] by {
            if k < rest.len() {
                assert(all[k] == rest[k]);
                let i = choose|i: int|
                    0 <= i < entries.len() - 1 && !names(removed, i)
                        && #[trigger] entries.drop_last()[i] == rest[k];
                assert(entries[i] == all[k]);
            } else {
                assert(entries[last] == all[k]);
            }
        }
    }
}

proof fn lemma_survivors_without_one(entries: Seq<DirEntry>, removed: Seq<usize>, i: usize)
    ensures
        i < entries.len() && !names(removed, i as int) ==> survivors(
            entries,
            removed.push(i),
        ).len() + 1 == survivors(entries, removed).len(),
        i >= entries.len() ==> survivors(entries, removed.push(i)).len() == survivors(
            entries,
            removed,
        ).len(),
    decreases entries.len(),
{
    lemma_names_one_more(removed, i);
    if entries.len() > 0 {
        lemma_survivors_without_one(entries.drop_last(), removed, i);
    }
}

proof fn lemma_survivor_count(entries: Seq<DirEntry>, plan: Seq<usize>, n: int)
    requires
        is_prune_plan(entries, plan),
        0 <= n <= plan.len(),
    ensures
        survivors(entries, plan.take(n)).len() + n == entries.len(),
    decreases n,
{
    if n == 0 {
        lemma_all_survive(entries, plan.take(0));
    } else {
        let i = plan[n - 1];
        let fewer = plan.take(n - 1);
        lemma_survivor_count(entries, plan, n - 1);
        assert(fewer.push(i) == plan.take(n));
        if names(fewer, i as int) {
            let k = choose|k: int| 0 <= k < fewer.len() && #[trigger] fewer[k] == i;
            assert(older(entries, plan[k] as int, plan[n - 1] as int));
        }
        lemma_survivors_without_one(entries, fewer, i);
    }
}

proof fn lemma_all_survive(entries: Seq<DirEntry>, none: Seq<usize>)
    requires
        none.len() == 0,
    ensures
        survivors(entries, none).len() == entries.len(),
    decreases entries.len(),
{
    if entries.len() > 0 {
        lemma_all_survive(entries.drop_last(), none);
    }
}

/// Pruning removes the planned files and does nothing else: every entry that the plan does
/// not name is there afterwards as it was, there is no other, and as many are gone as the
/// plan names.
pub proof fn law_pruning_only_removes(entries: Seq<DirEntry>, plan: Seq<usize>, e: DirEntry)
    requires
        is_prune_plan(entries, plan),
    ensures
        survivors(entries, plan).contains(e) <==> exists|i: int|
            0 <= i < entries.len() && !names(plan, i) && #[trigger] entries[i] == e,
        survivors(entries, plan).len() + plan.len() == entries.len(),
{
    lemma_survivors_are_the_unnamed(entries, plan);
    lemma_survivor_count(entries, plan, plan.len() as int);
    assert(plan.take(plan.len() as int) == plan);
    let all = survivors(entries, plan);
    if all.contains(e) {
        let k = choose|k: int| 0 <= k < all.len() && all[k] == e;
        let i = choose|i: int|
            0 <= i < entries.len() && !names(plan, i) && #[trigger] entries[i] == all[k];
        assert(entries[i] == e);
    }
}

/// The sum of the numbers.
pub open spec fn total(numbers: Seq<int>) -> int
    decreases numbers.len(),
{
    if numbers.len() == 0 {
        0
    } else {
        total(numbers.drop_last()) + numbers.last()
    }
}

proof fn lemma_totals(
    entries: Seq<DirEntry>,
    removed: Seq<usize>,
    counts: Seq<int>,
    lengths: Seq<int>,
)
    requires
        counts.len() == entries.len(),
        lengths.len() == entries.len(),
        forall|i: int|
            0 <= i < entries.len() ==> #[trigger] counts[i] == (if kept(entries, removed, i) {
                1int
            } else {
                0int
            }),
        forall|i: int|
            0 <= i < entries.len() ==> #[trigger] lengths[i] == (if kept(entries, removed, i) {
                entries[i].bytes() as int
            } else {
                0int
            }),
    ensures
        total(counts) == kept_files(entries, removed),
        total(lengths) == kept_bytes(entries, removed),
    decreases entries.len(),
{
    if entries.len() > 0 {
        let rest = entries.drop_last();
        assert forall|i: int| 0 <= i < rest.len() implies kept(rest, removed, i) == kept(
            entries,
            removed,
            i,
        ) && rest[i] == entries[i] by {}
        lemma_totals(rest, removed, counts.drop_last(), lengths.drop_last());
    }
}

/// Of two files the one that was modified first goes first: where the plan names the second
/// it names the first, and earlier. A file whose time is not known counts as modified at the
/// epoch, and files of the same time go in the order of the listing.
pub proof fn law_files_go_in_the_order_of_their_times(
    entries: Seq<DirEntry>,
    plan: Seq<usize>,
    i: int,
    k: int,
    first: FileMetadata,
    second: FileMetadata,
) -> (m: int)
    requires
        is_prune_plan(entries, plan),
        0 <= i < entries.len(),
        0 <= k < plan.len(),
        entries[i] == (DirEntry { is_file: true, metadata: Some(first) }),
        entries[plan[k] as int].metadata == Some(second),
        ({
            let s: i128 = match first.modified {
                Some(time) => time,
                None => 0,
            };
            let t: i128 = match second.modified {
                Some(time) => time,
                None => 0,
            };
            s < t || (s == t && i < plan[k])
        }),
    ensures
        0 <= m < k,
        plan[m] == i,
{
    assert(entries[i].counted());
    assert(older(entries, i, plan[k] as int));
    let m = choose|m: int| 0 <= m < plan.len() && #[trigger] plan[m] == i;
    if k < m {
        assert(older(entries, plan[k] as int, plan[m] as int));
    }
    m
}

/// The plan names files with known metadata alone, each of them once, in the order in which
/// they were modified; those of the same time in the order of the listing.
pub proof fn law_plan_names_files_once(
    entries: Seq<DirEntry>,
    plan: Seq<usize>,
    j: int,
    k: int,
)
    requires
        is_prune_plan(entries, plan),
        0 <= j <= k < plan.len(),
    ensures
        j < k ==> plan[j] != plan[k],
        plan[k] < entries.len(),
        entries[plan[k] as int].is_file,
        entries[plan[k] as int].metadata is Some,
        j < k ==> {
            let s: i128 = match entries[plan[j] as int].metadata->0.modified {
                Some(time) => time,
                None => 0,
            };
            let t: i128 = match entries[plan[k] as int].metadata->0.modified {
                Some(time) => time,
                None => 0,
            };
            s < t || (s == t && plan[j] < plan[k])
        },
{
    assert(j < k ==> older(entries, plan[j] as int, plan[k] as int));
    assert(entries[plan[j] as int].counted() && entries[plan[k] as int].counted());
}

/// What the plan leaves is at most 30 files and 80 MiB; and no file is removed needlessly:
/// with the last one of the plan still there, it would be more than one of these. `counts`
/// says 1 and `lengths` says the length of each file that stays; both say 0 of all other
/// entries.
pub proof fn law_just_enough_is_removed(
    entries: Seq<DirEntry>,
    plan: Seq<usize>,
    counts: Seq<int>,
    lengths: Seq<int>,
)
    requires
        is_prune_plan(entries, plan),
        counts.len() == entries.len(),
        lengths.len() == entries.len(),
        forall|i: int|
            #![trigger counts[i]]
            #![trigger lengths[i]]
            0 <= i < entries.len() ==> if entries[i].is_file && entries[i].metadata is Some && !(
            exists|k: int| 0 <= k < plan.len() && #[trigger] plan[k] == i) {
                counts[i] == 1 && lengths[i] == entries[i].metadata->0.len
            } else {
                counts[i] == 0 && lengths[i] == 0
            },
    ensures
        total(counts) <= 30,
        total(lengths) <= 80 * 1024 * 1024,
        plan.len() > 0 ==> total(counts) + 1 > 30 || total(lengths)
            + entries[plan.last() as int].metadata->0.len > 80 * 1024 * 1024,
{
    assert forall|i: int| 0 <= i < entries.len() implies #[trigger] counts[i] == (if kept(
        entries,
        plan,
        i,
    ) {
        1int
    } else {
        0int
    }) by {}
    assert forall|i: int| 0 <= i < entries.len() implies #[trigger] lengths[i] == (if kept(
        entries,
        plan,
        i,
    ) {
        entries[i].bytes() as int
    } else {
        0int
    }) by {}
    lemma_totals(entries, plan, counts, lengths);
    if plan.len() > 0 {
        let n = plan.len() - 1;
        let fewer = plan.drop_last();
        if names(fewer, plan[n] as int) {
            let k = choose|k: int| 0 <= k < fewer.len() && #[trigger] fewer[k] == plan[n];
            assert(older(entries, plan[k] as int, plan[n] as int));
        }
        assert(entries[plan[n] as int].counted());
        lemma_remove_one(entries, fewer, plan[n]);
        assert(fewer.push(plan[n]) == plan);
    }
}

} // verus!
