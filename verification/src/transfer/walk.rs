//! Walking the folders of a batch: each listed folder adds one item per entry,
//! in descending name order, and leaves its sub-folders to be listed in turn.
use vstd::prelude::*;
use crate::listing::{
    text_before, text_precedes, lemma_text_before_asymmetric, lemma_text_before_irreflexive,
    lemma_text_before_total, lemma_text_before_transitive,
};
use crate::local_path::{join_path, path_joined};
use crate::remote_listing::{file_type_of, mode_kind, RemoteKind};
use crate::remote_path::{join_remote_path, joined, valid_entry_name, validate_entry_name};
use crate::text::owned;
use super::enqueue::PlannedChild;
use super::plan::{planned_download_file, planned_local_dir, planned_remote_dir, planned_upload_file};
use super::{PlannedItemKind, TransferChildTask, TransferDirection};

verus! {

/// One entry of a listed folder: its name, whether it is a folder, and its size
/// where one is known.
pub struct ListedEntry {
    pub name: String,
    pub is_dir: bool,
    pub size: Option<u64>,
}

/// An entry of a remote listing, with the permissions and size the server
/// reported: it is a folder exactly when `FileAttributes::file_type` says so.
pub fn remote_listed_entry(name: String, permissions: Option<u32>, size: Option<u64>) -> (e: ListedEntry)
    ensures
        e.name == name,
        e.is_dir == (mode_kind(permissions) is Dir),
        e.size == size,
{
    let is_dir = match file_type_of(permissions) {
        RemoteKind::Dir => true,
        _ => false,
    };
    ListedEntry { name, is_dir, size }
}

/// Entry `i` of a listing is walked before entry `j`: names in descending order,
/// and of equal names the later one first (the reverse of a stable ascending sort).
pub open spec fn walk_before(s: Seq<ListedEntry>, i: int, j: int) -> bool {
    text_before(s[j].name@, s[i].name@) || (s[i].name@ == s[j].name@ && j < i)
}

/// `order` lists every index of `s` once, in the order in which the entries are walked.
pub open spec fn walk_order(s: Seq<ListedEntry>, order: Seq<usize>) -> bool {
    &&& order.len() == s.len()
    &&& forall|p: int| 0 <= p < order.len() ==> #[trigger] order[p] < s.len()
    &&& forall|p: int, q: int| 0 <= p < q < order.len() ==> order[p] != order[q]
    &&& forall|p: int, q: int|
        0 <= p < q < order.len() ==> walk_before(s, #[trigger] order[p] as int, #[trigger] order[q] as int)
}

proof fn lemma_walk_total(s: Seq<ListedEntry>, i: int, j: int)
    requires
        i != j,
    ensures
        walk_before(s, i, j) || walk_before(s, j, i),
{
    lemma_text_before_total(s[i].name@, s[j].name@);
}

proof fn lemma_walk_asymmetric(s: Seq<ListedEntry>, i: int, j: int)
    ensures
        !(walk_before(s, i, j) && walk_before(s, j, i)),
{
    lemma_text_before_asymmetric(s[i].name@, s[j].name@);
    lemma_text_before_irreflexive(s[i].name@);
}

proof fn lemma_walk_transitive(s: Seq<ListedEntry>, i: int, j: int, k: int)
    requires
        walk_before(s, i, j),
        walk_before(s, j, k),
    ensures
        walk_before(s, i, k),
{
    let (a, b, c) = (s[i].name@, s[j].name@, s[k].name@);
    if text_before(b, a) && text_before(c, b) {
        lemma_text_before_transitive(c, b, a);
    }
}

/// A walking order holds every index of the listing.
proof fn lemma_walk_order_covers(s: Seq<ListedEntry>, order: Seq<usize>, x: int)
    requires
        walk_order(s, order),
        0 <= x < s.len(),
    ensures
        exists|p: int| 0 <= p < order.len() && order[p] as int == x,
{
    let o = order.map_values(|v: usize| v as int);
    let n = s.len() as int;
    assert(o.no_duplicates()) by {
        assert forall|a: int, b: int| 0 <= a < o.len() && 0 <= b < o.len() && a != b implies o[a] != o[b] by {
            if a < b {
                assert(order[a] != order[b]);
            } else {
                assert(order[b] != order[a]);
            }
        }
    }
    o.unique_seq_to_set();
    vstd::set_lib::lemma_int_range(0, n);
    let range = vstd::set_lib::set_int_range(0, n);
    assert(o.to_set().subset_of(range)) by {
        assert forall|v: int| o.to_set().contains(v) implies range.contains(v) by {
            let p = choose|p: int| 0 <= p < o.len() && o[p] == v;
            assert(order[p] < s.len());
        }
    }
    vstd::seq_lib::seq_to_set_is_finite(o);
    vstd::set_lib::lemma_subset_equality(o.to_set(), range);
    assert(range.contains(x));
    assert(o.to_set().contains(x));
    let p = choose|p: int| 0 <= p < o.len() && o[p] == x;
    assert(order[p] as int == x);
}

/// Two walking orders of a listing agree on their first `p` places.
proof fn lemma_walk_orders_agree(s: Seq<ListedEntry>, o1: Seq<usize>, o2: Seq<usize>, p: int)
    requires
        walk_order(s, o1),
        walk_order(s, o2),
        0 <= p <= o1.len(),
    ensures
        forall|k: int| 0 <= k < p ==> o1[k] == o2[k],
    decreases p,
{
    if p > 0 {
        let m = p - 1;
        lemma_walk_orders_agree(s, o1, o2, m);
        if o1[m] != o2[m] {
            let a = o1[m] as int;
            let b = o2[m] as int;
            lemma_walk_order_covers(s, o1, b);
            lemma_walk_order_covers(s, o2, a);
            let q = choose|q: int| 0 <= q < o1.len() && o1[q] as int == b;
            let r = choose|r: int| 0 <= r < o2.len() && o2[r] as int == a;
            if q < m {
                assert(o2[q] == o1[q]);
                assert(o2[q] != o2[m]);
            }
            if r < m {
                assert(o1[r] == o2[r]);
                assert(o1[r] != o1[m]);
            }
            assert(walk_before(s, o1[m] as int, o1[q] as int));
            assert(walk_before(s, o2[m] as int, o2[r] as int));
            lemma_walk_asymmetric(s, a, b);
        }
    }
}

/// A listing has one walking order: any two orders that meet `walk_order` are equal.
pub proof fn lemma_walk_order_unique(s: Seq<ListedEntry>, o1: Seq<usize>, o2: Seq<usize>)
    requires
        walk_order(s, o1),
        walk_order(s, o2),
    ensures
        o1 == o2,
{
    lemma_walk_orders_agree(s, o1, o2, o1.len() as int);
    assert(o1 =~= o2);
}

/// Where entry `k` goes among the entries already placed, all of them earlier in
/// the listing: after every entry that is walked before it.
fn walk_slot(listing: &Vec<ListedEntry>, order: &Vec<usize>, k: usize) -> (pos: usize)
    requires
        k < listing.len(),
        forall|p: int| 0 <= p < order.len() ==> #[trigger] order@[p] < k,
    ensures
        pos <= order.len(),
        forall|q: int| pos <= q < order.len() ==> walk_before(listing@, k as int, #[trigger] order@[q] as int),
        pos > 0 ==> !walk_before(listing@, k as int, order@[pos - 1] as int),
{
    let mut pos = order.len();
    while pos > 0
        invariant
            pos <= order.len(),
            k < listing.len(),
            forall|p: int| 0 <= p < order.len() ==> #[trigger] order@[p] < k,
            forall|q: int| pos <= q < order.len() ==> walk_before(listing@, k as int, #[trigger] order@[q] as int),
        decreases pos,
    {
        let o = order[pos - 1];
        assert(o < k);
        let after = text_precedes(listing[k].name.as_str(), listing[o].name.as_str());
        proof {
            lemma_text_before_total(listing@[k as int].name@, listing@[o as int].name@);
            lemma_text_before_asymmetric(listing@[k as int].name@, listing@[o as int].name@);
            lemma_text_before_irreflexive(listing@[k as int].name@);
        }
        if after {
            return pos;
        }
        pos -= 1;
    }
    pos
}

/// The order in which the entries of `listing` are walked.
pub fn walk_sequence(listing: &Vec<ListedEntry>) -> (order: Vec<usize>)
    ensures
        walk_order(listing@, order@),
{
    let ghost s = listing@;
    let n = listing.len();
    let mut order: Vec<usize> = Vec::new();
    let mut k: usize = 0;
    while k < n
        invariant
            n == s.len(),
            s == listing@,
            k <= n,
            order.len() == k,
            forall|p: int| 0 <= p < order.len() ==> #[trigger] order@[p] < k,
            forall|p: int, q: int| 0 <= p < q < order.len() ==> order@[p] != order@[q],
            forall|p: int, q: int|
                0 <= p < q < order.len() ==> walk_before(s, #[trigger] order@[p] as int, #[trigger] order@[q] as int),
        decreases n - k,
    {
        let pos = walk_slot(listing, &order, k);
        let ghost old_order = order@;
        proof {
            assert forall|q: int| 0 <= q < pos implies walk_before(s, #[trigger] old_order[q] as int, k as int) by {
                let last = old_order[pos - 1] as int;
                lemma_walk_total(s, k as int, last);
                if q < pos - 1 {
                    lemma_walk_transitive(s, old_order[q] as int, last, k as int);
                }
            }
        }
        order.insert(pos, k);
        proof {
            let no = order@;
            assert(no == old_order.insert(pos as int, k));
            assert forall|p: int, q: int| 0 <= p < q < no.len() implies walk_before(s, #[trigger] no[p] as int, #[trigger] no[q] as int) by {
                if q < pos {
                    assert(no[p] == old_order[p] && no[q] == old_order[q]);
                } else if q == pos {
                    assert(no[p] == old_order[p]);
                } else if p < pos {
                    assert(no[p] == old_order[p] && no[q] == old_order[q - 1]);
                } else if p == pos {
                    assert(no[q] == old_order[q - 1]);
                } else {
                    assert(no[p] == old_order[p - 1] && no[q] == old_order[q - 1]);
                }
            }
            assert forall|p: int, q: int| 0 <= p < q < no.len() implies no[p] != no[q] by {
                if q < pos {
                    assert(no[p] == old_order[p] && no[q] == old_order[q]);
                } else if q == pos {
                    assert(no[p] == old_order[p]);
                } else if p < pos {
                    assert(no[p] == old_order[p] && no[q] == old_order[q - 1]);
                } else if p == pos {
                    assert(no[q] == old_order[q - 1]);
                } else {
                    assert(no[p] == old_order[p - 1] && no[q] == old_order[q - 1]);
                }
            }
            assert forall|p: int| 0 <= p < no.len() implies #[trigger] no[p] < k + 1 by {
                if p < pos {
                    assert(no[p] == old_order[p]);
                } else if p > pos {
                    assert(no[p] == old_order[p - 1]);
                }
            }
        }
        k += 1;
    }
    order
}

/// The path of entry `name` in source folder `dir`: a remote path for a download,
/// a local one for an upload.
pub open spec fn source_child(direction: TransferDirection, dir: Seq<char>, name: Seq<char>) -> Seq<char> {
    match direction {
        TransferDirection::Download => joined(dir, name),
        TransferDirection::Upload => path_joined(dir, name),
    }
}

/// The path of entry `name` in destination folder `dir`: a local path for a
/// download, a remote one for an upload.
pub open spec fn destination_child(direction: TransferDirection, dir: Seq<char>, name: Seq<char>) -> Seq<char> {
    match direction {
        TransferDirection::Download => path_joined(dir, name),
        TransferDirection::Upload => joined(dir, name),
    }
}

/// Item `c` is the one that listed entry `e` of source folder `src` becomes, with
/// `dst` as the matching destination folder: a folder is created, anything else
/// is copied as a file.
pub open spec fn row_for(direction: TransferDirection, src: Seq<char>, dst: Seq<char>, e: ListedEntry, c: PlannedChild) -> bool {
    let source = source_child(direction, src, e.name@);
    let destination = destination_child(direction, dst, e.name@);
    &&& c.display_name@ == e.name@
    &&& c.source_path@ == source
    &&& c.destination_path@ == destination
    &&& if e.is_dir {
        &&& c.item_kind is Directory
        &&& c.bytes_total == Some(0u64)
        &&& match direction {
            TransferDirection::Download => c.task matches TransferChildTask::CreateLocalDir { local_path } && local_path@ == destination,
            TransferDirection::Upload => c.task matches TransferChildTask::CreateRemoteDir { remote_path } && remote_path@ == destination,
        }
    } else {
        &&& c.item_kind is File
        &&& c.bytes_total == e.size
        &&& match direction {
            TransferDirection::Download => c.task matches TransferChildTask::DownloadFile { remote_path, local_path }
                && remote_path@ == source && local_path@ == destination,
            TransferDirection::Upload => c.task matches TransferChildTask::UploadFile { local_path, remote_path }
                && local_path@ == source && remote_path@ == destination,
        }
    }
}

/// The folders, as (source, destination) paths, that the first entries of `order`
/// leave to be listed, in walking order.
pub open spec fn pending_dirs(direction: TransferDirection, src: Seq<char>, dst: Seq<char>, s: Seq<ListedEntry>, order: Seq<usize>) -> Seq<(Seq<char>, Seq<char>)>
    decreases order.len(),
{
    if order.len() == 0 {
        seq![]
    } else {
        let rest = pending_dirs(direction, src, dst, s, order.drop_last());
        let e = s[order.last() as int];
        if e.is_dir {
            rest.push((source_child(direction, src, e.name@), destination_child(direction, dst, e.name@)))
        } else {
            rest
        }
    }
}

/// The pairs of paths of `p`, as text.
pub open spec fn pair_views(p: Seq<(String, String)>) -> Seq<(Seq<char>, Seq<char>)> {
    p.map_values(|x: (String, String)| (x.0@, x.1@))
}

/// A step on the listing `s` of folder `src` (copied to `dst`), walked in `order`,
/// took the items `c0` and the folders still to list `p0` to `c1` and `p1`: one
/// item appended per entry, in walking order, and the entry's folders appended
/// to those still to list.
pub open spec fn stepped(
    direction: TransferDirection,
    src: Seq<char>,
    dst: Seq<char>,
    s: Seq<ListedEntry>,
    order: Seq<usize>,
    c0: Seq<PlannedChild>,
    c1: Seq<PlannedChild>,
    p0: Seq<(String, String)>,
    p1: Seq<(String, String)>,
) -> bool {
    &&& c1.len() == c0.len() + order.len()
    &&& forall|i: int| 0 <= i < c0.len() ==> c1[i] == c0[i]
    &&& forall|k: int| 0 <= k < order.len() ==> row_for(direction, src, dst, s[order[k] as int], #[trigger] c1[c0.len() + k])
    &&& p1.len() >= p0.len()
    &&& p1.take(p0.len() as int) == p0
    &&& pair_views(p1) == pair_views(p0) + pending_dirs(direction, src, dst, s, order)
}

/// Every entry name of the listing is one a remote path may hold.
pub open spec fn names_valid(s: Seq<ListedEntry>) -> bool {
    forall|i: int| 0 <= i < s.len() ==> valid_entry_name(#[trigger] s[i].name@)
}

/// Plans the entries of one listed folder, `source_dir`, whose copy is
/// `destination_dir`. Entries are taken in descending name order; each becomes
/// one item, and each folder among them is appended to `pending` to be listed
/// later. A download refuses a listing that holds a name no remote path may
/// hold, and then changes nothing.
pub fn plan_directory_step(
    direction: TransferDirection,
    source_dir: &str,
    destination_dir: &str,
    listing: &Vec<ListedEntry>,
    children: &mut Vec<PlannedChild>,
    pending: &mut Vec<(String, String)>,
) -> (r: Result<(), String>)
    ensures
        r is Ok <==> (direction is Upload || names_valid(listing@)),
        r matches Err(e) ==> e@ == "invalid target name"@ && final(children)@ == old(children)@ && final(pending)@ == old(pending)@,
        r is Ok ==> exists|order: Seq<usize>| #[trigger] walk_order(listing@, order)
            && stepped(direction, source_dir@, destination_dir@, listing@, order,
                old(children)@, final(children)@, old(pending)@, final(pending)@),
{
    if let TransferDirection::Download = direction {
        let mut i: usize = 0;
        while i < listing.len()
            invariant
                i <= listing.len(),
                direction is Download,
                forall|j: int| 0 <= j < i ==> valid_entry_name(#[trigger] listing@[j].name@),
            decreases listing.len() - i,
        {
            if validate_entry_name(listing[i].name.as_str()).is_err() {
                assert(!valid_entry_name(listing@[i as int].name@));
                return Err(owned("invalid target name"));
            }
            i += 1;
        }
    }
    let order = walk_sequence(listing);
    let ghost c0 = children@;
    let ghost p0 = pending@;
    let mut k: usize = 0;
    while k < order.len()
        invariant
            walk_order(listing@, order@),
            k <= order.len(),
            children@.len() == c0.len() + k,
            forall|i: int| 0 <= i < c0.len() ==> children@[i] == c0[i],
            forall|j: int| 0 <= j < k ==> row_for(direction, source_dir@, destination_dir@, listing@[order@[j] as int], #[trigger] children@[c0.len() + j]),
            pending@.len() >= p0.len(),
            pending@.take(p0.len() as int) == p0,
            pair_views(pending@) == pair_views(p0) + pending_dirs(direction, source_dir@, destination_dir@, listing@, order@.take(k as int)),
        decreases order.len() - k,
    {
        let e = &listing[order[k]];
        let name = e.name.as_str();
        let (source, destination) = match direction {
            TransferDirection::Download => (join_remote_path(source_dir, name), join_path(destination_dir, name)),
            TransferDirection::Upload => (join_path(source_dir, name), join_remote_path(destination_dir, name)),
        };
        let ghost pv = pending@;
        let c = if e.is_dir {
            pending.push((source.clone(), destination.clone()));
            match direction {
                TransferDirection::Download => planned_local_dir(e.name.clone(), source, destination),
                TransferDirection::Upload => planned_remote_dir(e.name.clone(), source, destination),
            }
        } else {
            match direction {
                TransferDirection::Download => planned_download_file(e.name.clone(), source, destination, e.size),
                TransferDirection::Upload => planned_upload_file(e.name.clone(), source, destination, e.size),
            }
        };
        children.push(c);
        proof {
            let tk = order@.take(k + 1);
            assert(tk.drop_last() =~= order@.take(k as int));
            assert(tk.last() == order@[k as int]);
            if listing@[order@[k as int] as int].is_dir {
                assert(pending@ == pv.push(pending@.last()));
                assert(pair_views(pending@) =~= pair_views(pv).push((pending@.last().0@, pending@.last().1@)));
                assert(pending@.take(p0.len() as int) =~= pv.take(p0.len() as int));
            }
        }
        k += 1;
    }
    proof {
        assert(order@.take(order@.len() as int) =~= order@);
    }
    Ok(())
}

/// The folders that a new top-level item leaves to be listed: its own source and
/// destination where it is a folder, none where it is a file.
pub fn walk_roots(row: &PlannedChild) -> (p: Vec<(String, String)>)
    ensures
        row.item_kind is Directory ==> pair_views(p@) == seq![(row.source_path@, row.destination_path@)],
        row.item_kind is File ==> p@.len() == 0,
{
    let mut p: Vec<(String, String)> = Vec::new();
    if let PlannedItemKind::Directory = row.item_kind {
        p.push((row.source_path.clone(), row.destination_path.clone()));
        assert(pair_views(p@) =~= seq![(row.source_path@, row.destination_path@)]);
    }
    p
}

/// Item `c` stands for an entry of the folder whose item is `f`.
pub open spec fn row_below(direction: TransferDirection, f: PlannedChild, c: PlannedChild) -> bool {
    &&& c.source_path@ == source_child(direction, f.source_path@, c.display_name@)
    &&& c.destination_path@ == destination_child(direction, f.destination_path@, c.display_name@)
}

/// Some folder item before item `j` of `c` is the folder that item `j` stands in.
pub open spec fn has_folder_row(direction: TransferDirection, c: Seq<PlannedChild>, j: int) -> bool {
    exists|i: int| 0 <= i < j && (#[trigger] c[i]).item_kind is Directory && row_below(direction, c[i], c[j])
}

/// Every item of `c` from index `from` on comes after the item of its folder.
pub open spec fn folders_first(direction: TransferDirection, c: Seq<PlannedChild>, from: int) -> bool {
    forall|j: int| from <= j < c.len() ==> #[trigger] has_folder_row(direction, c, j)
}

/// `c` holds a folder item with these source and destination paths.
pub open spec fn has_folder_item(c: Seq<PlannedChild>, src: Seq<char>, dst: Seq<char>) -> bool {
    exists|i: int| 0 <= i < c.len() && (#[trigger] c[i]).item_kind is Directory
        && c[i].source_path@ == src && c[i].destination_path@ == dst
}

/// Every folder still to list already has its item in `c`.
pub open spec fn pending_have_rows(c: Seq<PlannedChild>, p: Seq<(String, String)>) -> bool {
    forall|k: int| 0 <= k < p.len() ==> has_folder_item(c, (#[trigger] p[k]).0@, p[k].1@)
}

/// Each folder that a step leaves to list is an entry of the listing that is a
/// folder, with its item among those of the step.
proof fn lemma_pending_dirs_are_folders(
    direction: TransferDirection,
    src: Seq<char>,
    dst: Seq<char>,
    s: Seq<ListedEntry>,
    order: Seq<usize>,
    m: int,
)
    requires
        0 <= m < pending_dirs(direction, src, dst, s, order).len(),
    ensures
        exists|q: int| 0 <= q < order.len() && (#[trigger] s[order[q] as int]).is_dir
            && pending_dirs(direction, src, dst, s, order)[m]
                == (source_child(direction, src, s[order[q] as int].name@), destination_child(direction, dst, s[order[q] as int].name@)),
    decreases order.len(),
{
    let rest = pending_dirs(direction, src, dst, s, order.drop_last());
    let q = order.len() - 1;
    if m < rest.len() {
        lemma_pending_dirs_are_folders(direction, src, dst, s, order.drop_last(), m);
        let q2 = choose|q2: int| 0 <= q2 < order.drop_last().len() && (#[trigger] s[order.drop_last()[q2] as int]).is_dir
            && rest[m] == (source_child(direction, src, s[order.drop_last()[q2] as int].name@), destination_child(direction, dst, s[order.drop_last()[q2] as int].name@));
        assert(order.drop_last()[q2] == order[q2]);
    } else {
        assert(s[order[q] as int].is_dir);
    }
}

/// A walk starts with every folder to list in place: after the item of a selected
/// folder, that folder is the one left to list, and it has its item.
pub proof fn lemma_walk_starts(direction: TransferDirection, c: Seq<PlannedChild>, row: PlannedChild, p: Seq<(String, String)>)
    requires
        row.item_kind is Directory,
        pair_views(p) == seq![(row.source_path@, row.destination_path@)],
    ensures
        pending_have_rows(c.push(row), p),
        folders_first(direction, c.push(row), c.len() + 1int),
{
    assert forall|k: int| 0 <= k < p.len() implies has_folder_item(c.push(row), (#[trigger] p[k]).0@, p[k].1@) by {
        assert(pair_views(p).len() == p.len());
        assert(k == 0);
        assert(pair_views(p)[k] == (p[k].0@, p[k].1@));
        assert(pair_views(p)[0] == (row.source_path@, row.destination_path@));
        let cp = c.push(row);
        assert(cp[c.len() as int] == row);
        assert(0 <= c.len() < cp.len() && cp[c.len() as int].item_kind is Directory
            && cp[c.len() as int].source_path@ == p[k].0@ && cp[c.len() as int].destination_path@ == p[k].1@);
    }
}

/// Folders come first in a walk: when every folder still to list has its item, a
/// step on the last of them adds only items that come after the item of the
/// folder they stand in, keeps that so for the items before, and leaves every
/// folder still to list with its item.
pub proof fn lemma_step_keeps_folders_first(
    direction: TransferDirection,
    s: Seq<ListedEntry>,
    order: Seq<usize>,
    c0: Seq<PlannedChild>,
    c1: Seq<PlannedChild>,
    p0: Seq<(String, String)>,
    p1: Seq<(String, String)>,
    from: int,
)
    requires
        walk_order(s, order),
        p0.len() > 0,
        pending_have_rows(c0, p0),
        folders_first(direction, c0, from),
        stepped(direction, p0.last().0@, p0.last().1@, s, order, c0, c1, p0.drop_last(), p1),
    ensures
        folders_first(direction, c1, from),
        pending_have_rows(c1, p1),
{
    let src = p0.last().0@;
    let dst = p0.last().1@;
    let n0 = c0.len() as int;
    assert(has_folder_item(c0, p0[p0.len() - 1].0@, p0[p0.len() - 1].1@));
    let i0 = choose|i: int| 0 <= i < c0.len() && (#[trigger] c0[i]).item_kind is Directory
        && c0[i].source_path@ == src && c0[i].destination_path@ == dst;
    assert(c1[i0] == c0[i0]);
    assert forall|j: int| from <= j < c1.len() implies #[trigger] has_folder_row(direction, c1, j) by {
        if j < n0 {
            assert(has_folder_row(direction, c0, j));
            let i = choose|i: int| 0 <= i < j && (#[trigger] c0[i]).item_kind is Directory && row_below(direction, c0[i], c0[j]);
            assert(c1[i] == c0[i] && c1[j] == c0[j]);
        } else {
            let k = j - n0;
            assert(row_for(direction, src, dst, s[order[k] as int], c1[n0 + k]));
            assert(row_below(direction, c1[i0], c1[j]));
        }
    }
    let q0 = p0.drop_last();
    let pd = pending_dirs(direction, src, dst, s, order);
    assert forall|k: int| 0 <= k < p1.len() implies has_folder_item(c1, (#[trigger] p1[k]).0@, p1[k].1@) by {
        if k < q0.len() {
            assert(p1.take(q0.len() as int)[k] == p1[k]);
            assert(q0[k] == p0[k]);
            assert(has_folder_item(c0, p0[k].0@, p0[k].1@));
            let i = choose|i: int| 0 <= i < c0.len() && (#[trigger] c0[i]).item_kind is Directory
                && c0[i].source_path@ == p0[k].0@ && c0[i].destination_path@ == p0[k].1@;
            assert(c1[i] == c0[i]);
        } else {
            let m = k - q0.len();
            assert(pair_views(p1)[k] == (p1[k].0@, p1[k].1@));
            assert(pair_views(p1).len() == p1.len());
            assert((pair_views(q0) + pd)[k] == pd[m]);
            lemma_pending_dirs_are_folders(direction, src, dst, s, order, m);
            let q = choose|q: int| 0 <= q < order.len() && (#[trigger] s[order[q] as int]).is_dir
                && pd[m] == (source_child(direction, src, s[order[q] as int].name@), destination_child(direction, dst, s[order[q] as int].name@));
            assert(row_for(direction, src, dst, s[order[q] as int], c1[n0 + q]));
            assert(c1[n0 + q].item_kind is Directory);
        }
    }
}

} // verus!
