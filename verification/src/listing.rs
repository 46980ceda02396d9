//! The order in which directory rows are shown: folders first, then links, then
//! everything else, each group by case-folded name.
use vstd::prelude::*;
use crate::models::FileEntry;
use crate::text::{chars_of, lower_text, same_text, to_lowercase};

verus! {

/// `a` comes strictly before `b` in the order of `str`'s `Ord`: character by
/// character, a proper prefix first. (UTF-8 keeps the order of code points, so
/// comparing bytes and comparing characters agree.)
pub open spec fn text_before(a: Seq<char>, b: Seq<char>) -> bool
    decreases a.len(),
{
    if a.len() == 0 {
        b.len() > 0
    } else if b.len() == 0 {
        false
    } else if a[0] != b[0] {
        a[0] < b[0]
    } else {
        text_before(a.drop_first(), b.drop_first())
    }
}

/// No text comes before itself.
pub proof fn lemma_text_before_irreflexive(a: Seq<char>)
    ensures
        !text_before(a, a),
    decreases a.len(),
{
    if a.len() > 0 {
        lemma_text_before_irreflexive(a.drop_first());
    }
}

/// Two texts are never each before the other.
pub proof fn lemma_text_before_asymmetric(a: Seq<char>, b: Seq<char>)
    ensures
        !(text_before(a, b) && text_before(b, a)),
    decreases a.len(),
{
    if a.len() > 0 && b.len() > 0 && a[0] == b[0] {
        lemma_text_before_asymmetric(a.drop_first(), b.drop_first());
    }
}

/// The text order is transitive.
pub proof fn lemma_text_before_transitive(a: Seq<char>, b: Seq<char>, c: Seq<char>)
    requires
        text_before(a, b),
        text_before(b, c),
    ensures
        text_before(a, c),
    decreases a.len(),
{
    if a.len() > 0 && b.len() > 0 && c.len() > 0 && a[0] == b[0] && b[0] == c[0] {
        lemma_text_before_transitive(a.drop_first(), b.drop_first(), c.drop_first());
    }
}

/// Of two different texts one comes before the other.
pub proof fn lemma_text_before_total(a: Seq<char>, b: Seq<char>)
    ensures
        a == b || text_before(a, b) || text_before(b, a),
    decreases a.len(),
{
    if a.len() > 0 && b.len() > 0 && a[0] == b[0] {
        lemma_text_before_total(a.drop_first(), b.drop_first());
        let a1 = a.drop_first();
        let b1 = b.drop_first();
        if a1 == b1 {
            assert(a1.len() == a.len() - 1);
            assert(b1.len() == b.len() - 1);
            assert forall|i: int| 0 <= i < a.len() implies a[i] == b[i] by {
                if i > 0 {
                    assert(a1[i - 1] == a[i]);
                    assert(b1[i - 1] == b[i]);
                }
            }
            assert(a =~= b);
        }
    }
}

/// Whether `a` comes strictly before `b`, by `String`'s order.
pub fn text_precedes(a: &str, b: &str) -> (r: bool)
    ensures
        r == text_before(a@, b@),
{
    let x = chars_of(a);
    let y = chars_of(b);
    let mut i: usize = 0;
    assert(a@.skip(0) =~= a@);
    assert(b@.skip(0) =~= b@);
    while i < x.len() && i < y.len()
        invariant
            x@ == a@,
            y@ == b@,
            i <= x.len(),
            i <= y.len(),
            text_before(a@, b@) == text_before(a@.skip(i as int), b@.skip(i as int)),
        decreases x.len() - i,
    {
        assert(a@.skip(i as int)[0] == x@[i as int]);
        assert(b@.skip(i as int)[0] == y@[i as int]);
        if x[i] != y[i] {
            return x[i] < y[i];
        }
        assert(a@.skip(i as int).drop_first() =~= a@.skip(i + 1));
        assert(b@.skip(i as int).drop_first() =~= b@.skip(i + 1));
        i += 1;
    }
    i < y.len()
}

/// The group a row kind sorts into: folders, then links, then the rest.
pub open spec fn kind_order(kind: Seq<char>) -> int {
    if kind == "dir"@ {
        0
    } else if kind == "symlink"@ {
        1
    } else {
        2
    }
}

/// The group number of a row kind.
pub fn kind_rank(kind: &str) -> (r: u8)
    ensures
        r == kind_order(kind@),
{
    if same_text(kind, "dir") {
        0
    } else if same_text(kind, "symlink") {
        1
    } else {
        2
    }
}

/// The key `(group, case-folded name)` by which remote rows are ordered.
pub fn sort_key(entry: &FileEntry) -> (r: (u8, String))
    ensures
        r.0 == kind_order(entry.kind@),
        r.1@ == lower_text(entry.name@),
{
    (kind_rank(entry.kind.as_str()), to_lowercase(entry.name.as_str()))
}

/// Row keys compared: group, then case-folded name, then (where `by_name`) the
/// name itself.
pub open spec fn key_before(ra: int, la: Seq<char>, na: Seq<char>, rb: int, lb: Seq<char>, nb: Seq<char>, by_name: bool) -> bool {
    ||| ra < rb
    ||| ra == rb && text_before(la, lb)
    ||| by_name && ra == rb && la == lb && text_before(na, nb)
}

/// Row `a` is shown before row `b`.
pub open spec fn row_before(a: FileEntry, b: FileEntry, by_name: bool) -> bool {
    key_before(
        kind_order(a.kind@), lower_text(a.name@), a.name@,
        kind_order(b.kind@), lower_text(b.name@), b.name@,
        by_name,
    )
}

/// No row key is before itself, and two keys are never each before the other.
proof fn lemma_key_asymmetric(ra: int, la: Seq<char>, na: Seq<char>, rb: int, lb: Seq<char>, nb: Seq<char>, by_name: bool)
    ensures
        !(key_before(ra, la, na, rb, lb, nb, by_name) && key_before(rb, lb, nb, ra, la, na, by_name)),
{
    lemma_text_before_asymmetric(la, lb);
    lemma_text_before_asymmetric(na, nb);
    lemma_text_before_irreflexive(la);
}

/// Whenever `x` is before `y`, any `z` is after `x` or before `y`.
proof fn lemma_key_split(
    rx: int, lx: Seq<char>, nx: Seq<char>,
    ry: int, ly: Seq<char>, ny: Seq<char>,
    rz: int, lz: Seq<char>, nz: Seq<char>,
    by_name: bool,
)
    requires
        key_before(rx, lx, nx, ry, ly, ny, by_name),
    ensures
        key_before(rx, lx, nx, rz, lz, nz, by_name) || key_before(rz, lz, nz, ry, ly, ny, by_name),
{
    lemma_text_before_total(lx, lz);
    lemma_text_before_total(lz, ly);
    lemma_text_before_total(nx, nz);
    lemma_text_before_total(nz, ny);
    if text_before(lz, lx) && text_before(lx, ly) {
        lemma_text_before_transitive(lz, lx, ly);
    }
    if text_before(ly, lz) && text_before(lx, ly) {
        lemma_text_before_transitive(lx, ly, lz);
    }
    if text_before(nz, nx) && text_before(nx, ny) {
        lemma_text_before_transitive(nz, nx, ny);
    }
}

/// `s[i]` goes before `s[j]` when rows that tie keep their input order.
pub open spec fn ranked_before(s: Seq<FileEntry>, i: int, j: int, by_name: bool) -> bool {
    row_before(s[i], s[j], by_name) || (!row_before(s[j], s[i], by_name) && i < j)
}

/// `order` lists every index of `s` once, in the stable sorted order of the rows.
pub open spec fn arranged(s: Seq<FileEntry>, order: Seq<usize>, by_name: bool) -> bool {
    &&& order.len() == s.len()
    &&& forall|p: int| 0 <= p < order.len() ==> #[trigger] order[p] < s.len()
    &&& forall|p: int, q: int| 0 <= p < q < order.len() ==> order[p] != order[q]
    &&& forall|p: int, q: int|
        0 <= p < q < order.len() ==> ranked_before(s, #[trigger] order[p] as int, #[trigger] order[q] as int, by_name)
}

/// `r` is `s` sorted stably by the row order.
pub open spec fn sorted_rows(s: Seq<FileEntry>, r: Seq<FileEntry>, by_name: bool) -> bool {
    exists|order: Seq<usize>|
        #[trigger] arranged(s, order, by_name) && r.len() == s.len()
            && forall|p: int| 0 <= p < r.len() ==> r[p] == s[order[p] as int]
}

/// In sorted rows, folders come before links and links before everything else.
pub proof fn lemma_folders_first(s: Seq<FileEntry>, r: Seq<FileEntry>, by_name: bool, i: int, j: int)
    requires
        sorted_rows(s, r, by_name),
        0 <= i < j < r.len(),
    ensures
        kind_order(r[i].kind@) <= kind_order(r[j].kind@),
{
    let order = choose|order: Seq<usize>|
        #[trigger] arranged(s, order, by_name) && r.len() == s.len()
            && forall|p: int| 0 <= p < r.len() ==> r[p] == s[order[p] as int];
    assert(r[i] == s[order[i] as int]);
    assert(r[j] == s[order[j] as int]);
    assert(ranked_before(s, order[i] as int, order[j] as int, by_name));
}

/// Sorting keeps every row: each row of the input stands somewhere in the output
/// (and the output has as many rows as the input).
pub proof fn lemma_sorted_rows_keep_every_row(s: Seq<FileEntry>, r: Seq<FileEntry>, by_name: bool, q: int)
    requires
        sorted_rows(s, r, by_name),
        0 <= q < s.len(),
    ensures
        r.len() == s.len(),
        exists|p: int| 0 <= p < r.len() && #[trigger] r[p] == s[q],
{
    let order = choose|order: Seq<usize>|
        #[trigger] arranged(s, order, by_name) && r.len() == s.len()
            && forall|p: int| 0 <= p < r.len() ==> r[p] == s[order[p] as int];
    let o = order.map_values(|x: usize| x as int);
    let n = s.len() as int;
    assert(o.no_duplicates()) by {
        assert forall|a: int, b: int| 0 <= a < o.len() && 0 <= b < o.len() && a != b implies o[a] != o[b] by {
            if a < b {
                assert(order[a] != order[b]);
            } else {
                assert(order[b] != order[a]);
            }
        }
    }
    o.unique_seq_to_set();
    vstd::set_lib::lemma_int_range(0, n);
    let range = vstd::set_lib::set_int_range(0, n);
    assert(o.to_set().subset_of(range)) by {
        assert forall|x: int| o.to_set().contains(x) implies range.contains(x) by {
            let p = choose|p: int| 0 <= p < o.len() && o[p] == x;
            assert(order[p] < s.len());
        }
    }
    vstd::seq_lib::seq_to_set_is_finite(o);
    vstd::set_lib::lemma_subset_equality(o.to_set(), range);
    assert(range.contains(q));
    assert(o.to_set().contains(q));
    let p = choose|p: int| 0 <= p < o.len() && o[p] == q;
    assert(r[p] == s[order[p] as int]);
}

/// Sorted rows that share a group are in case-folded name order.
pub proof fn lemma_names_ordered_within_group(s: Seq<FileEntry>, r: Seq<FileEntry>, by_name: bool, i: int, j: int)
    requires
        sorted_rows(s, r, by_name),
        0 <= i < j < r.len(),
        kind_order(r[i].kind@) == kind_order(r[j].kind@),
    ensures
        !text_before(lower_text(r[j].name@), lower_text(r[i].name@)),
{
    let order = choose|order: Seq<usize>|
        #[trigger] arranged(s, order, by_name) && r.len() == s.len()
            && forall|p: int| 0 <= p < r.len() ==> r[p] == s[order[p] as int];
    assert(r[i] == s[order[i] as int]);
    assert(r[j] == s[order[j] as int]);
    assert(ranked_before(s, order[i] as int, order[j] as int, by_name));
    lemma_text_before_asymmetric(lower_text(r[i].name@), lower_text(r[j].name@));
}

/// Where a new row goes, scanning back from the end past rows that it precedes.
fn insertion_point(
    order: &Vec<usize>,
    ranks: &Vec<u8>,
    folded: &Vec<String>,
    names: &Vec<String>,
    k: usize,
    by_name: bool,
    s: Ghost<Seq<FileEntry>>,
) -> (pos: usize)
    requires
        ranks.len() == s@.len(),
        folded.len() == s@.len(),
        names.len() == s@.len(),
        k < s@.len(),
        forall|i: int| 0 <= i < s@.len() ==> ranks@[i] == kind_order(#[trigger] s@[i].kind@),
        forall|i: int| 0 <= i < s@.len() ==> folded@[i]@ == lower_text(#[trigger] s@[i].name@),
        forall|i: int| 0 <= i < s@.len() ==> names@[i]@ == (#[trigger] s@[i]).name@,
        forall|p: int| 0 <= p < order.len() ==> #[trigger] order@[p] < s@.len(),
    ensures
        pos <= order.len(),
        forall|q: int| pos <= q < order.len() ==> row_before(s@[k as int], s@[#[trigger] order@[q] as int], by_name),
        pos > 0 ==> !row_before(s@[k as int], s@[order@[pos - 1] as int], by_name),
{
    let mut pos = order.len();
    while pos > 0
        invariant
            pos <= order.len(),
            ranks.len() == s@.len(),
            folded.len() == s@.len(),
            names.len() == s@.len(),
            k < s@.len(),
            forall|i: int| 0 <= i < s@.len() ==> ranks@[i] == kind_order(#[trigger] s@[i].kind@),
            forall|i: int| 0 <= i < s@.len() ==> folded@[i]@ == lower_text(#[trigger] s@[i].name@),
            forall|i: int| 0 <= i < s@.len() ==> names@[i]@ == (#[trigger] s@[i]).name@,
            forall|p: int| 0 <= p < order.len() ==> #[trigger] order@[p] < s@.len(),
            forall|q: int| pos <= q < order.len() ==> row_before(s@[k as int], s@[#[trigger] order@[q] as int], by_name),
        decreases pos,
    {
        let o = order[pos - 1];
        assert(o < s@.len());
        let before = row_precedes(
            ranks[k], folded[k].as_str(), names[k].as_str(),
            ranks[o], folded[o].as_str(), names[o].as_str(),
            by_name,
        );
        if !before {
            return pos;
        }
        pos -= 1;
    }
    pos
}

/// Whether the row with key `(ra, la, na)` precedes the row with key `(rb, lb, nb)`.
fn row_precedes(ra: u8, la: &str, na: &str, rb: u8, lb: &str, nb: &str, by_name: bool) -> (r: bool)
    ensures
        r == key_before(ra as int, la@, na@, rb as int, lb@, nb@, by_name),
{
    if ra != rb {
        return ra < rb;
    }
    if text_precedes(la, lb) {
        return true;
    }
    by_name && same_text(la, lb) && text_precedes(na, nb)
}

/// Sorts rows stably: by group, then case-folded name, then (where `by_name`)
/// name; rows that tie keep their order.
pub fn sort_rows(entries: &Vec<FileEntry>, by_name: bool) -> (r: Vec<FileEntry>)
    ensures
        sorted_rows(entries@, r@, by_name),
{
    let ghost s = entries@;
    let n = entries.len();
    let mut ranks: Vec<u8> = Vec::new();
    let mut folded: Vec<String> = Vec::new();
    let mut names: Vec<String> = Vec::new();
    let mut i: usize = 0;
    while i < n
        invariant
            n == entries.len(),
            s == entries@,
            i <= n,
            ranks.len() == i,
            folded.len() == i,
            names.len() == i,
            forall|j: int| 0 <= j < i ==> ranks@[j] == kind_order(#[trigger] s[j].kind@),
            forall|j: int| 0 <= j < i ==> folded@[j]@ == lower_text(#[trigger] s[j].name@),
            forall|j: int| 0 <= j < i ==> names@[j]@ == (#[trigger] s[j]).name@,
        decreases n - i,
    {
        let (rank, fold) = sort_key(&entries[i]);
        ranks.push(rank);
        folded.push(fold);
        names.push(entries[i].name.clone());
        i += 1;
    }
    let mut order: Vec<usize> = Vec::new();
    let mut k: usize = 0;
    while k < n
        invariant
            n == s.len(),
            s == entries@,
            k <= n,
            ranks.len() == n,
            folded.len() == n,
            names.len() == n,
            forall|j: int| 0 <= j < n ==> ranks@[j] == kind_order(#[trigger] s[j].kind@),
            forall|j: int| 0 <= j < n ==> folded@[j]@ == lower_text(#[trigger] s[j].name@),
            forall|j: int| 0 <= j < n ==> names@[j]@ == (#[trigger] s[j]).name@,
            order.len() == k,
            forall|p: int| 0 <= p < order.len() ==> #[trigger] order@[p] < k,
            forall|p: int, q: int| 0 <= p < q < order.len() ==> order@[p] != order@[q],
            forall|p: int, q: int|
                0 <= p < q < order.len() ==> ranked_before(s, #[trigger] order@[p] as int, #[trigger] order@[q] as int, by_name),
        decreases n - k,
    {
        let pos = insertion_point(&order, &ranks, &folded, &names, k, by_name, Ghost(s));
        let ghost old_order = order@;
        proof {
            assert forall|q: int| 0 <= q < pos implies ranked_before(s, #[trigger] old_order[q] as int, k as int, by_name) by {
                let last = old_order[pos - 1] as int;
                let oq = old_order[q] as int;
                if row_before(s[k as int], s[oq], by_name) {
                    if q < pos - 1 {
                        assert(ranked_before(s, oq, last, by_name));
                        lemma_key_split(
                            kind_order(s[k as int].kind@), lower_text(s[k as int].name@), s[k as int].name@,
                            kind_order(s[oq].kind@), lower_text(s[oq].name@), s[oq].name@,
                            kind_order(s[last].kind@), lower_text(s[last].name@), s[last].name@,
                            by_name,
                        );
                        lemma_key_asymmetric(
                            kind_order(s[oq].kind@), lower_text(s[oq].name@), s[oq].name@,
                            kind_order(s[last].kind@), lower_text(s[last].name@), s[last].name@,
                            by_name,
                        );
                    }
                }
            }
            assert forall|q: int| pos <= q < old_order.len() implies ranked_before(s, k as int, #[trigger] old_order[q] as int, by_name) by {
                assert(row_before(s[k as int], s[old_order[q] as int], by_name));
            }
        }
        order.insert(pos, k);
        proof {
            let no = order@;
            assert(no == old_order.insert(pos as int, k));
            assert forall|p: int, q: int| 0 <= p < q < no.len() implies ranked_before(s, #[trigger] no[p] as int, #[trigger] no[q] as int, by_name) by {
                if q < pos {
                    assert(no[p] == old_order[p] && no[q] == old_order[q]);
                } else if q == pos {
                    assert(no[p] == old_order[p]);
                } else if p < pos {
                    assert(no[p] == old_order[p] && no[q] == old_order[q - 1]);
                } else if p == pos {
                    assert(no[q] == old_order[q - 1]);
                } else {
                    assert(no[p] == old_order[p - 1] && no[q] == old_order[q - 1]);
                }
            }
            assert forall|p: int, q: int| 0 <= p < q < no.len() implies no[p] != no[q] by {
                if q < pos {
                    assert(no[p] == old_order[p] && no[q] == old_order[q]);
                } else if q == pos {
                    assert(no[p] == old_order[p]);
                } else if p < pos {
                    assert(no[p] == old_order[p] && no[q] == old_order[q - 1]);
                } else if p == pos {
                    assert(no[q] == old_order[q - 1]);
                } else {
                    assert(no[p] == old_order[p - 1] && no[q] == old_order[q - 1]);
                }
            }
            assert forall|p: int| 0 <= p < no.len() implies #[trigger] no[p] < k + 1 by {
                if p < pos {
                    assert(no[p] == old_order[p]);
                } else if p > pos {
                    assert(no[p] == old_order[p - 1]);
                }
            }
        }
        k += 1;
    }
    let mut r: Vec<FileEntry> = Vec::new();
    let mut p: usize = 0;
    while p < n
        invariant
            n == s.len(),
            s == entries@,
            order.len() == n,
            forall|q: int| 0 <= q < order.len() ==> #[trigger] order@[q] < n,
            p <= n,
            r.len() == p,
            forall|q: int| 0 <= q < p ==> r@[q] == s[#[trigger] order@[q] as int],
        decreases n - p,
    {
        let o = order[p];
        r.push(entries[o].duplicate());
        p += 1;
    }
    assert(arranged(s, order@, by_name));
    r
}

} // verus!
