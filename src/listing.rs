//! Directory listings: which entries of an enumeration are kept, how the
//! search filter selects among them, and the order they are shown in.

use vstd::prelude::*;
use vstd::multiset::Multiset;
use crate::text::{chars_of, contains, has_infix, lower_seq, lowercase};

verus! {

/// One item of a directory enumeration, as the operating system reported it.
/// `depth` is 0 for the enumerated directory itself and 1 for its children;
/// `readable` says whether the entry's metadata could be read.
#[derive(Clone, Debug)]
pub struct RawEntry {
    pub name: String,
    pub depth: usize,
    pub readable: bool,
    pub is_dir: bool,
}

/// One entry of a listing: its name inside the listed directory, and whether
/// it was a directory when the listing was made.
#[derive(Clone, Debug)]
pub struct Entry {
    pub name: String,
    pub is_dir: bool,
}

pub struct EntryView {
    pub name: Seq<char>,
    pub is_dir: bool,
}

impl View for Entry {
    type V = EntryView;

    open spec fn view(&self) -> EntryView {
        EntryView { name: self.name@, is_dir: self.is_dir }
    }
}

pub open spec fn entries_view(v: Seq<Entry>) -> Seq<EntryView> {
    v.map_values(|e: Entry| e@)
}

/// A name that starts with `.`.
pub open spec fn is_dot(name: Seq<char>) -> bool {
    name.len() > 0 && name[0] == '.'
}

/// Sort rank: directories before files; inside each group, names without a
/// leading `.` before dot-names.
pub open spec fn rank(e: EntryView) -> nat {
    (if e.is_dir { 0nat } else { 2nat }) + (if is_dot(e.name) { 1nat } else { 0nat })
}

/// The listing entry that a kept enumeration item becomes.
pub open spec fn entry_of(r: RawEntry) -> EntryView {
    EntryView { name: r.name@, is_dir: r.is_dir }
}

/// An immediate child of the enumerated directory whose metadata is readable.
pub open spec fn is_child(r: RawEntry) -> bool {
    r.depth == 1 && r.readable
}

/// The immediate, readable children, in enumeration order.
pub open spec fn children(raw: Seq<RawEntry>) -> Seq<EntryView> {
    raw.filter(|r: RawEntry| is_child(r)).map_values(|r: RawEntry| entry_of(r))
}

/// `name` contains `filter`, both folded to lower case (ASCII).
pub open spec fn name_matches(name: Seq<char>, filter: Seq<char>) -> bool {
    has_infix(lower_seq(name), lower_seq(filter))
}

/// The entries that a filter keeps; an absent filter keeps all.
pub open spec fn filtered(s: Seq<EntryView>, filter: Option<Seq<char>>) -> Seq<EntryView> {
    match filter {
        None => s,
        Some(f) => s.filter(|e: EntryView| name_matches(e.name, f)),
    }
}

/// The entries of rank `k`, in their order in `s`.
pub open spec fn in_rank(s: Seq<EntryView>, k: nat) -> Seq<EntryView> {
    s.filter(|e: EntryView| rank(e) == k)
}

/// Stable sort by rank.
pub open spec fn arrange(s: Seq<EntryView>) -> Seq<EntryView> {
    in_rank(s, 0) + in_rank(s, 1) + in_rank(s, 2) + in_rank(s, 3)
}

/// The listing that an enumeration gives under a filter.
pub open spec fn listing_of(raw: Seq<RawEntry>, filter: Option<Seq<char>>) -> Seq<EntryView> {
    arrange(filtered(children(raw), filter))
}

pub open spec fn filter_view(filter: Option<&str>) -> Option<Seq<char>> {
    match filter {
        Some(f) => Some(f@),
        None => None,
    }
}

/// What the entries of `raw[0..i]` contribute to rank `k`.
spec fn part(raw: Seq<RawEntry>, filter: Option<Seq<char>>, i: int, k: nat) -> Seq<EntryView> {
    in_rank(filtered(children(raw.take(i)), filter), k)
}

proof fn lemma_part_step(raw: Seq<RawEntry>, filter: Option<Seq<char>>, i: int, k: nat)
    requires
        0 <= i < raw.len(),
    ensures
        part(raw, filter, i + 1, k) == if is_child(raw[i]) && (filter matches Some(f) ==> name_matches(raw[i].name@, f))
            && rank(entry_of(raw[i])) == k {
            part(raw, filter, i, k).push(entry_of(raw[i]))
        } else {
            part(raw, filter, i, k)
        },
{
    reveal(Seq::filter);
    let pc = |r: RawEntry| is_child(r);
    assert(raw.take(i + 1).drop_last() == raw.take(i));
    assert(raw.take(i + 1).last() == raw[i]);
    if is_child(raw[i]) {
        assert(raw.take(i + 1).filter(pc) == raw.take(i).filter(pc).push(raw[i]));
        assert(children(raw.take(i + 1)) =~= children(raw.take(i)).push(entry_of(raw[i])));
        let c = children(raw.take(i + 1));
        assert(c.drop_last() == children(raw.take(i)));
        match filter {
            None => {
                assert(filtered(c, filter).drop_last() == filtered(children(raw.take(i)), filter));
            },
            Some(f) => {
                let fm = |e: EntryView| name_matches(e.name, f);
                assert(c.filter(fm) == if fm(entry_of(raw[i])) {
                    children(raw.take(i)).filter(fm).push(entry_of(raw[i]))
                } else {
                    children(raw.take(i)).filter(fm)
                });
            },
        }
        let s0 = filtered(children(raw.take(i)), filter);
        let s1 = filtered(c, filter);
        if s1.len() > 0 && s1 == s0.push(entry_of(raw[i])) {
            assert(s1.drop_last() == s0);
        }
    } else {
        assert(raw.take(i + 1).filter(pc) == raw.take(i).filter(pc));
    }
}

/// Directories come before files, and inside each of the two groups no
/// dot-name comes before a name without a leading dot.
pub open spec fn dirs_first_dots_last(s: Seq<EntryView>) -> bool {
    forall|i: int, j: int|
        0 <= i < j < s.len() ==> {
            &&& (s[i].is_dir != s[j].is_dir ==> s[i].is_dir)
            &&& (s[i].is_dir == s[j].is_dir && is_dot(s[i].name) ==> is_dot(s[j].name))
        }
}

proof fn lemma_in_rank_ranks(s: Seq<EntryView>, k: nat, i: int)
    requires
        0 <= i < in_rank(s, k).len(),
    ensures
        rank(in_rank(s, k)[i]) == k,
{
    broadcast use vstd::seq_lib::group_filter_ensures;

}

proof fn lemma_arrange_ordered(s: Seq<EntryView>)
    ensures
        forall|i: int, j: int|
            0 <= i < j < arrange(s).len() ==> rank(#[trigger] arrange(s)[i]) <= rank(#[trigger] arrange(s)[j]),
{
    let (p0, p1, p2, p3) = (in_rank(s, 0), in_rank(s, 1), in_rank(s, 2), in_rank(s, 3));
    let a = arrange(s);
    let (l0, l1, l2) = (p0.len(), p0.len() + p1.len(), p0.len() + p1.len() + p2.len());
    assert forall|i: int| 0 <= i < a.len() implies rank(#[trigger] a[i]) == (if i < l0 {
        0int
    } else if i < l1 {
        1int
    } else if i < l2 {
        2int
    } else {
        3int
    }) by {
        if i < l0 {
            assert(a[i] == p0[i]);
            lemma_in_rank_ranks(s, 0, i);
        } else if i < l1 {
            assert(a[i] == p1[i - l0]);
            lemma_in_rank_ranks(s, 1, i - l0);
        } else if i < l2 {
            assert(a[i] == p2[i - l1]);
            lemma_in_rank_ranks(s, 2, i - l1);
        } else {
            assert(a[i] == p3[i - l2]);
            lemma_in_rank_ranks(s, 3, i - l2);
        }
    }
}

/// Every listing puts directories first and dot-names last inside each group.
pub proof fn lemma_listing_order(raw: Seq<RawEntry>, filter: Option<Seq<char>>)
    ensures
        dirs_first_dots_last(listing_of(raw, filter)),
{
    let a = listing_of(raw, filter);
    lemma_arrange_ordered(filtered(children(raw), filter));
    assert forall|i: int, j: int| 0 <= i < j < a.len() implies {
        &&& (a[i].is_dir != a[j].is_dir ==> a[i].is_dir)
        &&& (a[i].is_dir == a[j].is_dir && is_dot(a[i].name) ==> is_dot(a[j].name))
    } by {
        assert(rank(a[i]) <= rank(a[j]));
    }
}

proof fn lemma_rank_parts(s: Seq<EntryView>)
    ensures
        s.to_multiset() == in_rank(s, 0).to_multiset().add(in_rank(s, 1).to_multiset()).add(
            in_rank(s, 2).to_multiset(),
        ).add(in_rank(s, 3).to_multiset()),
    decreases s.len(),
{
    broadcast use vstd::seq_lib::group_to_multiset_ensures;
    broadcast use vstd::multiset::group_multiset_axioms;

    if s.len() == 0 {
        reveal(Seq::filter);
        assert(s.to_multiset() =~= Multiset::empty());
        assert(in_rank(s, 0).to_multiset() =~= Multiset::empty());
        assert(in_rank(s, 1).to_multiset() =~= Multiset::empty());
        assert(in_rank(s, 2).to_multiset() =~= Multiset::empty());
        assert(in_rank(s, 3).to_multiset() =~= Multiset::empty());
        assert(Multiset::<EntryView>::empty().add(Multiset::empty()).add(Multiset::empty()).add(
            Multiset::empty(),
        ) =~= Multiset::empty());
    } else {
        let t = s.drop_last();
        let x = s.last();
        lemma_rank_parts(t);
        assert(s == t.push(x));
        t.lemma_filter_push(x, |e: EntryView| rank(e) == 0);
        t.lemma_filter_push(x, |e: EntryView| rank(e) == 1);
        t.lemma_filter_push(x, |e: EntryView| rank(e) == 2);
        t.lemma_filter_push(x, |e: EntryView| rank(e) == 3);
        assert(s.to_multiset() =~= in_rank(s, 0).to_multiset().add(in_rank(s, 1).to_multiset()).add(
            in_rank(s, 2).to_multiset(),
        ).add(in_rank(s, 3).to_multiset()));
    }
}

/// Sorting by rank keeps every entry, each as often as before.
pub proof fn lemma_arrange_keeps_entries(s: Seq<EntryView>)
    ensures
        arrange(s).to_multiset() == s.to_multiset(),
{
    let (p0, p1, p2, p3) = (in_rank(s, 0), in_rank(s, 1), in_rank(s, 2), in_rank(s, 3));
    lemma_rank_parts(s);
    vstd::seq_lib::lemma_multiset_commutative(p0, p1);
    vstd::seq_lib::lemma_multiset_commutative(p0 + p1, p2);
    vstd::seq_lib::lemma_multiset_commutative(p0 + p1 + p2, p3);
}

/// Without a filter, a listing holds exactly the immediate children whose
/// metadata is readable, each as often as the enumeration reported it.
pub proof fn lemma_listing_is_children(raw: Seq<RawEntry>)
    ensures
        listing_of(raw, None).to_multiset() == children(raw).to_multiset(),
{
    lemma_arrange_keeps_entries(children(raw));
}

proof fn lemma_filters_commute(s: Seq<EntryView>, p: spec_fn(EntryView) -> bool, q: spec_fn(EntryView) -> bool)
    ensures
        s.filter(p).filter(q) == s.filter(q).filter(p),
    decreases s.len(),
{
    if s.len() == 0 {
        reveal(Seq::filter);
    } else {
        let t = s.drop_last();
        let x = s.last();
        lemma_filters_commute(t, p, q);
        assert(s == t.push(x));
        t.lemma_filter_push(x, p);
        t.lemma_filter_push(x, q);
        t.filter(p).lemma_filter_push(x, q);
        t.filter(q).lemma_filter_push(x, p);
    }
}

/// Listing under a filter keeps, in the same order, exactly those entries of
/// the unfiltered listing whose name contains the filter, ignoring ASCII case.
pub proof fn lemma_filter_selects(raw: Seq<RawEntry>, f: Seq<char>)
    ensures
        listing_of(raw, Some(f)) == listing_of(raw, None).filter(|e: EntryView| name_matches(e.name, f)),
{
    broadcast use vstd::seq_lib::group_seq_lib_default;

    let c = children(raw);
    let m = |e: EntryView| name_matches(e.name, f);
    lemma_filters_commute(c, m, |e: EntryView| rank(e) == 0);
    lemma_filters_commute(c, m, |e: EntryView| rank(e) == 1);
    lemma_filters_commute(c, m, |e: EntryView| rank(e) == 2);
    lemma_filters_commute(c, m, |e: EntryView| rank(e) == 3);
    let (p0, p1, p2, p3) = (in_rank(c, 0), in_rank(c, 1), in_rank(c, 2), in_rank(c, 3));
    assert((p0 + p1 + p2 + p3).filter(m) == p0.filter(m) + p1.filter(m) + p2.filter(m) + p3.filter(m));
}

proof fn lemma_filter_all(s: Seq<EntryView>, p: spec_fn(EntryView) -> bool)
    requires
        forall|e: EntryView| #[trigger] p(e),
    ensures
        s.filter(p) == s,
    decreases s.len(),
{
    reveal(Seq::filter);
    if s.len() > 0 {
        lemma_filter_all(s.drop_last(), p);
        assert(s.drop_last().push(s.last()) == s);
    }
}

/// An empty search text filters nothing out.
pub proof fn lemma_empty_filter_keeps_all(raw: Seq<RawEntry>)
    ensures
        listing_of(raw, Some(Seq::empty())) == listing_of(raw, None),
{
    let m = |e: EntryView| name_matches(e.name, Seq::empty());
    assert forall|e: EntryView| #[trigger] m(e) by {
        let t = lower_seq(e.name);
        assert(lower_seq(Seq::<char>::empty()) =~= Seq::<char>::empty());
        assert(t.subrange(0, 0) =~= Seq::<char>::empty());
        assert(crate::text::occurs_at(t, lower_seq(Seq::<char>::empty()), 0));
    }
    lemma_filter_all(children(raw), m);
}

/// No two immediate readable children of the enumeration share a name, as
/// in any directory.
pub open spec fn child_names_distinct(raw: Seq<RawEntry>) -> bool {
    forall|i: int, j: int|
        0 <= i < j < raw.len() && is_child(raw[i]) && is_child(raw[j]) ==> #[trigger] raw[i].name@ != #[trigger] raw[j].name@
}

/// No two entries share a name.
pub open spec fn names_distinct(s: Seq<EntryView>) -> bool {
    forall|i: int, j: int| 0 <= i < j < s.len() ==> #[trigger] s[i].name != #[trigger] s[j].name
}

/// `e` is the listing entry of some immediate readable child in `raw`.
spec fn from_child(raw: Seq<RawEntry>, e: EntryView) -> bool {
    exists|i: int| 0 <= i < raw.len() && is_child(raw[i]) && e == #[trigger] entry_of(raw[i])
}

proof fn lemma_children_distinct(raw: Seq<RawEntry>)
    requires
        child_names_distinct(raw),
    ensures
        names_distinct(children(raw)),
        forall|k: int| 0 <= k < children(raw).len() ==> from_child(raw, #[trigger] children(raw)[k]),
    decreases raw.len(),
{
    reveal(Seq::filter);
    if raw.len() > 0 {
        let t = raw.drop_last();
        let x = raw.last();
        let pc = |r: RawEntry| is_child(r);
        assert forall|i: int, j: int|
            0 <= i < j < t.len() && is_child(t[i]) && is_child(t[j]) implies #[trigger] t[i].name@ != #[trigger] t[j].name@ by {
            assert(t[i] == raw[i] && t[j] == raw[j]);
        }
        lemma_children_distinct(t);
        let ct = children(t);
        let c = children(raw);
        if is_child(x) {
            assert(raw.filter(pc) == t.filter(pc).push(x));
            assert(c =~= ct.push(entry_of(x)));
            assert forall|k: int| 0 <= k < ct.len() implies #[trigger] ct[k].name != entry_of(x).name by {
                assert(from_child(t, children(t)[k]));
                let i = choose|i: int| 0 <= i < t.len() && is_child(t[i]) && children(t)[k] == #[trigger] entry_of(t[i]);
                assert(raw[i] == t[i]);
                assert(c[k] == entry_of(raw[i]));
                assert(raw[raw.len() - 1] == x);
            }
            assert forall|k: int| 0 <= k < c.len() implies from_child(raw, #[trigger] c[k]) by {
                if k == ct.len() {
                    assert(raw[raw.len() - 1] == x);
                    assert(c[k] == entry_of(raw[raw.len() - 1]));
                } else {
                    assert(c[k] == ct[k]);
                    assert(from_child(t, children(t)[k]));
                    let i = choose|i: int| 0 <= i < t.len() && is_child(t[i]) && children(t)[k] == #[trigger] entry_of(t[i]);
                    assert(raw[i] == t[i]);
                    assert(c[k] == entry_of(raw[i]));
                }
            }
        } else {
            assert(raw.filter(pc) == t.filter(pc));
            assert(c == ct);
            assert forall|k: int| 0 <= k < c.len() implies from_child(raw, #[trigger] c[k]) by {
                assert(from_child(t, children(t)[k]));
                let i = choose|i: int| 0 <= i < t.len() && is_child(t[i]) && children(t)[k] == #[trigger] entry_of(t[i]);
                assert(raw[i] == t[i]);
                assert(c[k] == entry_of(raw[i]));
            }
        }
    }
}

proof fn lemma_filter_distinct(s: Seq<EntryView>, p: spec_fn(EntryView) -> bool)
    requires
        names_distinct(s),
    ensures
        names_distinct(s.filter(p)),
    decreases s.len(),
{
    reveal(Seq::filter);
    if s.len() > 0 {
        let t = s.drop_last();
        let x = s.last();
        assert forall|i: int, j: int| 0 <= i < j < t.len() implies #[trigger] t[i].name != #[trigger] t[j].name by {
            assert(t[i] == s[i] && t[j] == s[j]);
        }
        lemma_filter_distinct(t, p);
        if p(x) {
            let ft = t.filter(p);
            assert forall|k: int| 0 <= k < ft.len() implies #[trigger] ft[k].name != x.name by {
                assert(ft.contains(ft[k]));
                t.lemma_filter_contains_rev(p, ft[k]);
                let m = choose|m: int| 0 <= m < t.len() && t[m] == ft[k];
                assert(s[m] == t[m]);
                assert(s[s.len() - 1] == x);
            }
            assert(s.filter(p) == ft.push(x));
        }
    }
}

proof fn lemma_count_one(b: Seq<EntryView>, m: int)
    requires
        names_distinct(b),
        0 <= m < b.len(),
    ensures
        b.to_multiset().count(b[m]) == 1,
{
    broadcast use vstd::seq_lib::group_to_multiset_ensures;
    broadcast use vstd::multiset::group_multiset_axioms;

    let x = b[m];
    let rest = b.remove(m);
    assert forall|n: int| 0 <= n < rest.len() implies rest[n] != x by {
        if n < m {
            assert(rest[n] == b[n]);
            assert(b[n].name != b[m].name);
        } else {
            assert(rest[n] == b[n + 1]);
            assert(b[m].name != b[n + 1].name);
        }
    }
    assert(!rest.contains(x));
    assert(rest.to_multiset().count(x) == 0);
}

/// A reordering of a sequence whose names are distinct has distinct names.
proof fn lemma_perm_distinct(a: Seq<EntryView>, b: Seq<EntryView>)
    requires
        a.to_multiset() == b.to_multiset(),
        names_distinct(b),
    ensures
        names_distinct(a),
{
    broadcast use vstd::seq_lib::group_to_multiset_ensures;
    broadcast use vstd::multiset::group_multiset_axioms;

    assert forall|i: int, j: int| 0 <= i < j < a.len() implies #[trigger] a[i].name != #[trigger] a[j].name by {
        assert(a.contains(a[i]) && a.contains(a[j]));
        assert(a.to_multiset().count(a[i]) > 0 && a.to_multiset().count(a[j]) > 0);
        assert(b.to_multiset().count(a[i]) > 0 && b.to_multiset().count(a[j]) > 0);
        assert(b.contains(a[i]) && b.contains(a[j]));
        let m1 = choose|m: int| 0 <= m < b.len() && b[m] == a[i];
        let m2 = choose|m: int| 0 <= m < b.len() && b[m] == a[j];
        if m1 != m2 {
            if m1 < m2 {
                assert(b[m1].name != b[m2].name);
            } else {
                assert(b[m2].name != b[m1].name);
            }
            if a[i] == a[j] {
                assert(b[m1] == b[m2]);
            }
        } else {
            lemma_count_one(b, m1);
            let rest = a.remove(j);
            assert(rest[i] == a[i]);
            assert(rest.contains(a[i]));
            assert(rest.to_multiset().count(a[i]) >= 1);
            assert(a.to_multiset().count(a[i]) >= 2);
        }
    }
}

/// When no two children of the enumeration share a name, no two entries of
/// its listing do, so the listing holds each child at most once.
pub proof fn lemma_listing_names_distinct(raw: Seq<RawEntry>, filter: Option<Seq<char>>)
    requires
        child_names_distinct(raw),
    ensures
        names_distinct(listing_of(raw, filter)),
        listing_of(raw, filter).no_duplicates(),
{
    lemma_children_distinct(raw);
    let c = children(raw);
    let fl = filtered(c, filter);
    match filter {
        None => {},
        Some(f) => {
            lemma_filter_distinct(c, |e: EntryView| name_matches(e.name, f));
        },
    }
    lemma_arrange_keeps_entries(fl);
    lemma_perm_distinct(arrange(fl), fl);
    let l = listing_of(raw, filter);
    assert forall|i: int, j: int| 0 <= i < l.len() && 0 <= j < l.len() && i != j implies l[i] != l[j] by {
        if i < j {
            assert(l[i].name != l[j].name);
        } else {
            assert(l[j].name != l[i].name);
        }
    }
}

/// The directory listing for an enumeration `raw` under an optional search
/// filter: the immediate readable children, those whose name contains the
/// filter (ASCII case-insensitive), directories first, then files, dot-names
/// last in each group, and otherwise in enumeration order.
pub fn list(raw: &Vec<RawEntry>, filter: Option<&str>) -> (r: Vec<Entry>)
    ensures
        entries_view(r@) == listing_of(raw@, filter_view(filter)),
        dirs_first_dots_last(entries_view(r@)),
{
    proof {
        lemma_listing_order(raw@, filter_view(filter));
    }
    let folded: Option<Vec<char>> = match filter {
        Some(f) => Some(lowercase(&chars_of(f))),
        None => None,
    };
    let mut dirs: Vec<Entry> = Vec::new();
    let mut dot_dirs: Vec<Entry> = Vec::new();
    let mut files: Vec<Entry> = Vec::new();
    let mut dot_files: Vec<Entry> = Vec::new();
    let ghost fv = filter_view(filter);
    for i in 0..raw.len()
        invariant
            fv == filter_view(filter),
            folded matches Some(g) ==> fv matches Some(f) && g@ == lower_seq(f),
            folded is None ==> fv is None,
            entries_view(dirs@) == part(raw@, fv, i as int, 0),
            entries_view(dot_dirs@) == part(raw@, fv, i as int, 1),
            entries_view(files@) == part(raw@, fv, i as int, 2),
            entries_view(dot_files@) == part(raw@, fv, i as int, 3),
    {
        let item = &raw[i];
        proof {
            lemma_part_step(raw@, fv, i as int, 0);
            lemma_part_step(raw@, fv, i as int, 1);
            lemma_part_step(raw@, fv, i as int, 2);
            lemma_part_step(raw@, fv, i as int, 3);
        }
        if item.depth == 1 && item.readable {
            let name = chars_of(item.name.as_str());
            let keep = match &folded {
                Some(g) => contains(&lowercase(&name), g),
                None => true,
            };
            if keep {
                let dot = name.len() > 0 && name[0] == '.';
                let e = Entry { name: item.name.clone(), is_dir: item.is_dir };
                let ghost ev = e@;
                assert(ev == entry_of(raw@[i as int]));
                if item.is_dir && !dot {
                    let ghost prev = dirs@;
                    dirs.push(e);
                    assert(entries_view(dirs@) =~= entries_view(prev).push(ev));
                } else if item.is_dir {
                    let ghost prev = dot_dirs@;
                    dot_dirs.push(e);
                    assert(entries_view(dot_dirs@) =~= entries_view(prev).push(ev));
                } else if !dot {
                    let ghost prev = files@;
                    files.push(e);
                    assert(entries_view(files@) =~= entries_view(prev).push(ev));
                } else {
                    let ghost prev = dot_files@;
                    dot_files.push(e);
                    assert(entries_view(dot_files@) =~= entries_view(prev).push(ev));
                }
            }
        }
    }
    let ghost (a, b, c, d) = (dirs@, dot_dirs@, files@, dot_files@);
    dirs.append(&mut dot_dirs);
    dirs.append(&mut files);
    dirs.append(&mut dot_files);
    assert(raw@.take(raw@.len() as int) == raw@);
    assert(entries_view(dirs@) =~= entries_view(a) + entries_view(b) + entries_view(c) + entries_view(d));
    dirs
}

} // verus!
