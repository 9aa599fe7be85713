use crate::model::DirEntry;
use std::cmp::Ordering;
use vstd::prelude::*;
use vstd::std_specs::iter::IteratorSpec;
use vstd::utf8::encode_utf8;

verus! {

/// Strict lexicographic order on byte strings: the first differing byte
/// decides, and a proper prefix comes before the longer string.
pub open spec fn bytes_lt(a: Seq<u8>, b: Seq<u8>) -> bool
    decreases a.len(),
{
    if b.len() == 0 {
        false
    } else if a.len() == 0 {
        true
    } else if a[0] != b[0] {
        a[0] < b[0]
    } else {
        bytes_lt(a.drop_first(), b.drop_first())
    }
}

/// The key by which entries are ordered: the UTF-8 bytes of the display name.
pub open spec fn name_key(e: DirEntry) -> Seq<u8> {
    encode_utf8(e.text@)
}

/// `a` is named strictly before `b`.
pub open spec fn name_lt(a: DirEntry, b: DirEntry) -> bool {
    bytes_lt(name_key(a), name_key(b))
}

/// Every entry is named no later than each entry that follows it.
pub open spec fn sorted_by_name(s: Seq<DirEntry>) -> bool {
    forall|i: int, j: int| 0 <= i < j < s.len() ==> !name_lt(#[trigger] s[j], #[trigger] s[i])
}

/// The entry is a file.
pub open spec fn is_file(e: DirEntry) -> bool {
    e.leaf
}

/// The entry is a directory.
pub open spec fn is_subdir(e: DirEntry) -> bool {
    !e.leaf
}

/// The files of a listing, in listing order.
pub open spec fn files_of(s: Seq<DirEntry>) -> Seq<DirEntry> {
    s.filter(|e: DirEntry| is_file(e))
}

/// The subdirectories of a listing, in listing order.
pub open spec fn subdirs_of(s: Seq<DirEntry>) -> Seq<DirEntry> {
    s.filter(|e: DirEntry| is_subdir(e))
}

/// No byte string comes before itself.
pub proof fn lemma_bytes_lt_irreflexive(a: Seq<u8>)
    ensures
        !bytes_lt(a, a),
    decreases a.len(),
{
    if a.len() > 0 {
        lemma_bytes_lt_irreflexive(a.drop_first());
    }
}

/// Of two byte strings, at most one comes before the other.
pub proof fn lemma_bytes_lt_asymmetric(a: Seq<u8>, b: Seq<u8>)
    requires
        bytes_lt(a, b),
    ensures
        !bytes_lt(b, a),
    decreases a.len(),
{
    if a.len() > 0 && b.len() > 0 && a[0] == b[0] {
        lemma_bytes_lt_asymmetric(a.drop_first(), b.drop_first());
    }
}

/// What comes before a byte string comes before all that follow it.
pub proof fn lemma_bytes_lt_transitive(a: Seq<u8>, b: Seq<u8>, c: Seq<u8>)
    requires
        bytes_lt(a, b),
        bytes_lt(b, c),
    ensures
        bytes_lt(a, c),
    decreases a.len(),
{
    if a.len() > 0 && b.len() > 0 && c.len() > 0 && a[0] == b[0] && b[0] == c[0] {
        lemma_bytes_lt_transitive(a.drop_first(), b.drop_first(), c.drop_first());
    }
}

/// Two byte strings that neither precede the other are the same string.
pub proof fn lemma_bytes_lt_total(a: Seq<u8>, b: Seq<u8>)
    ensures
        bytes_lt(a, b) || bytes_lt(b, a) || a == b,
    decreases a.len(),
{
    if a.len() > 0 && b.len() > 0 && a[0] == b[0] {
        lemma_bytes_lt_total(a.drop_first(), b.drop_first());
        if a.drop_first() == b.drop_first() {
            assert(a =~= seq![a[0]] + a.drop_first());
            assert(b =~= seq![b[0]] + b.drop_first());
        }
    } else if a.len() == 0 && b.len() == 0 {
        assert(a =~= b);
    }
}

/// "Not after" is transitive: from `b` not before `a` and `c` not before `b`
/// it follows that `c` is not before `a`.
pub proof fn lemma_not_lt_transitive(a: Seq<u8>, b: Seq<u8>, c: Seq<u8>)
    requires
        !bytes_lt(b, a),
        !bytes_lt(c, b),
    ensures
        !bytes_lt(c, a),
{
    lemma_bytes_lt_total(a, b);
    lemma_bytes_lt_total(b, c);
    if bytes_lt(c, a) {
        if a == b {
        } else if b == c {
        } else {
            lemma_bytes_lt_transitive(c, a, b);
        }
    }
}

/// Whether `a` comes strictly before `b` in lexicographic byte order.
pub fn bytes_less(a: &[u8], b: &[u8]) -> (r: bool)
    ensures
        r == bytes_lt(a@, b@),
{
    let mut i: usize = 0;
    assert(a@.skip(0) =~= a@ && b@.skip(0) =~= b@);
    while i < a.len() && i < b.len()
        invariant
            i <= a.len(),
            i <= b.len(),
            bytes_lt(a@, b@) == bytes_lt(a@.skip(i as int), b@.skip(i as int)),
        decreases a.len() - i,
    {
        let ghost ra = a@.skip(i as int);
        let ghost rb = b@.skip(i as int);
        assert(ra[0] == a@[i as int] && rb[0] == b@[i as int]);
        if a[i] != b[i] {
            return a[i] < b[i];
        }
        assert(ra.drop_first() =~= a@.skip(i + 1));
        assert(rb.drop_first() =~= b@.skip(i + 1));
        i += 1;
    }
    i < b.len()
}

/// Whether `a` is named strictly before `b`.
pub fn name_less(a: &DirEntry, b: &DirEntry) -> (r: bool)
    ensures
        r == name_lt(*a, *b),
{
    bytes_less(a.text.as_str().as_bytes(), b.text.as_str().as_bytes())
}

/// Compares two entries by display name alone, byte by byte.
pub fn by_text(a: &DirEntry, b: &DirEntry) -> (r: Ordering)
    ensures
        (r is Less) == name_lt(*a, *b),
        (r is Greater) == name_lt(*b, *a),
        (r is Equal) == (name_key(*a) == name_key(*b)),
{
    proof {
        lemma_bytes_lt_total(name_key(*a), name_key(*b));
        lemma_bytes_lt_irreflexive(name_key(*a));
        if name_lt(*a, *b) {
            lemma_bytes_lt_asymmetric(name_key(*a), name_key(*b));
        }
    }
    if name_less(a, b) {
        Ordering::Less
    } else if name_less(b, a) {
        Ordering::Greater
    } else {
        Ordering::Equal
    }
}

/// Splits a listing into its files and its subdirectories in a single pass;
/// each part keeps the order of the listing.
pub fn split_files_subdirs(directory: Vec<DirEntry>) -> (parts: (Vec<DirEntry>, Vec<DirEntry>))
    ensures
        parts.0@ == files_of(directory@),
        parts.1@ == subdirs_of(directory@),
{
    let mut files: Vec<DirEntry> = Vec::with_capacity(directory.len());
    let mut subdirs: Vec<DirEntry> = Vec::with_capacity(directory.len());
    let ghost all = directory@;
    assert(all.take(0) =~= Seq::<DirEntry>::empty());
    for entry in it: directory
        invariant
            it.seq() == all,
            files@ == files_of(all.take(it.index() as int)),
            subdirs@ == subdirs_of(all.take(it.index() as int)),
    {
        proof {
            let seen = all.take(it.index() as int);
            assert(all.take(it.index() + 1) =~= seen.push(entry));
            seen.lemma_filter_push(entry, |e: DirEntry| is_file(e));
            seen.lemma_filter_push(entry, |e: DirEntry| is_subdir(e));
        }
        if entry.leaf {
            files.push(entry)
        } else {
            subdirs.push(entry)
        }
    }
    assert(all.take(all.len() as int) =~= all);
    (files, subdirs)
}

/// Inserting a value at any position adds exactly that value to the contents.
pub proof fn lemma_insert_to_multiset(s: Seq<DirEntry>, pos: int, e: DirEntry)
    requires
        0 <= pos <= s.len(),
    ensures
        s.insert(pos, e).to_multiset() == s.to_multiset().insert(e),
{
    broadcast use vstd::seq_lib::group_to_multiset_ensures;

    let t = s.insert(pos, e);
    assert(t[pos] == e);
    assert(t.remove(pos) =~= s);
    assert(t.contains(e));
    assert(t.to_multiset() =~= s.to_multiset().insert(e));
}

/// The place at which `entry` keeps `sorted` in order: behind every entry
/// that is not named after it.
fn insertion_point(sorted: &Vec<DirEntry>, entry: &DirEntry) -> (pos: usize)
    requires
        sorted_by_name(sorted@),
    ensures
        pos <= sorted@.len(),
        forall|i: int| 0 <= i < pos ==> !name_lt(*entry, #[trigger] sorted@[i]),
        forall|i: int| pos <= i < sorted@.len() ==> name_lt(*entry, #[trigger] sorted@[i]),
{
    let mut pos: usize = sorted.len();
    let mut searching = true;
    while searching && pos > 0
        invariant
            pos <= sorted@.len(),
            forall|i: int| pos <= i < sorted@.len() ==> name_lt(*entry, #[trigger] sorted@[i]),
            !searching ==> pos > 0 && !name_lt(*entry, sorted@[pos - 1]),
        decreases pos + if searching { 1int } else { 0int },
    {
        match by_text(entry, &sorted[pos - 1]) {
            Ordering::Less => {
                pos -= 1;
            },
            _ => {
                searching = false;
            },
        }
    }
    proof {
        if pos > 0 {
            let last = sorted@[pos - 1];
            assert forall|i: int| 0 <= i < pos implies !name_lt(*entry, #[trigger] sorted@[i]) by {
                if i < pos - 1 {
                    lemma_not_lt_transitive(name_key(sorted@[i]), name_key(last), name_key(*entry));
                }
            }
        }
    }
    pos
}

/// Orders a listing by display name.
pub fn sort_by_text(entries: Vec<DirEntry>) -> (sorted: Vec<DirEntry>)
    ensures
        sorted@.to_multiset() == entries@.to_multiset(),
        sorted@.len() == entries@.len(),
        sorted_by_name(sorted@),
{
    let mut sorted: Vec<DirEntry> = Vec::with_capacity(entries.len());
    let ghost all = entries@;
    assert(all.take(0) =~= Seq::<DirEntry>::empty());
    for entry in it: entries
        invariant
            it.seq() == all,
            sorted@.to_multiset() == all.take(it.index() as int).to_multiset(),
            sorted@.len() == it.index(),
            sorted_by_name(sorted@),
    {
        let pos = insertion_point(&sorted, &entry);
        proof {
            let before = sorted@;
            let after = before.insert(pos as int, entry);
            lemma_insert_to_multiset(before, pos as int, entry);
            let seen = all.take(it.index() as int);
            assert(all.take(it.index() + 1) =~= seen.push(entry));
            vstd::seq_lib::to_multiset_build(seen, entry);
            assert forall|i: int, j: int| 0 <= i < j < after.len() implies !name_lt(
                #[trigger] after[j],
                #[trigger] after[i],
            ) by {
                if j == pos {
                } else if i == pos {
                    lemma_bytes_lt_asymmetric(name_key(entry), name_key(after[j]));
                } else {
                    let bi = if i < pos { i } else { i - 1 };
                    let bj = if j < pos { j } else { j - 1 };
                    assert(after[i] == before[bi] && after[j] == before[bj]);
                }
            }
        }
        sorted.insert(pos, entry);
    }
    assert(all.take(all.len() as int) =~= all);
    sorted
}

/// No two entries bear the same name.
pub open spec fn names_unique(s: Seq<DirEntry>) -> bool {
    forall|i: int, j: int|
        0 <= i < j < s.len() ==> name_key(#[trigger] s[i]) != name_key(#[trigger] s[j])
}

/// Where no two entries bear the same name, the first entry of a listing
/// in name order is the same in every such ordering of the same entries.
proof fn lemma_first_in_name_order(a: Seq<DirEntry>, b: Seq<DirEntry>)
    requires
        a.len() > 0,
        a.to_multiset() == b.to_multiset(),
        sorted_by_name(a),
        sorted_by_name(b),
        names_unique(a),
    ensures
        b.len() == a.len(),
        a[0] == b[0],
{
    broadcast use vstd::seq_lib::group_to_multiset_ensures;

    a.to_multiset_ensures();
    b.to_multiset_ensures();
    assert(b.len() == a.len());
    assert(b.contains(b[0]));
    assert(a.to_multiset().count(b[0]) > 0);
    assert(a.contains(b[0]));
    let k = choose|k: int| 0 <= k < a.len() && a[k] == b[0];
    if k > 0 {
        assert(a.contains(a[0]));
        assert(b.to_multiset().count(a[0]) > 0);
        assert(b.contains(a[0]));
        let m = choose|m: int| 0 <= m < b.len() && b[m] == a[0];
        assert(name_key(a[0]) != name_key(a[k]));
        assert(m > 0);
        assert(!name_lt(b[m], b[0]));
        assert(!name_lt(a[k], a[0]));
        lemma_bytes_lt_total(name_key(a[0]), name_key(a[k]));
        assert(false);
    }
}

/// The order by name is one order: where no two entries bear the same
/// name, two listings of the same entries that are both in name order are
/// the same listing.
pub proof fn law_name_order_is_unique(a: Seq<DirEntry>, b: Seq<DirEntry>)
    requires
        a.to_multiset() == b.to_multiset(),
        sorted_by_name(a),
        sorted_by_name(b),
        names_unique(a),
    ensures
        a == b,
    decreases a.len(),
{
    broadcast use vstd::seq_lib::group_to_multiset_ensures;

    a.to_multiset_ensures();
    b.to_multiset_ensures();
    if a.len() == 0 {
        assert(b.len() == 0);
        assert(a =~= b);
    } else {
        lemma_first_in_name_order(a, b);
        let ta = a.drop_first();
        let tb = b.drop_first();
        assert(ta =~= a.remove(0));
        assert(tb =~= b.remove(0));
        assert(ta.to_multiset() == tb.to_multiset());
        assert forall|i: int, j: int| 0 <= i < j < ta.len() implies !name_lt(
            #[trigger] ta[j],
            #[trigger] ta[i],
        ) by {
            assert(ta[i] == a[i + 1] && ta[j] == a[j + 1]);
        }
        assert forall|i: int, j: int| 0 <= i < j < tb.len() implies !name_lt(
            #[trigger] tb[j],
            #[trigger] tb[i],
        ) by {
            assert(tb[i] == b[i + 1] && tb[j] == b[j + 1]);
        }
        assert forall|i: int, j: int| 0 <= i < j < ta.len() implies name_key(#[trigger] ta[i])
            != name_key(#[trigger] ta[j]) by {
            assert(ta[i] == a[i + 1] && ta[j] == a[j + 1]);
        }
        law_name_order_is_unique(ta, tb);
        assert(a =~= seq![a[0]] + ta);
        assert(b =~= seq![b[0]] + tb);
    }
}

} // verus!
