//! Ordered tables without duplicates: every item is kept once, at the position where it
//! was first put, and found again by its content.
//!
//! The tables of a container are built this way when it is encoded: the first time a
//! string or a struct identity is seen decides its index, and every later occurrence gets
//! the same index. The items are the keys of an `indexmap::IndexMap`, which finds a key by
//! its hash and walks its entries in the order they were put; the value kept with a key is
//! the key's position. A table is read out by sorting its entries by that position, with
//! `itertools`.

use vstd::prelude::*;
use indexmap::IndexMap;
use itertools::Itertools;
use crate::bytes::copy_bytes;
use crate::nucc::{infos_view, NuccStructInfo, StructInfoView};
use crate::xfbin_file::strings_view;

verus! {

/// The map from outside that the tables are kept in. Nothing inside it is visible here.
#[verifier::external_type_specification]
#[verifier::external_body]
#[verifier::reject_recursive_types(K)]
#[verifier::reject_recursive_types(V)]
#[verifier::reject_recursive_types(S)]
pub struct ExIndexMap<K, V, S>(IndexMap<K, V, S>);

/// The entries of a map, in the order in which the map walks them: each key, by its
/// content, and the value kept with it.
pub uninterp spec fn map_entries(m: IndexMap<Vec<Vec<u8>>, u32>) -> Seq<(Seq<Seq<u8>>, u32)>;

/// `IndexMap::new`: a map without entries.
#[verifier::external_body]
fn map_new() -> (m: IndexMap<Vec<Vec<u8>>, u32>)
    ensures
        map_entries(m) == Seq::<(Seq<Seq<u8>>, u32)>::empty(),
{
    IndexMap::new()
}

/// `IndexMap::len`: the number of entries.
#[verifier::external_body]
fn map_len(m: &IndexMap<Vec<Vec<u8>>, u32>) -> (n: usize)
    ensures
        n == map_entries(*m).len(),
{
    m.len()
}

/// `IndexMap::get`: the value of the entry whose key has the content of `key`, and `None`
/// where the map holds no such entry.
#[verifier::external_body]
fn map_get(m: &IndexMap<Vec<Vec<u8>>, u32>, key: &Vec<Vec<u8>>) -> (r: Option<u32>)
    ensures
        forall|i: int|
            0 <= i < map_entries(*m).len() && (#[trigger] map_entries(*m)[i]).0 == strings_view(
                key@,
            ) ==> r == Some(map_entries(*m)[i].1),
        (forall|i: int|
            0 <= i < map_entries(*m).len() ==> (#[trigger] map_entries(*m)[i]).0 != strings_view(
                key@,
            )) ==> r.is_none(),
{
    m.get(key).copied()
}

/// `IndexMap::entry` followed by `Entry::or_insert`: where the map holds an entry whose
/// key has the content of `key`, the map stays as it is and that entry's value is
/// returned; where it holds none, the entry of `key` and `value` is put after all others
/// and `value` is returned.
#[verifier::external_body]
fn map_entry_or_insert(m: &mut IndexMap<Vec<Vec<u8>>, u32>, key: Vec<Vec<u8>>, value: u32) -> (r:
    u32)
    ensures
        forall|i: int|
            0 <= i < map_entries(*old(m)).len() && (#[trigger] map_entries(*old(m))[i]).0
                == strings_view(key@) ==> map_entries(*final(m)) == map_entries(*old(m)) && r
                == map_entries(*old(m))[i].1,
        (forall|i: int|
            0 <= i < map_entries(*old(m)).len() ==> (#[trigger] map_entries(*old(m))[i]).0
                != strings_view(key@)) ==> map_entries(*final(m)) == map_entries(*old(m)).push(
            (strings_view(key@), value),
        ) && r == value,
{
    *m.entry(key).or_insert(value)
}

/// What each pair of a key and a value of a list holds.
pub open spec fn pairs_view(v: Seq<(Vec<Vec<u8>>, u32)>) -> Seq<(Seq<Seq<u8>>, u32)> {
    v.map_values(|e: (Vec<Vec<u8>>, u32)| (strings_view(e.0@), e.1))
}

/// `IndexMap::iter`: the entries, in the order in which the map walks them.
#[verifier::external_body]
fn map_iter(m: &IndexMap<Vec<Vec<u8>>, u32>) -> (r: Vec<(Vec<Vec<u8>>, u32)>)
    ensures
        pairs_view(r@) == map_entries(*m),
{
    m.iter().map(|(k, v)| (k.clone(), *v)).collect()
}

/// `Itertools::sorted_by_key` with the value as the key: the same pairs, each as often as
/// before, in ascending order of their values. That pairs of one value keep their order
/// is not stated here.
#[verifier::external_body]
fn sorted_by_value(entries: Vec<(Vec<Vec<u8>>, u32)>) -> (r: Vec<(Vec<Vec<u8>>, u32)>)
    ensures
        pairs_view(r@).to_multiset() == pairs_view(entries@).to_multiset(),
        forall|i: int, j: int|
            0 <= i < j < r@.len() ==> (#[trigger] r@[i]).1 <= (#[trigger] r@[j]).1,
{
    entries.into_iter().sorted_by_key(|(_, v)| *v).collect()
}

/// In a run of pairs whose values rise strictly, the value at `i` is at least `i`.
pub proof fn lemma_rising_from<K>(r: Seq<(K, u32)>, i: int)
    requires
        forall|a: int, b: int| 0 <= a < b < r.len() ==> (#[trigger] r[a]).1 < (#[trigger] r[b]).1,
        0 <= i < r.len(),
    ensures
        r[i].1 >= i,
    decreases i,
{
    if i > 0 {
        lemma_rising_from(r, i - 1);
    }
}

/// In a run of pairs whose values rise strictly and stay below the length of the run, the
/// value at `i` is at most `i`.
pub proof fn lemma_rising_to<K>(r: Seq<(K, u32)>, i: int)
    requires
        forall|a: int, b: int| 0 <= a < b < r.len() ==> (#[trigger] r[a]).1 < (#[trigger] r[b]).1,
        forall|a: int| 0 <= a < r.len() ==> (#[trigger] r[a]).1 < r.len(),
        0 <= i < r.len(),
    ensures
        r[i].1 <= i,
    decreases r.len() - i,
{
    if i < r.len() - 1 {
        lemma_rising_to(r, i + 1);
    }
}

/// Pairs whose values are their positions are in order already: sorting them by value
/// gives them back as they are.
pub proof fn lemma_sorted_by_position<K>(a: Seq<(K, u32)>, r: Seq<(K, u32)>)
    requires
        forall|i: int| 0 <= i < a.len() ==> (#[trigger] a[i]).1 == i,
        r.to_multiset() == a.to_multiset(),
        forall|i: int, j: int| 0 <= i < j < r.len() ==> (#[trigger] r[i]).1 <= (#[trigger] r[j]).1,
    ensures
        r == a,
{
    a.to_multiset_ensures();
    r.to_multiset_ensures();
    assert(a.no_duplicates()) by {
        assert forall|i: int, j: int| 0 <= i < a.len() && 0 <= j < a.len() && i != j implies a[i]
            != a[j] by {
            assert(a[i].1 != a[j].1);
        }
    }
    a.lemma_multiset_has_no_duplicates();
    r.lemma_multiset_has_no_duplicates_conv();
    assert forall|i: int| 0 <= i < r.len() implies (#[trigger] r[i]).1 < a.len() && a[r[i].1 as int]
        == r[i] by {
        assert(r.contains(r[i]));
        assert(r.to_multiset().count(r[i]) > 0);
        assert(a.to_multiset().count(r[i]) > 0);
        assert(a.contains(r[i]));
        let j = choose|j: int| 0 <= j < a.len() && a[j] == r[i];
        assert(a[j].1 == j);
    }
    assert forall|i: int, j: int| 0 <= i < j < r.len() implies (#[trigger] r[i]).1 < (
    #[trigger] r[j]).1 by {
        if r[i].1 == r[j].1 {
            assert(a[r[i].1 as int] == r[i]);
            assert(a[r[j].1 as int] == r[j]);
            assert(r[i] == r[j]);
        }
    }
    assert forall|i: int| 0 <= i < r.len() implies r[i] == a[i] by {
        lemma_rising_from(r, i);
        lemma_rising_to(r, i);
        assert(a[r[i].1 as int] == r[i]);
    }
    assert(r =~= a);
}

/// `s` with `a` put at its end, unless `s` holds `a` already.
pub open spec fn push_new<A>(s: Seq<A>, a: A) -> Seq<A> {
    if s.contains(a) {
        s
    } else {
        s.push(a)
    }
}

/// `s` with each of `items` put at its end in turn, unless it is held already.
pub open spec fn push_all_new<A>(s: Seq<A>, items: Seq<A>) -> Seq<A>
    decreases items.len(),
{
    if items.len() == 0 {
        s
    } else {
        push_new(push_all_new(s, items.drop_last()), items.last())
    }
}

/// The items of `items` without repetitions, each where it first occurs.
pub open spec fn dedup<A>(items: Seq<A>) -> Seq<A> {
    push_all_new(Seq::empty(), items)
}

/// The position of `a` in `s`, where `s` holds it.
pub open spec fn slot_of<A>(s: Seq<A>, a: A) -> int {
    s.index_of(a)
}

/// Putting an item that may be new keeps what was there in place, holds the item
/// afterwards, and repeats nothing if nothing was repeated before.
pub proof fn lemma_push_new<A>(s: Seq<A>, a: A)
    ensures
        push_new(s, a).contains(a),
        s.len() <= push_new(s, a).len() <= s.len() + 1,
        forall|i: int| 0 <= i < s.len() ==> push_new(s, a)[i] == s[i],
        forall|b: A| s.contains(b) ==> push_new(s, a).contains(b),
        forall|b: A| push_new(s, a).contains(b) ==> s.contains(b) || b == a,
        s.no_duplicates() ==> push_new(s, a).no_duplicates(),
{
    let t = push_new(s, a);
    if !s.contains(a) {
        assert(t[s.len() as int] == a);
        assert forall|b: A| s.contains(b) implies t.contains(b) by {
            let i = choose|i: int| 0 <= i < s.len() && s[i] == b;
            assert(t[i] == b);
        }
        assert forall|b: A| t.contains(b) implies s.contains(b) || b == a by {
            let i = choose|i: int| 0 <= i < t.len() && t[i] == b;
            if i < s.len() {
                assert(s[i] == b);
            }
        }
        if s.no_duplicates() {
            assert forall|i: int, j: int| 0 <= i < t.len() && 0 <= j < t.len() && i != j implies t[i]
                != t[j] by {
                if i < s.len() && j < s.len() {
                    assert(s[i] != s[j]);
                } else if i < s.len() {
                    assert(s.contains(s[i]));
                } else if j < s.len() {
                    assert(s.contains(s[j]));
                }
            }
        }
    }
}

/// Putting items that may be new keeps what was there in place, holds every one of the
/// items afterwards and nothing else that is new, and repeats nothing if nothing was
/// repeated before.
pub proof fn lemma_push_all_new<A>(s: Seq<A>, items: Seq<A>)
    ensures
        s.len() <= push_all_new(s, items).len() <= s.len() + items.len(),
        forall|i: int| 0 <= i < s.len() ==> push_all_new(s, items)[i] == s[i],
        forall|b: A| s.contains(b) ==> push_all_new(s, items).contains(b),
        forall|k: int| 0 <= k < items.len() ==> push_all_new(s, items).contains(#[trigger] items[k]),
        forall|b: A| push_all_new(s, items).contains(b) ==> s.contains(b) || items.contains(b),
        s.no_duplicates() ==> push_all_new(s, items).no_duplicates(),
    decreases items.len(),
{
    if items.len() > 0 {
        let head = items.drop_last();
        let mid = push_all_new(s, head);
        lemma_push_all_new(s, head);
        lemma_push_new(mid, items.last());
        let t = push_all_new(s, items);
        assert forall|k: int| 0 <= k < items.len() implies t.contains(#[trigger] items[k]) by {
            if k < head.len() {
                assert(head[k] == items[k]);
                assert(mid.contains(head[k]));
            }
        }
        assert forall|b: A| t.contains(b) implies s.contains(b) || items.contains(b) by {
            if mid.contains(b) {
                if !s.contains(b) {
                    assert(head.contains(b));
                    let k = choose|k: int| 0 <= k < head.len() && head[k] == b;
                    assert(items[k] == b);
                }
            } else {
                assert(b == items.last());
                assert(items[items.len() - 1] == b);
            }
        }
    }
}

/// The position of an item that a sequence without repetitions holds at `i` is `i`.
pub proof fn lemma_slot_of<A>(s: Seq<A>, i: int)
    requires
        s.no_duplicates(),
        0 <= i < s.len(),
    ensures
        slot_of(s, s[i]) == i,
        s.contains(s[i]),
{
    assert(s.contains(s[i]));
    let j = s.index_of(s[i]);
    assert(0 <= j < s.len() && s[j] == s[i]);
}

/// The position of an item that a sequence holds lies in the sequence, and the item
/// stands there.
pub proof fn lemma_slot_in_range<A>(s: Seq<A>, a: A)
    requires
        s.contains(a),
    ensures
        0 <= slot_of(s, a) < s.len(),
        s[slot_of(s, a)] == a,
{
    let j = choose|j: int| 0 <= j < s.len() && s[j] == a;
    assert(0 <= j < s.len() && s[j] == a);
}

/// The key that an identity is kept under: its name, its kind tag and its path.
pub open spec fn info_key(info: StructInfoView) -> Seq<Seq<u8>> {
    seq![info.chunk_name, info.chunk_type, info.filepath]
}

/// The identity that a key of three strings stands for.
pub open spec fn key_info(key: Seq<Seq<u8>>) -> StructInfoView {
    StructInfoView { chunk_name: key[0], chunk_type: key[1], filepath: key[2] }
}

/// An ordered table of struct identities without duplicates.
pub struct StructInfoTable {
    map: IndexMap<Vec<Vec<u8>>, u32>,
}

/// An ordered table of byte strings without duplicates.
pub struct StringTable {
    map: IndexMap<Vec<Vec<u8>>, u32>,
}

impl StructInfoTable {
    /// The identities of the table, in the order in which they were first put.
    pub closed spec fn infos(&self) -> Seq<StructInfoView> {
        Seq::new(map_entries(self.map).len(), |i: int| key_info(map_entries(self.map)[i].0))
    }

    /// The table is sound: every key is an identity's, the value kept with it is its
    /// position, and no identity is held twice.
    pub closed spec fn wf(&self) -> bool {
        &&& forall|i: int|
            0 <= i < map_entries(self.map).len() ==> (#[trigger] map_entries(self.map)[i]).0.len()
                == 3 && map_entries(self.map)[i].1 == i
        &&& self.infos().no_duplicates()
    }

    /// A sound table holds nothing twice.
    pub proof fn lemma_no_duplicates(&self)
        requires
            self.wf(),
        ensures
            self.infos().no_duplicates(),
    {
    }

    /// A table without identities.
    pub fn new() -> (t: StructInfoTable)
        ensures
            t.wf(),
            t.infos() == Seq::<StructInfoView>::empty(),
    {
        let t = StructInfoTable { map: map_new() };
        assert(t.infos() =~= Seq::<StructInfoView>::empty());
        t
    }

    /// The number of identities of the table.
    pub fn len(&self) -> (n: usize)
        ensures
            n == self.infos().len(),
    {
        map_len(&self.map)
    }

    /// The position of `info` in the table. Where the table does not hold it yet, it is put
    /// at the end first; where it cannot be, because its position would not fit 32 bits,
    /// the table stays as it is and `None` is returned.
    #[verifier::rlimit(50)]
    pub fn index_or_insert(&mut self, info: &NuccStructInfo) -> (r: Option<u32>)
        requires
            old(self).wf(),
        ensures
            final(self).wf(),
            old(self).infos().contains(info@) || old(self).infos().len() <= 0xFFFF_FFFF ==> r
                == Some(slot_of(push_new(old(self).infos(), info@), info@) as u32)
                && final(self).infos() == push_new(old(self).infos(), info@),
            !old(self).infos().contains(info@) && old(self).infos().len() > 0xFFFF_FFFF ==> r.is_none()
                && final(self).infos() == old(self).infos(),
    {
        let mut key: Vec<Vec<u8>> = Vec::new();
        key.push(copy_bytes(info.chunk_name.as_slice()));
        key.push(copy_bytes(info.chunk_type.as_slice()));
        key.push(copy_bytes(info.filepath.as_slice()));
        let ghost entries = map_entries(self.map);
        let ghost infos = self.infos();
        proof {
            assert(strings_view(key@) =~= info_key(info@));
            assert forall|i: int| 0 <= i < entries.len() implies ((#[trigger] entries[i]).0
                == info_key(info@) <==> infos[i] == info@) by {
                assert(entries[i].0.len() == 3);
                if infos[i] == info@ {
                    assert(entries[i].0 =~= info_key(info@));
                }
            }
            if infos.contains(info@) {
                let i = choose|i: int| 0 <= i < infos.len() && infos[i] == info@;
                assert(entries[i].0 == info_key(info@));
                lemma_slot_of(infos, i);
            } else {
                assert forall|i: int| 0 <= i < entries.len() implies (#[trigger] entries[i]).0
                    != info_key(info@) by {
                    if entries[i].0 == info_key(info@) {
                        assert(infos[i] == info@);
                    }
                }
            }
        }
        match map_get(&self.map, &key) {
            Some(v) => Some(v),
            None => {
                let n: usize = map_len(&self.map);
                if n > 0xFFFF_FFFF {
                    return None;
                }
                let v = map_entry_or_insert(&mut self.map, key, n as u32);
                proof {
                    assert(self.infos() =~= infos.push(info@));
                    lemma_push_new(infos, info@);
                    lemma_slot_of(self.infos(), n as int);
                }
                Some(v)
            },
        }
    }

    /// The identities of the table, in the order in which they were first put.
    #[verifier::rlimit(50)]
    pub fn to_vec(&self) -> (v: Vec<NuccStructInfo>)
        requires
            self.wf(),
        ensures
            infos_view(v@) == self.infos(),
    {
        let entries = sorted_by_value(map_iter(&self.map));
        proof {
            lemma_sorted_by_position(map_entries(self.map), pairs_view(entries@));
        }
        let mut out: Vec<NuccStructInfo> = Vec::new();
        let mut i: usize = 0;
        assert(infos_view(out@) =~= self.infos().subrange(0, 0));
        while i < entries.len()
            invariant
                i <= entries@.len(),
                self.wf(),
                pairs_view(entries@) == map_entries(self.map),
                infos_view(out@) == self.infos().subrange(0, i as int),
            decreases entries@.len() - i,
        {
            let ghost before = out@;
            assert(pairs_view(entries@)[i as int].0 == strings_view(entries@[i as int].0@));
            assert(map_entries(self.map)[i as int].0.len() == 3);
            assert(strings_view(entries@[i as int].0@).len() == 3);
            let key = &entries[i].0;
            assert(strings_view(key@)[0] == key@[0]@);
            assert(strings_view(key@)[1] == key@[1]@);
            assert(strings_view(key@)[2] == key@[2]@);
            let info = NuccStructInfo::new(
                key[0].as_slice(),
                key[1].as_slice(),
                key[2].as_slice(),
            );
            out.push(info);
            i += 1;
            assert(infos_view(out@) =~= infos_view(before).push(info@));
            assert(infos_view(out@) =~= self.infos().subrange(0, i as int));
        }
        assert(self.infos().subrange(0, entries@.len() as int) =~= self.infos());
        out
    }
}

impl StringTable {
    /// The strings of the table, in the order in which they were first put.
    pub closed spec fn strings(&self) -> Seq<Seq<u8>> {
        Seq::new(map_entries(self.map).len(), |i: int| map_entries(self.map)[i].0[0])
    }

    /// The table is sound: every key is one string, the value kept with it is its
    /// position, and no string is held twice.
    pub closed spec fn wf(&self) -> bool {
        &&& forall|i: int|
            0 <= i < map_entries(self.map).len() ==> (#[trigger] map_entries(self.map)[i]).0.len()
                == 1 && map_entries(self.map)[i].1 == i
        &&& self.strings().no_duplicates()
    }

    /// A sound table holds nothing twice.
    pub proof fn lemma_no_duplicates(&self)
        requires
            self.wf(),
        ensures
            self.strings().no_duplicates(),
    {
    }

    /// A table without strings.
    pub fn new() -> (t: StringTable)
        ensures
            t.wf(),
            t.strings() == Seq::<Seq<u8>>::empty(),
    {
        let t = StringTable { map: map_new() };
        assert(t.strings() =~= Seq::<Seq<u8>>::empty());
        t
    }

    /// The number of strings of the table.
    pub fn len(&self) -> (n: usize)
        ensures
            n == self.strings().len(),
    {
        map_len(&self.map)
    }

    /// The position of `text` in the table. Where the table does not hold it yet, it is put
    /// at the end first; where it cannot be, because its position would not fit 32 bits,
    /// the table stays as it is and `None` is returned.
    #[verifier::rlimit(50)]
    pub fn index_or_insert(&mut self, text: &[u8]) -> (r: Option<u32>)
        requires
            old(self).wf(),
        ensures
            final(self).wf(),
            old(self).strings().contains(text@) || old(self).strings().len() <= 0xFFFF_FFFF ==> r
                == Some(slot_of(push_new(old(self).strings(), text@), text@) as u32)
                && final(self).strings() == push_new(old(self).strings(), text@),
            !old(self).strings().contains(text@) && old(self).strings().len() > 0xFFFF_FFFF
                ==> r.is_none() && final(self).strings() == old(self).strings(),
    {
        let mut key: Vec<Vec<u8>> = Vec::new();
        key.push(copy_bytes(text));
        let ghost entries = map_entries(self.map);
        let ghost strings = self.strings();
        proof {
            assert(strings_view(key@) =~= seq![text@]);
            assert forall|i: int| 0 <= i < entries.len() implies ((#[trigger] entries[i]).0
                == seq![text@] <==> strings[i] == text@) by {
                assert(entries[i].0.len() == 1);
                if strings[i] == text@ {
                    assert(entries[i].0 =~= seq![text@]);
                }
            }
            if strings.contains(text@) {
                let i = choose|i: int| 0 <= i < strings.len() && strings[i] == text@;
                assert(entries[i].0 == seq![text@]);
                lemma_slot_of(strings, i);
            } else {
                assert forall|i: int| 0 <= i < entries.len() implies (#[trigger] entries[i]).0
                    != seq![text@] by {
                    if entries[i].0 == seq![text@] {
                        assert(strings[i] == text@);
                    }
                }
            }
        }
        match map_get(&self.map, &key) {
            Some(v) => Some(v),
            None => {
                let n: usize = map_len(&self.map);
                if n > 0xFFFF_FFFF {
                    return None;
                }
                let v = map_entry_or_insert(&mut self.map, key, n as u32);
                proof {
                    assert(self.strings() =~= strings.push(text@));
                    lemma_push_new(strings, text@);
                    lemma_slot_of(self.strings(), n as int);
                }
                Some(v)
            },
        }
    }

    /// The strings of the table, in the order in which they were first put.
    #[verifier::rlimit(50)]
    pub fn to_vec(&self) -> (v: Vec<Vec<u8>>)
        requires
            self.wf(),
        ensures
            strings_view(v@) == self.strings(),
    {
        let entries = sorted_by_value(map_iter(&self.map));
        proof {
            lemma_sorted_by_position(map_entries(self.map), pairs_view(entries@));
        }
        let mut out: Vec<Vec<u8>> = Vec::new();
        let mut i: usize = 0;
        assert(strings_view(out@) =~= self.strings().subrange(0, 0));
        while i < entries.len()
            invariant
                i <= entries@.len(),
                self.wf(),
                pairs_view(entries@) == map_entries(self.map),
                strings_view(out@) == self.strings().subrange(0, i as int),
            decreases entries@.len() - i,
        {
            let ghost before = out@;
            assert(pairs_view(entries@)[i as int].0 == strings_view(entries@[i as int].0@));
            assert(map_entries(self.map)[i as int].0.len() == 1);
            assert(strings_view(entries@[i as int].0@).len() == 1);
            let key = &entries[i].0;
            assert(strings_view(key@)[0] == key@[0]@);
            let text = copy_bytes(key[0].as_slice());
            out.push(text);
            i += 1;
            assert(strings_view(out@) =~= strings_view(before).push(text@));
            assert(strings_view(out@) =~= self.strings().subrange(0, i as int));
        }
        assert(self.strings().subrange(0, entries@.len() as int) =~= self.strings());
        out
    }
}


/// The position of an item stays what it is when more items are put after it.
pub proof fn lemma_slot_stable<A>(s: Seq<A>, t: Seq<A>, a: A)
    requires
        s.len() <= t.len(),
        forall|i: int| 0 <= i < s.len() ==> t[i] == s[i],
        t.no_duplicates(),
        s.contains(a),
    ensures
        slot_of(t, a) == slot_of(s, a),
        t.contains(a),
{
    lemma_slot_in_range(s, a);
    let i = slot_of(s, a);
    assert(t[i] == a);
    lemma_slot_of(t, i);
}

/// Putting two runs of items one after the other is putting them as one run.
pub proof fn lemma_push_all_new_concat<A>(s: Seq<A>, a: Seq<A>, b: Seq<A>)
    ensures
        push_all_new(s, a + b) == push_all_new(push_all_new(s, a), b),
    decreases b.len(),
{
    if b.len() == 0 {
        assert(a + b =~= a);
    } else {
        assert((a + b).drop_last() =~= a + b.drop_last());
        assert((a + b).last() == b.last());
        lemma_push_all_new_concat(s, a, b.drop_last());
    }
}

/// Putting items that are all held already changes nothing.
pub proof fn lemma_push_all_held<A>(s: Seq<A>, items: Seq<A>)
    requires
        forall|k: int| 0 <= k < items.len() ==> s.contains(#[trigger] items[k]),
    ensures
        push_all_new(s, items) == s,
    decreases items.len(),
{
    if items.len() > 0 {
        let head = items.drop_last();
        assert forall|k: int| 0 <= k < head.len() implies s.contains(#[trigger] head[k]) by {
            assert(head[k] == items[k]);
        }
        lemma_push_all_held(s, head);
        assert(s.contains(items[items.len() - 1]));
    }
}

/// Items of which none is repeated are kept as they are.
pub proof fn lemma_dedup_of_distinct<A>(s: Seq<A>)
    requires
        s.no_duplicates(),
    ensures
        dedup(s) == s,
    decreases s.len(),
{
    if s.len() == 0 {
        assert(s =~= Seq::<A>::empty());
    } else {
        let head = s.drop_last();
        lemma_dedup_of_distinct(head);
        if head.contains(s.last()) {
            let i = choose|i: int| 0 <= i < head.len() && head[i] == s.last();
            assert(s[i] == s[s.len() - 1]);
        }
        assert(head.push(s.last()) =~= s);
    }
}

/// The positions, in `table`, of the items of `items`.
pub open spec fn slots_in<A>(table: Seq<A>, items: Seq<A>) -> Seq<u32> {
    items.map_values(|a: A| slot_of(table, a) as u32)
}

/// The positions of items stay what they are when more items are put after them.
pub proof fn lemma_slots_stable<A>(s: Seq<A>, t: Seq<A>, items: Seq<A>)
    requires
        s.len() <= t.len(),
        forall|i: int| 0 <= i < s.len() ==> t[i] == s[i],
        t.no_duplicates(),
        forall|k: int| 0 <= k < items.len() ==> s.contains(#[trigger] items[k]),
    ensures
        slots_in(t, items) == slots_in(s, items),
{
    assert forall|k: int| 0 <= k < items.len() implies slots_in(t, items)[k] == slots_in(
        s,
        items,
    )[k] by {
        lemma_slot_stable(s, t, items[k]);
    }
    assert(slots_in(t, items) =~= slots_in(s, items));
}

impl StructInfoTable {
    /// Puts every identity of `items` that the table does not hold yet, in order, and
    /// returns the position of each. The table must have room for them all.
    #[verifier::rlimit(50)]
    pub fn fold(&mut self, items: &Vec<NuccStructInfo>) -> (r: Vec<u32>)
        requires
            old(self).wf(),
            old(self).infos().len() + items@.len() <= 0xFFFF_FFFF,
        ensures
            final(self).wf(),
            final(self).infos() == push_all_new(old(self).infos(), infos_view(items@)),
            r@ == slots_in(final(self).infos(), infos_view(items@)),
    {
        let ghost start = self.infos();
        let ghost all = infos_view(items@);
        let mut out: Vec<u32> = Vec::new();
        let mut i: usize = 0;
        assert(all.subrange(0, 0) =~= Seq::<StructInfoView>::empty());
        while i < items.len()
            invariant
                i <= items@.len(),
                all == infos_view(items@),
                self.wf(),
                start.len() + items@.len() <= 0xFFFF_FFFF,
                self.infos() == push_all_new(start, all.subrange(0, i as int)),
                out@ == slots_in(self.infos(), all.subrange(0, i as int)),
            decreases items@.len() - i,
        {
            let ghost before = self.infos();
            let ghost done = all.subrange(0, i as int);
            let ghost next = all.subrange(0, i + 1);
            proof {
                lemma_push_all_new(start, done);
                self.lemma_no_duplicates();
                assert(next.drop_last() =~= done);
                assert(next.last() == items@[i as int]@);
            }
            let slot = self.index_or_insert(&items[i]);
            proof {
                lemma_push_new(before, items@[i as int]@);
                self.lemma_no_duplicates();
                lemma_slots_stable(before, self.infos(), done);
                assert(slots_in(self.infos(), next) =~= slots_in(self.infos(), done).push(
                    slot_of(self.infos(), items@[i as int]@) as u32,
                ));
            }
            out.push(slot.unwrap());
            i += 1;
        }
        assert(all.subrange(0, all.len() as int) =~= all);
        out
    }
}

impl StringTable {
    /// Puts every string of `items` that the table does not hold yet, in order, and returns
    /// the position of each. The table must have room for them all.
    #[verifier::rlimit(50)]
    pub fn fold(&mut self, items: &Vec<Vec<u8>>) -> (r: Vec<u32>)
        requires
            old(self).wf(),
            old(self).strings().len() + items@.len() <= 0xFFFF_FFFF,
        ensures
            final(self).wf(),
            final(self).strings() == push_all_new(old(self).strings(), strings_view(items@)),
            r@ == slots_in(final(self).strings(), strings_view(items@)),
    {
        let ghost start = self.strings();
        let ghost all = strings_view(items@);
        let mut out: Vec<u32> = Vec::new();
        let mut i: usize = 0;
        assert(all.subrange(0, 0) =~= Seq::<Seq<u8>>::empty());
        while i < items.len()
            invariant
                i <= items@.len(),
                all == strings_view(items@),
                self.wf(),
                start.len() + items@.len() <= 0xFFFF_FFFF,
                self.strings() == push_all_new(start, all.subrange(0, i as int)),
                out@ == slots_in(self.strings(), all.subrange(0, i as int)),
            decreases items@.len() - i,
        {
            let ghost before = self.strings();
            let ghost done = all.subrange(0, i as int);
            let ghost next = all.subrange(0, i + 1);
            proof {
                lemma_push_all_new(start, done);
                self.lemma_no_duplicates();
                assert(next.drop_last() =~= done);
                assert(next.last() == items@[i as int]@);
            }
            let slot = self.index_or_insert(items[i].as_slice());
            proof {
                lemma_push_new(before, items@[i as int]@);
                self.lemma_no_duplicates();
                lemma_slots_stable(before, self.strings(), done);
                assert(slots_in(self.strings(), next) =~= slots_in(self.strings(), done).push(
                    slot_of(self.strings(), items@[i as int]@) as u32,
                ));
            }
            out.push(slot.unwrap());
            i += 1;
        }
        assert(all.subrange(0, all.len() as int) =~= all);
        out
    }
}

} // verus!
