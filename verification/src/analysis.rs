//! The accumulator: per-type aggregate counters, keyed by the canonical
//! serialized text of a record's `type` field.

use vstd::prelude::*;

verus! {

/// Aggregated counters for a single type of JSON object.
#[derive(Clone, Copy, Debug, PartialEq, Eq, Structural)]
pub struct TypeInfo {
    /// Number of objects of this type.
    pub(crate) nb_object: u32,
    /// Total byte size of all the source lines for this type.
    pub(crate) byte_size: usize,
}

impl TypeInfo {
    /// Number of objects recorded, as a mathematical integer.
    pub closed spec fn count(&self) -> nat {
        self.nb_object as nat
    }

    /// Total byte size recorded, as a mathematical integer.
    pub closed spec fn bytes(&self) -> nat {
        self.byte_size as nat
    }

    /// Create a new empty TypeInfo.
    pub fn new() -> (r: TypeInfo)
        ensures
            r.count() == 0,
            r.bytes() == 0,
    {
        TypeInfo { nb_object: 0, byte_size: 0 }
    }

    /// Add info for a single object to that type.
    pub fn add_object(&mut self, byte_size: usize)
        requires
            old(self).count() < u32::MAX,
            old(self).bytes() + byte_size <= usize::MAX,
        ensures
            final(self).count() == old(self).count() + 1,
            final(self).bytes() == old(self).bytes() + byte_size,
    {
        self.nb_object += 1;
        self.byte_size += byte_size;
    }

    /// Number of objects recorded.
    pub fn object_count(&self) -> (r: u32)
        ensures
            r as nat == self.count(),
    {
        self.nb_object
    }

    /// Total byte size recorded.
    pub fn total_byte_size(&self) -> (r: usize)
        ensures
            r as nat == self.bytes(),
    {
        self.byte_size
    }
}

/// The mathematical content of one accumulator entry: a type key together
/// with its aggregated counters.
pub struct EntryModel {
    /// The type key, as a sequence of characters.
    pub key: Seq<char>,
    /// Number of objects recorded for this key.
    pub count: nat,
    /// Total byte size recorded for this key.
    pub bytes: nat,
}

/// Index of the first entry of `m` whose key is `key`, or -1 if there is none.
pub open spec fn find_key(m: Seq<EntryModel>, key: Seq<char>) -> int
    decreases m.len(),
{
    if m.len() == 0 {
        -1
    } else if m[0].key == key {
        0
    } else {
        let r = find_key(m.drop_first(), key);
        if r == -1 {
            -1
        } else {
            r + 1
        }
    }
}

/// What one call of `Analysis::record` does to the entries: bump the entry
/// holding `key`, or append a fresh one holding one object of `size` bytes.
pub open spec fn spec_record(m: Seq<EntryModel>, key: Seq<char>, size: nat) -> Seq<EntryModel> {
    let i = find_key(m, key);
    if i == -1 {
        m.push(EntryModel { key: key, count: 1, bytes: size })
    } else {
        m.update(i, EntryModel { key: key, count: m[i].count + 1, bytes: m[i].bytes + size })
    }
}

/// The counters affected by recording `size` bytes under `key` stay within
/// their machine bounds.
pub open spec fn room_for(m: Seq<EntryModel>, key: Seq<char>, size: nat) -> bool {
    let i = find_key(m, key);
    i == -1 || (m[i].count < u32::MAX && m[i].bytes + size <= usize::MAX)
}

/// Sum of the object counts over all entries.
pub open spec fn total_count(m: Seq<EntryModel>) -> nat
    decreases m.len(),
{
    if m.len() == 0 {
        0
    } else {
        total_count(m.drop_last()) + m.last().count
    }
}

/// Sum of the byte sizes over all entries.
pub open spec fn total_bytes(m: Seq<EntryModel>) -> nat
    decreases m.len(),
{
    if m.len() == 0 {
        0
    } else {
        total_bytes(m.drop_last()) + m.last().bytes
    }
}

/// No two entries of `m` carry the same key.
pub open spec fn keys_distinct(m: Seq<EntryModel>) -> bool {
    forall|i: int, j: int| 0 <= i < j < m.len() ==> (#[trigger] m[i]).key != (#[trigger] m[j]).key
}

proof fn lemma_find_key_at(m: Seq<EntryModel>, key: Seq<char>, i: int)
    requires
        0 <= i < m.len(),
        m[i].key == key,
        forall|j: int| 0 <= j < i ==> (#[trigger] m[j]).key != key,
    ensures
        find_key(m, key) == i,
    decreases m.len(),
{
    if i == 0 {
    } else {
        assert(forall|j: int| 0 <= j < i - 1 ==> (#[trigger] m.drop_first()[j]).key != key);
        lemma_find_key_at(m.drop_first(), key, i - 1);
    }
}

proof fn lemma_find_key_none(m: Seq<EntryModel>, key: Seq<char>)
    requires
        forall|j: int| 0 <= j < m.len() ==> (#[trigger] m[j]).key != key,
    ensures
        find_key(m, key) == -1,
    decreases m.len(),
{
    if m.len() > 0 {
        assert(forall|j: int| 0 <= j < m.len() - 1 ==> (#[trigger] m.drop_first()[j]).key != key);
        lemma_find_key_none(m.drop_first(), key);
    }
}

/// `find_key` returns either -1 or the index of the first entry holding `key`.
pub proof fn lemma_find_key_props(m: Seq<EntryModel>, key: Seq<char>)
    ensures
        find_key(m, key) == -1 ==> forall|j: int| 0 <= j < m.len() ==> (#[trigger] m[j]).key
            != key,
        find_key(m, key) != -1 ==> {
            let i = find_key(m, key);
            &&& 0 <= i < m.len()
            &&& m[i].key == key
            &&& forall|j: int| 0 <= j < i ==> (#[trigger] m[j]).key != key
        },
    decreases m.len(),
{
    if m.len() > 0 && m[0].key != key {
        let md = m.drop_first();
        lemma_find_key_props(md, key);
        let r = find_key(md, key);
        if r == -1 {
            assert forall|j: int| 0 <= j < m.len() implies (#[trigger] m[j]).key != key by {
                if j >= 1 {
                    assert(m[j] == md[j - 1]);
                }
            }
        } else {
            assert(m[r + 1] == md[r]);
            assert forall|j: int| 0 <= j < r + 1 implies (#[trigger] m[j]).key != key by {
                if j >= 1 {
                    assert(m[j] == md[j - 1]);
                }
            }
        }
    }
}

/// Recording under `key` raises the total object count by exactly 1 and the
/// total byte size by exactly `size`, and touches no entry but the one
/// holding `key`.
pub proof fn lemma_record_totals(m: Seq<EntryModel>, key: Seq<char>, size: nat)
    ensures
        total_count(spec_record(m, key, size)) == total_count(m) + 1,
        total_bytes(spec_record(m, key, size)) == total_bytes(m) + size,
{
    let i = find_key(m, key);
    lemma_find_key_props(m, key);
    if i == -1 {
        let m2 = m.push(EntryModel { key: key, count: 1, bytes: size });
        assert(m2.drop_last() =~= m);
    } else {
        lemma_update_totals(m, i, EntryModel { key: key, count: m[i].count + 1, bytes: m[i].bytes + size });
    }
}

proof fn lemma_update_totals(m: Seq<EntryModel>, i: int, e: EntryModel)
    requires
        0 <= i < m.len(),
    ensures
        total_count(m.update(i, e)) == total_count(m) - m[i].count + e.count,
        total_bytes(m.update(i, e)) == total_bytes(m) - m[i].bytes + e.bytes,
    decreases m.len(),
{
    let m2 = m.update(i, e);
    if i == m.len() - 1 {
        assert(m2.drop_last() =~= m.drop_last());
        assert(m2.last() == e);
    } else {
        assert(m2.drop_last() =~= m.drop_last().update(i, e));
        assert(m2.last() == m.last());
        lemma_update_totals(m.drop_last(), i, e);
    }
}

/// Law: recording a record touches only the entry holding its key: every
/// entry under another key is left exactly as it was, and the entry under
/// `key` gains exactly one object and exactly `size` bytes.
pub proof fn lemma_record_frames_others(m: Seq<EntryModel>, key: Seq<char>, size: nat)
    ensures
        forall|j: int|
            0 <= j < m.len() && (#[trigger] m[j]).key != key ==> spec_record(m, key, size)[j]
                == m[j],
        forall|j: int|
            0 <= j < m.len() && (#[trigger] m[j]).key == key && j == find_key(m, key)
                ==> spec_record(m, key, size)[j] == (EntryModel {
                key: key,
                count: m[j].count + 1,
                bytes: m[j].bytes + size,
            }),
{
    lemma_find_key_props(m, key);
}

/// Every single entry's counters are bounded by the totals.
pub proof fn lemma_entry_le_totals(m: Seq<EntryModel>, i: int)
    requires
        0 <= i < m.len(),
    ensures
        m[i].count <= total_count(m),
        m[i].bytes <= total_bytes(m),
    decreases m.len(),
{
    if i < m.len() - 1 {
        lemma_entry_le_totals(m.drop_last(), i);
    }
}

/// Recording preserves distinctness of the keys.
pub proof fn lemma_record_keys_distinct(m: Seq<EntryModel>, key: Seq<char>, size: nat)
    requires
        keys_distinct(m),
    ensures
        keys_distinct(spec_record(m, key, size)),
{
    let i = find_key(m, key);
    lemma_find_key_props(m, key);
    if i == -1 {
        let m2 = m.push(EntryModel { key: key, count: 1, bytes: size });
        assert forall|p: int, q: int| 0 <= p < q < m2.len() implies (#[trigger] m2[p]).key
            != (#[trigger] m2[q]).key by {
            if q == m.len() {
                assert(m2[p] == m[p]);
            }
        }
    }
}

/// Wrapper around a vector of per-type entries, one for every type present in
/// a single file. The canonical serialized text of the `type` field is the
/// key; insertion order is kept, which makes reports deterministic.
pub struct Analysis {
    data: Vec<(String, TypeInfo)>,
}

impl Analysis {
    /// The entries as a sequence of mathematical records, in insertion order.
    pub closed spec fn model(&self) -> Seq<EntryModel> {
        Seq::new(
            self.data@.len(),
            |i: int|
                EntryModel {
                    key: self.data@[i].0@,
                    count: self.data@[i].1.count(),
                    bytes: self.data@[i].1.bytes(),
                },
        )
    }

    /// Create an empty analysis.
    pub fn new() -> (r: Analysis)
        ensures
            r.model() == Seq::<EntryModel>::empty(),
    {
        let r = Analysis { data: Vec::new() };
        proof {
            assert(r.model() =~= Seq::<EntryModel>::empty());
        }
        r
    }

    /// data attribute getter
    pub fn get_data(&self) -> (r: &Vec<(String, TypeInfo)>)
        ensures
            r@.len() == self.model().len(),
            forall|i: int| 0 <= i < r@.len() ==> {
                &&& (#[trigger] r@[i]).0@ == self.model()[i].key
                &&& r@[i].1.count() == self.model()[i].count
                &&& r@[i].1.bytes() == self.model()[i].bytes
            },
    {
        &self.data
    }

    /// Register one object of type `type_key` whose source line took
    /// `byte_size` bytes: bump the entry for that key, inserting a fresh one
    /// first if the key is new. No other entry is touched.
    pub fn record(&mut self, type_key: String, byte_size: usize)
        requires
            room_for(old(self).model(), type_key@, byte_size as nat),
        ensures
            final(self).model() == spec_record(old(self).model(), type_key@, byte_size as nat),
    {
        let ghost m = self.model();
        let n = self.data.len();
        let mut i: usize = 0;
        while i < n
            invariant
                i <= n,
                n == self.data@.len(),
                m == old(self).model(),
                self.model() == m,
                room_for(m, type_key@, byte_size as nat),
                forall|j: int| 0 <= j < i ==> (#[trigger] m[j]).key != type_key@,
            decreases n - i,
        {
            if self.data[i].0 == type_key {
                proof {
                    lemma_find_key_at(m, type_key@, i as int);
                }
                self.data[i].1.add_object(byte_size);
                proof {
                    assert(self.model() =~~= spec_record(m, type_key@, byte_size as nat));
                }
                return ;
            }
            i += 1;
        }
        proof {
            lemma_find_key_none(m, type_key@);
        }
        let mut info = TypeInfo::new();
        info.add_object(byte_size);
        self.data.push((type_key, info));
        proof {
            assert(self.model() =~= spec_record(m, type_key@, byte_size as nat));
        }
    }
}

} // verus!
