//! The string map of the wire protocol: an ordered mapping from string keys
//! to string values, serialized as a 16-bit entry count followed by one
//! short-string key and one short-string value per entry.

use vstd::prelude::*;

verus! {

use vstd::utf8::encode_utf8;
use vstd::pervasive::VecAdditionalExecFns;
use crate::codec::{be16, short_string_bytes, write_be_u16, write_short_string};

/// Entries that fit the wire format: at most 65535 of them, each key and
/// value at most 65535 UTF-8 bytes, and keys unique.
pub open spec fn map_entries_wf(m: Seq<(Seq<char>, Seq<char>)>) -> bool {
    &&& m.len() <= 65535
    &&& forall|i: int|
        0 <= i < m.len() ==> encode_utf8(#[trigger] m[i].0).len() <= 65535 && encode_utf8(
            m[i].1,
        ).len() <= 65535
    &&& forall|i: int, j: int| 0 <= i < j < m.len() ==> m[i].0 != m[j].0
}

/// The index of the entry with the given key, or -1 if there is none.
pub open spec fn find_key(m: Seq<(Seq<char>, Seq<char>)>, k: Seq<char>) -> int
    decreases m.len(),
{
    if m.len() == 0 {
        -1
    } else if m[0].0 == k {
        0
    } else {
        let r = find_key(m.drop_first(), k);
        if r < 0 {
            -1
        } else {
            r + 1
        }
    }
}

/// `find_key` returns the first index holding the key.
pub proof fn lemma_find_key_at(m: Seq<(Seq<char>, Seq<char>)>, k: Seq<char>, i: int)
    requires
        0 <= i < m.len(),
        m[i].0 == k,
        forall|j: int| 0 <= j < i ==> m[j].0 != k,
    ensures
        find_key(m, k) == i,
    decreases i,
{
    if i > 0 {
        lemma_find_key_at(m.drop_first(), k, i - 1);
    }
}

/// `find_key` returns -1 when no entry holds the key.
pub proof fn lemma_find_key_none(m: Seq<(Seq<char>, Seq<char>)>, k: Seq<char>)
    requires
        forall|j: int| 0 <= j < m.len() ==> m[j].0 != k,
    ensures
        find_key(m, k) == -1,
    decreases m.len(),
{
    if m.len() > 0 {
        lemma_find_key_none(m.drop_first(), k);
    }
}

/// The serialized size of the entries alone: for each entry, two 2-byte
/// length prefixes plus the UTF-8 bytes of its key and of its value.
pub open spec fn entries_ser_len(m: Seq<(Seq<char>, Seq<char>)>) -> int
    decreases m.len(),
{
    if m.len() == 0 {
        0
    } else {
        entries_ser_len(m.drop_last()) + 4 + encode_utf8(m.last().0).len() + encode_utf8(
            m.last().1,
        ).len()
    }
}

/// The serialized size of a whole string map: a 2-byte entry count, then
/// the entries.
pub open spec fn map_ser_len(m: Seq<(Seq<char>, Seq<char>)>) -> int {
    2 + entries_ser_len(m)
}

/// The wire form of one entry: short-string key, then short-string value.
pub open spec fn entry_bytes(e: (Seq<char>, Seq<char>)) -> Seq<u8> {
    short_string_bytes(e.0) + short_string_bytes(e.1)
}

/// The wire form of the entries, in order.
pub open spec fn entries_bytes(m: Seq<(Seq<char>, Seq<char>)>) -> Seq<u8>
    decreases m.len(),
{
    if m.len() == 0 {
        Seq::empty()
    } else {
        entries_bytes(m.drop_last()) + entry_bytes(m.last())
    }
}

/// The wire form of a whole string map.
pub open spec fn map_bytes(m: Seq<(Seq<char>, Seq<char>)>) -> Seq<u8> {
    be16(m.len() as u16) + entries_bytes(m)
}

proof fn lemma_entries_ser_len_push(m: Seq<(Seq<char>, Seq<char>)>, e: (Seq<char>, Seq<char>))
    ensures
        entries_ser_len(m.push(e)) == entries_ser_len(m) + 4 + encode_utf8(e.0).len()
            + encode_utf8(e.1).len(),
{
    assert(m.push(e).last() == e);
    assert(m.push(e).drop_last() =~= m);
}

proof fn lemma_entries_bytes_push(m: Seq<(Seq<char>, Seq<char>)>, e: (Seq<char>, Seq<char>))
    ensures
        entries_bytes(m.push(e)) == entries_bytes(m) + entry_bytes(e),
{
    assert(m.push(e).last() == e);
    assert(m.push(e).drop_last() =~= m);
}

/// The serialized bytes of a string map are exactly as many as its computed
/// serialized size says: the length computation and the emission can never
/// disagree.
pub proof fn lemma_map_bytes_len(m: Seq<(Seq<char>, Seq<char>)>)
    ensures
        map_bytes(m).len() == map_ser_len(m),
{
    lemma_entries_bytes_len(m);
}

proof fn lemma_entries_bytes_len(m: Seq<(Seq<char>, Seq<char>)>)
    ensures
        entries_bytes(m).len() == entries_ser_len(m),
    decreases m.len(),
{
    if m.len() > 0 {
        lemma_entries_bytes_len(m.drop_last());
    }
}

/// An ordered string-to-string mapping with unique keys, bounded so that
/// every entry fits the wire format.
#[derive(Debug)]
pub struct CqlHashMap {
    entries: Vec<(String, String)>,
}

impl View for CqlHashMap {
    type V = Seq<(Seq<char>, Seq<char>)>;

    closed spec fn view(&self) -> Seq<(Seq<char>, Seq<char>)> {
        self.entries@.map_values(|kv: (String, String)| (kv.0@, kv.1@))
    }
}

impl CqlHashMap {
    /// The mapping fits the wire format and its keys are unique.
    pub open spec fn wf(self) -> bool {
        map_entries_wf(self@)
    }

    /// An empty mapping.
    pub fn new() -> (m: CqlHashMap)
        ensures
            m@ == Seq::<(Seq<char>, Seq<char>)>::empty(),
            m.wf(),
    {
        let m = CqlHashMap { entries: Vec::new() };
        proof {
            assert(m@ =~= Seq::<(Seq<char>, Seq<char>)>::empty());
        }
        m
    }

    /// The number of entries.
    pub fn len(&self) -> (n: usize)
        ensures
            n == self@.len(),
    {
        self.entries.len()
    }

    /// Adds an entry, replacing the value if the key is already present.
    /// Returns false, leaving the mapping unchanged, when the entry would
    /// not fit the wire format.
    pub fn insert(&mut self, key: String, val: String) -> (r: bool)
        requires
            old(self).wf(),
        ensures
            final(self).wf(),
            ({
                let m = old(self)@;
                let idx = find_key(m, key@);
                let fits = encode_utf8(key@).len() <= 65535 && encode_utf8(val@).len() <= 65535 && (
                idx >= 0 || m.len() < 65535);
                &&& r == fits
                &&& (r && idx >= 0 ==> final(self)@ == m.update(idx, (key@, val@)))
                &&& (r && idx < 0 ==> final(self)@ == m.push((key@, val@)))
                &&& (!r ==> final(self)@ == m)
            }),
    {
        if key.as_str().as_bytes().len() > 65535 || val.as_str().as_bytes().len() > 65535 {
            return false;
        }
        let n = self.entries.len();
        let mut i: usize = 0;
        while i < n
            invariant
                i <= n,
                n == self.entries.len(),
                *self == *old(self),
                old(self).wf(),
                encode_utf8(key@).len() <= 65535,
                encode_utf8(val@).len() <= 65535,
                forall|j: int| 0 <= j < i ==> self@[j].0 != key@,
            decreases n - i,
        {
            let same = self.entries[i].0.eq(&key);
            if same {
                let ghost gk: Seq<char> = key@;
                let ghost gv: Seq<char> = val@;
                proof {
                    lemma_find_key_at(self@, gk, i as int);
                }
                self.entries.set(i, (key, val));
                proof {
                    assert(self@ =~= old(self)@.update(i as int, (gk, gv)));
                }
                return true;
            }
            i = i + 1;
        }
        proof {
            lemma_find_key_none(self@, key@);
        }
        if n >= 65535 {
            return false;
        }
        let ghost gk: Seq<char> = key@;
        let ghost gv: Seq<char> = val@;
        self.entries.push((key, val));
        proof {
            assert(self@ =~= old(self)@.push((gk, gv)));
        }
        true
    }

    /// The exact number of bytes that `serialize` emits for this mapping.
    pub fn cql_len(&self) -> (n: u64)
        requires
            self.wf(),
        ensures
            n == map_ser_len(self@),
            n <= 2 + 131074 * self@.len(),
    {
        let count = self.entries.len();
        let mut total: u64 = 2;
        let mut i: usize = 0;
        while i < count
            invariant
                i <= count,
                count == self.entries.len(),
                self.wf(),
                total == 2 + entries_ser_len(self@.take(i as int)),
                total <= 2 + 131074 * (i as int),
            decreases count - i,
        {
            let e = &self.entries[i];
            let kl = e.0.as_str().as_bytes().len();
            let vl = e.1.as_str().as_bytes().len();
            proof {
                assert(self@.take(i as int + 1) =~= self@.take(i as int).push(self@[i as int]));
                lemma_entries_ser_len_push(self@.take(i as int), self@[i as int]);
            }
            total = total + 4 + kl as u64 + vl as u64;
            i = i + 1;
        }
        proof {
            assert(self@.take(count as int) =~= self@);
        }
        total
    }

    /// Emits the wire form of the mapping: entry count, then each entry as
    /// a short-string key followed by a short-string value.
    pub fn serialize(&self, buf: &mut Vec<u8>)
        requires
            self.wf(),
        ensures
            final(buf)@ == old(buf)@ + map_bytes(self@),
    {
        let count = self.entries.len();
        write_be_u16(buf, count as u16);
        proof {
            assert(buf@ =~= old(buf)@ + be16(count as u16) + entries_bytes(self@.take(0)));
        }
        let mut i: usize = 0;
        while i < count
            invariant
                i <= count,
                count == self.entries.len(),
                self.wf(),
                buf@ == old(buf)@ + be16(count as u16) + entries_bytes(self@.take(i as int)),
            decreases count - i,
        {
            let e = &self.entries[i];
            proof {
                assert(self@[i as int] == (e.0@, e.1@));
                assert(encode_utf8(self@[i as int].0).len() <= 65535);
                assert(encode_utf8(self@[i as int].1).len() <= 65535);
            }
            write_short_string(buf, e.0.as_str());
            write_short_string(buf, e.1.as_str());
            proof {
                assert(self@.take(i as int + 1) =~= self@.take(i as int).push(self@[i as int]));
                lemma_entries_bytes_push(self@.take(i as int), self@[i as int]);
                assert(buf@ =~= old(buf)@ + be16(count as u16) + entries_bytes(
                    self@.take(i as int + 1),
                ));
            }
            i = i + 1;
        }
        proof {
            assert(self@.take(count as int) =~= self@);
            assert(buf@ =~= old(buf)@ + map_bytes(self@));
        }
    }
}

} // verus!
