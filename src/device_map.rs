//! The map from a device's identity, its kernel path, to the descriptor of
//! the resource registered for it.
use vstd::prelude::*;
use crate::words::bytes_eq;

verus! {

/// Device identities and their descriptors, each identity at most once.
pub struct DeviceMap {
    entries: Vec<(Vec<u8>, i32)>,
}

/// `i` holds the entry for identity `k`.
pub open spec fn entry_for(s: Seq<(Vec<u8>, i32)>, i: int, k: Seq<u8>) -> bool {
    0 <= i < s.len() && s[i].0@ == k
}

/// The map that a list of entries with distinct identities stands for.
pub open spec fn entries_map(s: Seq<(Vec<u8>, i32)>) -> Map<Seq<u8>, i32> {
    Map::new(
        |k: Seq<u8>| exists|i: int| entry_for(s, i, k),
        |k: Seq<u8>| s[choose|i: int| entry_for(s, i, k)].1,
    )
}

pub open spec fn distinct_keys(s: Seq<(Vec<u8>, i32)>) -> bool {
    forall|i: int, j: int|
        0 <= i < s.len() && 0 <= j < s.len() && i != j ==> #[trigger] s[i].0@ != #[trigger] s[j].0@
}

proof fn lemma_entry_value(s: Seq<(Vec<u8>, i32)>, i: int)
    requires
        distinct_keys(s),
        0 <= i < s.len(),
    ensures
        entries_map(s).contains_key(s[i].0@),
        entries_map(s)[s[i].0@] == s[i].1,
{
    let k = s[i].0@;
    assert(entry_for(s, i, k));
    let j = choose|j: int| entry_for(s, j, k);
    assert(entry_for(s, j, k));
    if j != i {
        assert(s[i].0@ != s[j].0@);
    }
}

impl View for DeviceMap {
    type V = Map<Seq<u8>, i32>;

    closed spec fn view(&self) -> Map<Seq<u8>, i32> {
        entries_map(self.entries@)
    }
}

impl DeviceMap {
    pub closed spec fn wf(&self) -> bool {
        distinct_keys(self.entries@)
    }

    pub fn new() -> (r: DeviceMap)
        ensures
            r.wf(),
            r@ == Map::<Seq<u8>, i32>::empty(),
    {
        let r = DeviceMap { entries: Vec::new() };
        assert(r@ =~= Map::<Seq<u8>, i32>::empty());
        r
    }

    /// Position of the entry for `key`.
    fn position(&self, key: &[u8]) -> (r: Option<usize>)
        requires
            self.wf(),
        ensures
            match r {
                Some(i) => entry_for(self.entries@, i as int, key@),
                None => !self@.contains_key(key@),
            },
    {
        let n: usize = self.entries.len();
        let mut i: usize = 0;
        while i < n
            invariant
                n == self.entries@.len(),
                i <= n,
                forall|k: int| 0 <= k < i ==> !entry_for(self.entries@, k, key@),
            decreases n - i,
        {
            if bytes_eq(self.entries[i].0.as_slice(), key) {
                return Some(i);
            }
            i = i + 1;
        }
        None
    }

    /// Whether `key` has an entry.
    pub fn contains(&self, key: &[u8]) -> (r: bool)
        requires
            self.wf(),
        ensures
            r == self@.contains_key(key@),
    {
        match self.position(key) {
            Some(i) => {
                proof {
                    lemma_entry_value(self.entries@, i as int);
                }
                true
            },
            None => false,
        }
    }

    /// Adds an entry for an identity that has none.
    pub fn insert_new(&mut self, key: &[u8], fd: i32)
        requires
            old(self).wf(),
            !old(self)@.contains_key(key@),
        ensures
            final(self).wf(),
            final(self)@ == old(self)@.insert(key@, fd),
    {
        let ghost s0 = self.entries@;
        let owned = vstd::slice::slice_to_vec(key);
        self.entries.push((owned, fd));
        let ghost s1 = self.entries@;
        assert(s1 == s0.push((owned, fd)));
        assert forall|i: int, j: int|
            0 <= i < s1.len() && 0 <= j < s1.len() && i != j implies #[trigger] s1[i].0@
            != #[trigger] s1[j].0@ by {
            if i == s0.len() as int {
                assert(!entry_for(s0, j, key@));
            } else if j == s0.len() as int {
                assert(!entry_for(s0, i, key@));
            } else {
                assert(s0[i] == s1[i] && s0[j] == s1[j]);
            }
        }
        assert forall|k: Seq<u8>| #[trigger] entries_map(s1).contains_key(k)
            == old(self)@.insert(key@, fd).contains_key(k) by {
            if k != key@ && entries_map(s1).contains_key(k) {
                let i = choose|i: int| entry_for(s1, i, k);
                assert(entry_for(s0, i, k));
            }
            if k != key@ && old(self)@.contains_key(k) {
                let i = choose|i: int| entry_for(s0, i, k);
                assert(entry_for(s1, i, k));
            }
            if k == key@ {
                assert(entry_for(s1, s0.len() as int, k));
            }
        }
        assert forall|k: Seq<u8>| #[trigger] entries_map(s1).contains_key(k) implies entries_map(
            s1,
        )[k] == old(self)@.insert(key@, fd)[k] by {
            let i = choose|i: int| entry_for(s1, i, k);
            lemma_entry_value(s1, i);
            if i < s0.len() {
                assert(s0[i] == s1[i]);
                lemma_entry_value(s0, i);
            }
        }
        assert(self@ =~= old(self)@.insert(key@, fd));
    }

    /// Takes out the entry for `key` and returns its descriptor.
    pub fn remove(&mut self, key: &[u8]) -> (r: Option<i32>)
        requires
            old(self).wf(),
        ensures
            final(self).wf(),
            r == (if old(self)@.contains_key(key@) {
                Some(old(self)@[key@])
            } else {
                None
            }),
            final(self)@ == old(self)@.remove(key@),
    {
        let p = match self.position(key) {
            Some(p) => p,
            None => {
                assert(self@ =~= old(self)@.remove(key@));
                return None;
            },
        };
        let ghost s0 = self.entries@;
        proof {
            lemma_entry_value(s0, p as int);
        }
        let (_, fd) = self.entries.remove(p);
        let ghost s1 = self.entries@;
        assert(s1 == s0.remove(p as int));
        assert forall|i: int, j: int|
            0 <= i < s1.len() && 0 <= j < s1.len() && i != j implies #[trigger] s1[i].0@
            != #[trigger] s1[j].0@ by {
            let i0 = if i < p {
                i
            } else {
                i + 1
            };
            let j0 = if j < p {
                j
            } else {
                j + 1
            };
            assert(s1[i] == s0[i0] && s1[j] == s0[j0]);
        }
        assert forall|k: Seq<u8>| #[trigger] entries_map(s1).contains_key(k)
            == old(self)@.remove(key@).contains_key(k) by {
            if entries_map(s1).contains_key(k) {
                let i = choose|i: int| entry_for(s1, i, k);
                let i0 = if i < p {
                    i
                } else {
                    i + 1
                };
                assert(s1[i] == s0[i0]);
                assert(entry_for(s0, i0, k));
                assert(i0 != p);
            }
            if k != key@ && old(self)@.contains_key(k) {
                let i0 = choose|i: int| entry_for(s0, i, k);
                assert(i0 != p);
                let i = if i0 < p {
                    i0
                } else {
                    i0 - 1
                };
                assert(s1[i] == s0[i0]);
                assert(entry_for(s1, i, k));
            }
        }
        assert forall|k: Seq<u8>| #[trigger] entries_map(s1).contains_key(k) implies entries_map(
            s1,
        )[k] == old(self)@.remove(key@)[k] by {
            let i = choose|i: int| entry_for(s1, i, k);
            lemma_entry_value(s1, i);
            let i0 = if i < p {
                i
            } else {
                i + 1
            };
            assert(s1[i] == s0[i0]);
            lemma_entry_value(s0, i0);
        }
        assert(self@ =~= old(self)@.remove(key@));
        Some(fd)
    }
}

} // verus!
