//! A string-to-string table. The alias table and the process environment are
//! both values of this shape; a table is viewed as a finite map from key
//! characters to value characters.

use vstd::prelude::*;
use crate::text::str_eq;

verus! {

/// The map described by a sequence of key-value pairs, later pairs winning.
pub open spec fn map_of(entries: Seq<(Seq<char>, Seq<char>)>) -> Map<Seq<char>, Seq<char>>
    decreases entries.len(),
{
    if entries.len() == 0 {
        Map::empty()
    } else {
        map_of(entries.drop_last()).insert(entries.last().0, entries.last().1)
    }
}

/// Whether entry `j` is the last one that binds key `k`.
pub open spec fn is_last_match(entries: Seq<(Seq<char>, Seq<char>)>, k: Seq<char>, j: int) -> bool {
    &&& 0 <= j < entries.len()
    &&& entries[j].0 == k
    &&& forall|l: int| j < l < entries.len() ==> (#[trigger] entries[l]).0 != k
}

/// A key is in the map exactly when some entry holds it, and it is bound to
/// the value of the last entry that does.
proof fn lemma_map_of_last_match(entries: Seq<(Seq<char>, Seq<char>)>, k: Seq<char>)
    ensures
        map_of(entries).contains_key(k) <==> exists|i: int|
            0 <= i < entries.len() && (#[trigger] entries[i]).0 == k,
        forall|j: int| is_last_match(entries, k, j) ==> map_of(entries)[k] == entries[j].1,
    decreases entries.len(),
{
    if entries.len() > 0 {
        let prefix = entries.drop_last();
        lemma_map_of_last_match(prefix, k);
        let n = entries.len() - 1;
        if entries[n].0 == k {
            assert(map_of(entries).contains_key(k));
            assert forall|j: int| is_last_match(entries, k, j) implies map_of(entries)[k]
                == entries[j].1 by {
                assert(entries[n].0 == k);
                assert(j == n);
            }
        } else {
            if map_of(entries).contains_key(k) {
                assert(map_of(prefix).contains_key(k));
                let i = choose|i: int| 0 <= i < prefix.len() && (#[trigger] prefix[i]).0 == k;
                assert(entries[i] == prefix[i]);
            }
            if exists|i: int| 0 <= i < entries.len() && (#[trigger] entries[i]).0 == k {
                let i = choose|i: int| 0 <= i < entries.len() && (#[trigger] entries[i]).0 == k;
                assert(i < n);
                assert(prefix[i] == entries[i]);
                assert(map_of(prefix).contains_key(k));
            }
            assert forall|j: int| is_last_match(entries, k, j) implies map_of(entries)[k]
                == entries[j].1 by {
                assert(j < n);
                assert forall|l: int| j < l < prefix.len() implies (#[trigger] prefix[l]).0
                    != k by {
                    assert(prefix[l] == entries[l]);
                }
                assert(prefix[j] == entries[j]);
                assert(is_last_match(prefix, k, j));
                assert(map_of(prefix)[k] == prefix[j].1);
                assert(map_of(entries)[k] == map_of(prefix)[k]);
            }
        }
    }
}

/// A string-to-string table, seen as a map. A new binding for a key a table
/// already holds shadows the old one.
pub struct Bindings {
    entries: Vec<(String, String)>,
}

impl View for Bindings {
    type V = Map<Seq<char>, Seq<char>>;

    closed spec fn view(&self) -> Map<Seq<char>, Seq<char>> {
        map_of(self.entries.deep_view())
    }
}

impl Bindings {
    /// An empty table.
    pub fn new() -> (r: Bindings)
        ensures
            r@ == Map::<Seq<char>, Seq<char>>::empty(),
    {
        let r = Bindings { entries: Vec::new() };
        proof {
            assert(r.entries.deep_view() =~= Seq::<(Seq<char>, Seq<char>)>::empty());
        }
        r
    }

    /// Binds `key` to `value`, shadowing any binding the key had.
    pub fn insert(&mut self, key: String, value: String)
        ensures
            final(self)@ == old(self)@.insert(key@, value@),
    {
        let ghost entries0 = self.entries.deep_view();
        self.entries.push((key, value));
        proof {
            assert(self.entries.deep_view() =~= entries0.push((key@, value@)));
            assert(self.entries.deep_view().drop_last() =~= entries0);
        }
    }

    /// Looks a key up: the value it is bound to, or nothing.
    pub fn get(&self, key: &String) -> (r: Option<&String>)
        ensures
            match r {
                Some(v) => self@.contains_key(key@) && v@ == self@[key@],
                None => !self@.contains_key(key@),
            },
    {
        proof {
            lemma_map_of_last_match(self.entries.deep_view(), key@);
        }
        let n = self.entries.len();
        let mut i: usize = n;
        while i > 0
            invariant
                i <= n,
                n == self.entries.len(),
                forall|j: int|
                    i <= j < n ==> #[trigger] self.entries.deep_view()[j].0 != key@,
            decreases i,
        {
            i = i - 1;
            if str_eq(self.entries[i].0.as_str(), key.as_str()) {
                proof {
                    lemma_map_of_last_match(self.entries.deep_view(), key@);
                    assert(self.entries.deep_view()[i as int] == (
                        self.entries@[i as int].0@,
                        self.entries@[i as int].1@,
                    ));
                    assert((#[trigger] self.entries.deep_view()[i as int]).0 == key@);
                    assert(self@.contains_key(key@));
                    assert(is_last_match(self.entries.deep_view(), key@, i as int));
                    assert(self@[key@] == self.entries.deep_view()[i as int].1);
                }
                return Some(&self.entries[i].1);
            }
        }
        None
    }

    /// The table's entries, for display. Each pair's key is bound in the map,
    /// and a pair not shadowed by a later one for the same key carries the
    /// value the map binds that key to.
    pub fn pairs(&self) -> (r: &Vec<(String, String)>)
        ensures
            forall|j: int|
                0 <= j < r.deep_view().len() ==> self@.contains_key(
                    (#[trigger] r.deep_view()[j]).0,
                ),
            forall|j: int|
                #[trigger] is_last_match(r.deep_view(), r.deep_view()[j].0, j) ==> self@[r.deep_view()[j].0]
                    == r.deep_view()[j].1,
    {
        proof {
            assert forall|j: int|
                0 <= j < self.entries.deep_view().len() implies self@.contains_key(
                (#[trigger] self.entries.deep_view()[j]).0,
            ) by {
                lemma_map_of_last_match(self.entries.deep_view(), self.entries.deep_view()[j].0);
            }
            assert forall|j: int|
                #[trigger] is_last_match(
                    self.entries.deep_view(),
                    self.entries.deep_view()[j].0,
                    j,
                ) implies self@[self.entries.deep_view()[j].0] == self.entries.deep_view()[j].1 by {
                lemma_map_of_last_match(self.entries.deep_view(), self.entries.deep_view()[j].0);
            }
        }
        &self.entries
    }
}

} // verus!
