//! The capability map: which clusters a device supports and, for each
//! cluster, the ordered list of commands it accepts.
//!
//! The map is assembled once at commissioning time and read by the
//! dispatcher. It is stored as the sequence of inserted entries; its view is
//! the finite map those entries denote, a later entry overriding an earlier
//! one with the same key.

use vstd::prelude::*;
use vstd::string::*;

use crate::strutil::str_eq;

verus! {

/// The map denoted by an entry sequence; a later entry with the same key
/// overrides an earlier one.
pub open spec fn map_of(entries: Seq<(Seq<char>, Seq<Seq<char>>)>) -> Map<
    Seq<char>,
    Seq<Seq<char>>,
>
    decreases entries.len(),
{
    if entries.len() == 0 {
        Map::empty()
    } else {
        map_of(entries.drop_last()).insert(entries.last().0, entries.last().1)
    }
}

/// Entries at or after position `j` whose key differs from `k` do not affect
/// the map at `k`.
pub proof fn lemma_map_of_skip(entries: Seq<(Seq<char>, Seq<Seq<char>>)>, k: Seq<char>, j: int)
    requires
        0 <= j <= entries.len(),
        forall|t: int| j <= t < entries.len() ==> (#[trigger] entries[t]).0 != k,
    ensures
        map_of(entries).contains_key(k) == map_of(entries.take(j)).contains_key(k),
        map_of(entries).contains_key(k) ==> map_of(entries)[k] == map_of(entries.take(j))[k],
    decreases entries.len() - j,
{
    if j < entries.len() {
        lemma_map_of_skip(entries, k, j + 1);
        assert(entries.take(j + 1).drop_last() =~= entries.take(j));
        assert(entries.take(j + 1).last() == entries[j]);
    } else {
        assert(entries.take(j) =~= entries);
    }
}

/// A device's capability map.
pub struct CapabilityMap {
    entries: Vec<(String, Vec<String>)>,
}

impl View for CapabilityMap {
    type V = Map<Seq<char>, Seq<Seq<char>>>;

    closed spec fn view(&self) -> Map<Seq<char>, Seq<Seq<char>>> {
        map_of(self.entries.deep_view())
    }
}

impl CapabilityMap {
    /// The entry sequence, in insertion order.
    pub closed spec fn entry_seq(&self) -> Seq<(Seq<char>, Seq<Seq<char>>)> {
        self.entries.deep_view()
    }

    /// The map view is exactly the map the entry sequence denotes.
    pub proof fn lemma_view_is_map_of_entries(&self)
        ensures
            self@ == map_of(self.entry_seq()),
    {
    }

    /// An empty capability map.
    pub fn new() -> (r: CapabilityMap)
        ensures
            r@ == Map::<Seq<char>, Seq<Seq<char>>>::empty(),
            r.entry_seq() == Seq::<(Seq<char>, Seq<Seq<char>>)>::empty(),
    {
        let r = CapabilityMap { entries: Vec::new() };
        proof {
            assert(r.entries.deep_view() =~= Seq::<(Seq<char>, Seq<Seq<char>>)>::empty());
        }
        r
    }

    /// Records the command list of a cluster; an earlier entry for the same
    /// cluster name is overridden.
    pub fn insert(&mut self, name: String, commands: Vec<String>)
        ensures
            final(self)@ == old(self)@.insert(name@, commands.deep_view()),
            final(self).entry_seq() == old(self).entry_seq().push((name@, commands.deep_view())),
    {
        let ghost old_entries = self.entries.deep_view();
        proof {
            let ghost pushed = (name@, commands.deep_view());
            assert(old_entries.push(pushed).drop_last() =~= old_entries);
        }
        self.entries.push((name, commands));
        proof {
            assert(self.entries.deep_view() =~= old_entries.push(
                (self.entries@.last().0@, self.entries@.last().1.deep_view()),
            ));
        }
    }

    /// Looks a cluster name up; the result is the command list of the most
    /// recent entry under that name.
    pub fn get<'a>(&'a self, name: &str) -> (r: Option<&'a Vec<String>>)
        ensures
            r is Some <==> self@.contains_key(name@),
            r matches Some(v) ==> self@[name@] == v.deep_view(),
    {
        let mut j: usize = self.entries.len();
        loop
            invariant
                j <= self.entries.len(),
                forall|t: int|
                    j <= t < self.entries.len() ==> (#[trigger] self.entries.deep_view()[t]).0
                        != name@,
            decreases j,
        {
            if j == 0 {
                proof {
                    lemma_map_of_skip(self.entries.deep_view(), name@, 0);
                    assert(self.entries.deep_view().take(0) =~= Seq::<
                        (Seq<char>, Seq<Seq<char>>),
                    >::empty());
                }
                return None;
            }
            j -= 1;
            let hit = str_eq(self.entries[j].0.as_str(), name);
            if hit {
                proof {
                    lemma_map_of_skip(self.entries.deep_view(), name@, j + 1);
                    assert(self.entries.deep_view().take(j + 1).drop_last()
                        =~= self.entries.deep_view().take(j as int));
                    assert(self.entries.deep_view().take(j + 1).last()
                        == self.entries.deep_view()[j as int]);
                }
                return Some(&self.entries[j].1);
            }
        }
    }

    /// Whether a cluster name is present.
    pub fn contains_cluster(&self, name: &str) -> (r: bool)
        ensures
            r == self@.contains_key(name@),
    {
        self.get(name).is_some()
    }

    /// The recorded entries, in insertion order, for callers that persist or
    /// serialize the map.
    pub fn entries(&self) -> (r: &Vec<(String, Vec<String>)>)
        ensures
            r.deep_view() == self.entry_seq(),
    {
        &self.entries
    }
}

} // verus!
