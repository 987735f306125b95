//! A mapping from package name to [`VersionInfo`], the shape both
//! upstream sources deliver their answers in.
//!
//! The mapping is keyed by name and insertion-order-independent in the
//! abstract: its view is a `Map<Seq<char>, VersionInfo>` where a later
//! insert for the same name overwrites the earlier one.

use vstd::prelude::*;

use crate::package_info::VersionInfo;

verus! {

/// The mapping a sequence of (name, record) pairs denotes: later pairs
/// overwrite earlier ones with the same name.
pub open spec fn map_of(s: Seq<(String, VersionInfo)>) -> Map<Seq<char>, VersionInfo>
    decreases s.len(),
{
    if s.len() == 0 {
        Map::empty()
    } else {
        map_of(s.drop_last()).insert(s.last().0@, s.last().1)
    }
}

/// A name is mapped exactly when some pair carries it.
proof fn lemma_map_of_contains(s: Seq<(String, VersionInfo)>, k: Seq<char>)
    ensures
        map_of(s).contains_key(k) <==> exists|i: int| 0 <= i < s.len() && s[i].0@ == k,
    decreases s.len(),
{
    if s.len() > 0 {
        lemma_map_of_contains(s.drop_last(), k);
        if map_of(s).contains_key(k) {
            if s.last().0@ == k {
                assert(s[s.len() - 1].0@ == k);
            }
        }
        if exists|i: int| 0 <= i < s.len() && s[i].0@ == k {
            let i = choose|i: int| 0 <= i < s.len() && s[i].0@ == k;
            if i < s.len() - 1 {
                assert(s.drop_last()[i].0@ == k);
            }
        }
    }
}

/// The mapped record for a name is the one of its last pair.
proof fn lemma_map_of_last_match(s: Seq<(String, VersionInfo)>, k: Seq<char>, j: int)
    requires
        0 <= j < s.len(),
        s[j].0@ == k,
        forall|i: int| j < i < s.len() ==> s[i].0@ != k,
    ensures
        map_of(s).contains_key(k),
        map_of(s)[k] == s[j].1,
    decreases s.len(),
{
    if j == s.len() - 1 {
    } else {
        lemma_map_of_last_match(s.drop_last(), k, j);
    }
}

/// Mapping from package name to its version record, as produced by a
/// metadata source.
pub struct VersionMap {
    entries: Vec<(String, VersionInfo)>,
}

impl View for VersionMap {
    type V = Map<Seq<char>, VersionInfo>;

    closed spec fn view(&self) -> Map<Seq<char>, VersionInfo> {
        map_of(self.entries@)
    }
}

impl VersionMap {
    /// An empty mapping.
    pub fn new() -> (r: Self)
        ensures
            r@ == Map::<Seq<char>, VersionInfo>::empty(),
    {
        VersionMap { entries: Vec::new() }
    }

    /// Record `info` under `name`, overwriting any earlier record for
    /// the same name.
    pub fn insert(&mut self, name: String, info: VersionInfo)
        ensures
            final(self)@ == old(self)@.insert(name@, info),
    {
        self.entries.push((name, info));
        proof {
            assert(self.entries@.drop_last() == old(self).entries@);
        }
    }

    /// Look up the record filed under `name`.
    pub fn get(&self, name: &String) -> (r: Option<&VersionInfo>)
        ensures
            match r {
                Some(v) => self@.contains_key(name@) && *v == self@[name@],
                None => !self@.contains_key(name@),
            },
    {
        let n = self.entries.len();
        let mut i: usize = n;
        while i > 0
            invariant
                i <= n,
                n == self.entries@.len(),
                forall|j: int| i <= j < n ==> self.entries@[j].0@ != name@,
            decreases i,
        {
            i -= 1;
            if self.entries[i].0.eq(name) {
                proof {
                    lemma_map_of_last_match(self.entries@, name@, i as int);
                }
                return Some(&self.entries[i].1);
            }
        }
        proof {
            lemma_map_of_contains(self.entries@, name@);
        }
        None
    }

    /// Whether `name` has a record.
    pub fn contains(&self, name: &String) -> (r: bool)
        ensures
            r == self@.contains_key(name@),
    {
        match self.get(name) {
            Some(_) => true,
            None => false,
        }
    }

    /// Fold every record of `other` into `self`; on a shared name the
    /// record of `other` wins.
    pub fn extend_from(&mut self, other: &VersionMap)
        ensures
            final(self)@ == old(self)@.union_prefer_right(other@),
    {
        let mut i: usize = 0;
        while i < other.entries.len()
            invariant
                i <= other.entries@.len(),
                map_of(self.entries@) == map_of(old(self).entries@).union_prefer_right(
                    map_of(other.entries@.take(i as int)),
                ),
            decreases other.entries@.len() - i,
        {
            let ghost pre = self.entries@;
            let name = other.entries[i].0.clone();
            let info = other.entries[i].1.clone();
            self.entries.push((name, info));
            proof {
                assert(self.entries@.drop_last() == pre);
                assert(map_of(self.entries@) == map_of(pre).insert(other.entries@[i as int].0@,
                    other.entries@[i as int].1));
                assert(other.entries@.take(i + 1).drop_last() == other.entries@.take(i as int));
                assert(map_of(other.entries@.take(i + 1)) == map_of(other.entries@.take(
                    i as int)).insert(other.entries@[i as int].0@, other.entries@[i as int].1));
                assert(map_of(self.entries@) =~= map_of(old(self).entries@).union_prefer_right(
                    map_of(other.entries@.take(i + 1))));
            }
            i += 1;
        }
        proof {
            assert(other.entries@.take(other.entries@.len() as int) == other.entries@);
        }
    }
}

} // verus!
