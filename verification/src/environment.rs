//! Variable sources: where interpolation looks names up.

use vstd::prelude::*;
use vstd::string::StrSliceExecFns;

verus! {

/// A source of variable values.  A name is either present with a string
/// value (possibly empty) or absent; a source holds no other state.
pub trait Environment {
    /// The source as a map from variable names to values; absent names
    /// are outside the map's domain.
    spec fn env_map(&self) -> Map<Seq<char>, Seq<char>>;

    /// Fetch a variable from this source.
    fn var(&self, key: &str) -> (r: Option<String>)
        ensures
            match r {
                Some(v) => self.env_map().contains_key(key@) && v@ == self.env_map()[key@],
                None => !self.env_map().contains_key(key@),
            },
    ;
}

/// Compare two string slices character by character.
pub fn str_eq(a: &str, b: &str) -> (r: bool)
    ensures
        r == (a@ == b@),
{
    let na = a.unicode_len();
    let nb = b.unicode_len();
    if na != nb {
        return false;
    }
    let mut i: usize = 0;
    while i < na
        invariant
            i <= na,
            na == a@.len(),
            na == b@.len(),
            forall|k: int| 0 <= k < i ==> a@[k] == b@[k],
        decreases na - i,
    {
        if a.get_char(i) != b.get_char(i) {
            return false;
        }
        i += 1;
    }
    proof {
        assert(a@ =~= b@);
    }
    true
}

/// An in-memory variable source: a list of name/value settings where a
/// later setting of the same name wins.
pub struct MemoryEnvironment {
    entries: Vec<(String, String)>,
}

/// The map described by a list of settings, later settings winning.
spec fn map_of(entries: Seq<(String, String)>) -> Map<Seq<char>, Seq<char>>
    decreases entries.len(),
{
    if entries.len() == 0 {
        Map::empty()
    } else {
        map_of(entries.drop_last()).insert(entries.last().0@, entries.last().1@)
    }
}

impl MemoryEnvironment {
    /// An empty source: every name is absent.
    pub fn new() -> (r: MemoryEnvironment)
        ensures
            r.env_map() == Map::<Seq<char>, Seq<char>>::empty(),
    {
        MemoryEnvironment { entries: Vec::new() }
    }

    /// Define `name` as `value` (an empty value is a present, empty
    /// variable, not an absent one).
    pub fn set(&mut self, name: &str, value: &str)
        ensures
            final(self).env_map() == old(self).env_map().insert(name@, value@),
    {
        self.entries.push((name.to_owned(), value.to_owned()));
        proof {
            assert(self.entries@.drop_last() =~= old(self).entries@);
        }
    }
}

impl Environment for MemoryEnvironment {
    closed spec fn env_map(&self) -> Map<Seq<char>, Seq<char>> {
        map_of(self.entries@)
    }

    fn var(&self, key: &str) -> (r: Option<String>) {
        let n = self.entries.len();
        let mut found: Option<usize> = None;
        let mut i: usize = 0;
        while i < n
            invariant
                i <= n,
                n == self.entries@.len(),
                match found {
                    Some(j) => j < i && map_of(self.entries@.take(i as int)).contains_key(key@)
                        && map_of(self.entries@.take(i as int))[key@] == self.entries@[j as int].1@,
                    None => !map_of(self.entries@.take(i as int)).contains_key(key@),
                },
            decreases n - i,
        {
            if str_eq(self.entries[i].0.as_str(), key) {
                found = Some(i);
            }
            proof {
                assert(self.entries@.take(i + 1).drop_last() =~= self.entries@.take(i as int));
                assert(self.entries@.take(i + 1).last() == self.entries@[i as int]);
            }
            i += 1;
        }
        proof {
            assert(self.entries@.take(n as int) =~= self.entries@);
        }
        match found {
            Some(j) => Some(self.entries[j].1.clone()),
            None => None,
        }
    }
}

} // verus!
