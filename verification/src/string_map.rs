//! An ordered map with string keys, used for the key-unique maps of a
//! document tree.  Keys keep their insertion order, so traversals over
//! the values are deterministic.

use vstd::prelude::*;

use crate::environment::str_eq;
use crate::environment::Environment;
use crate::errors::Error;
use crate::errors::ErrorModel;
use crate::interpolate_all::InterpolateAll;

verus! {

/// A key-unique map from strings to values, in insertion order.
#[derive(Debug, Clone, PartialEq, Eq)]
pub struct StringMap<T> {
    keys: Vec<String>,
    values: Vec<T>,
}

/// The first position of `k` in `keys`, or -1 if it is absent.
pub open spec fn key_index(keys: Seq<Seq<char>>, k: Seq<char>) -> int
    decreases keys.len(),
{
    if keys.len() == 0 {
        -1
    } else if keys[0] == k {
        0
    } else {
        let r = key_index(keys.skip(1), k);
        if r >= 0 {
            r + 1
        } else {
            -1
        }
    }
}

pub proof fn lemma_key_index_spec(keys: Seq<Seq<char>>, k: Seq<char>)
    ensures
        key_index(keys, k) == -1 ==> forall|j: int| 0 <= j < keys.len() ==> keys[j] != k,
        key_index(keys, k) != -1 ==> 0 <= key_index(keys, k) < keys.len() && keys[key_index(
            keys,
            k,
        )] == k && forall|j: int| 0 <= j < key_index(keys, k) ==> keys[j] != k,
    decreases keys.len(),
{
    if keys.len() > 0 && keys[0] != k {
        lemma_key_index_spec(keys.skip(1), k);
        let r = key_index(keys.skip(1), k);
        if r == -1 {
            assert forall|j: int| 0 <= j < keys.len() implies keys[j] != k by {
                if j > 0 {
                    assert(keys.skip(1)[j - 1] == keys[j]);
                }
            }
        } else {
            assert(keys.skip(1)[r] == keys[r + 1]);
            assert forall|j: int| 0 <= j < r + 1 implies keys[j] != k by {
                if j > 0 {
                    assert(keys.skip(1)[j - 1] == keys[j]);
                }
            }
        }
    }
}

pub proof fn lemma_key_index_found(keys: Seq<Seq<char>>, k: Seq<char>, j: int)
    requires
        0 <= j < keys.len(),
        keys[j] == k,
        forall|m: int| 0 <= m < j ==> keys[m] != k,
    ensures
        key_index(keys, k) == j,
    decreases j,
{
    if j > 0 {
        lemma_key_index_found(keys.skip(1), k, j - 1);
    }
}

impl<T> StringMap<T> {
    /// The keys, in insertion order.
    pub closed spec fn key_seq(&self) -> Seq<Seq<char>> {
        Seq::new(self.keys@.len(), |k: int| self.keys@[k]@)
    }

    /// The values, in the same order as the keys.
    pub closed spec fn val_seq(&self) -> Seq<T> {
        self.values@
    }

    /// Keys and values pair up and no key occurs twice.
    pub open spec fn wf(&self) -> bool {
        &&& self.key_seq().len() == self.val_seq().len()
        &&& forall|i: int, j: int|
            0 <= i < j < self.key_seq().len() ==> self.key_seq()[i] != self.key_seq()[j]
    }

    /// An empty map.
    pub fn new() -> (r: StringMap<T>)
        ensures
            r.wf(),
            r.key_seq() == Seq::<Seq<char>>::empty(),
            r.val_seq() == Seq::<T>::empty(),
    {
        let r = StringMap { keys: Vec::new(), values: Vec::new() };
        proof {
            assert(r.key_seq() =~= Seq::<Seq<char>>::empty());
        }
        r
    }

    /// How many keys the map holds.
    pub fn len(&self) -> (r: usize)
        ensures
            r == self.key_seq().len(),
    {
        self.keys.len()
    }

    /// The key at position `i`.
    pub fn key_at(&self, i: usize) -> (r: &String)
        requires
            i < self.key_seq().len(),
        ensures
            r@ == self.key_seq()[i as int],
    {
        &self.keys[i]
    }

    /// The value at position `i`.
    pub fn value_at(&self, i: usize) -> (r: &T)
        requires
            self.wf(),
            i < self.key_seq().len(),
        ensures
            *r == self.val_seq()[i as int],
    {
        &self.values[i]
    }

    /// Map `key` to `value`: replace the value in place when the key is
    /// present, else append the pair.
    pub fn insert(&mut self, key: &str, value: T)
        requires
            old(self).wf(),
        ensures
            final(self).wf(),
            ({
                let idx = key_index(old(self).key_seq(), key@);
                if idx >= 0 {
                    final(self).key_seq() == old(self).key_seq() && final(self).val_seq() == old(
                        self,
                    ).val_seq().update(idx, value)
                } else {
                    final(self).key_seq() == old(self).key_seq().push(key@) && final(self).val_seq()
                        == old(self).val_seq().push(value)
                }
            }),
    {
        let n = self.keys.len();
        let mut i: usize = 0;
        while i < n
            invariant
                i <= n,
                n == self.key_seq().len(),
                *self == *old(self),
                self.wf(),
                forall|m: int| 0 <= m < i ==> self.key_seq()[m] != key@,
            decreases n - i,
        {
            if str_eq(self.keys[i].as_str(), key) {
                proof {
                    lemma_key_index_found(self.key_seq(), key@, i as int);
                }
                self.values.set(i, value);
                proof {
                    assert(final(self).key_seq() =~= old(self).key_seq());
                }
                return ;
            }
            i += 1;
        }
        proof {
            lemma_key_index_spec(self.key_seq(), key@);
        }
        self.keys.push(key.to_owned());
        self.values.push(value);
        proof {
            assert(self.key_seq() =~= old(self).key_seq().push(key@));
            assert forall|a: int, b: int|
                0 <= a < b < self.key_seq().len() implies self.key_seq()[a]
                != self.key_seq()[b] by {
                if b < old(self).key_seq().len() {
                } else {
                    assert(self.key_seq()[b] == key@);
                }
            }
        }
    }

    /// Look `key` up.
    pub fn get(&self, key: &str) -> (r: Option<&T>)
        requires
            self.wf(),
        ensures
            ({
                let idx = key_index(self.key_seq(), key@);
                match r {
                    Some(v) => idx >= 0 && *v == self.val_seq()[idx],
                    None => idx == -1,
                }
            }),
    {
        let n = self.keys.len();
        let mut i: usize = 0;
        while i < n
            invariant
                i <= n,
                n == self.key_seq().len(),
                self.wf(),
                forall|m: int| 0 <= m < i ==> self.key_seq()[m] != key@,
            decreases n - i,
        {
            if str_eq(self.keys[i].as_str(), key) {
                proof {
                    lemma_key_index_found(self.key_seq(), key@, i as int);
                }
                return Some(&self.values[i]);
            }
            i += 1;
        }
        proof {
            lemma_key_index_spec(self.key_seq(), key@);
        }
        None
    }
}

impl<T: InterpolateAll> InterpolateAll for StringMap<T> {
    type Model = (Seq<Seq<char>>, Seq<T::Model>);

    closed spec fn iall_model(&self) -> (Seq<Seq<char>>, Seq<T::Model>) {
        (self.key_seq(), self.values.iall_model())
    }

    open spec fn iall_resolve(
        m: (Seq<Seq<char>>, Seq<T::Model>),
        env: Map<Seq<char>, Seq<char>>,
    ) -> ((Seq<Seq<char>>, Seq<T::Model>), Option<ErrorModel>) {
        let step = Vec::<T>::iall_resolve(m.1, env);
        ((m.0, step.0), step.1)
    }

    /// Resolve the values in key order; keys are never touched.
    fn interpolate_all<E: Environment>(&mut self, env: &E) -> (r: Result<(), Error>) {
        self.values.interpolate_all(env)
    }
}

/// How a map's traversal model relates to its keys and values: the model
/// pairs the key sequence with the models of the values in order.
pub proof fn lemma_string_map_model<T: InterpolateAll>(m: &StringMap<T>)
    ensures
        m.iall_model().0 == m.key_seq(),
        m.iall_model().1.len() == m.val_seq().len(),
        forall|k: int|
            0 <= k < m.val_seq().len() ==> m.iall_model().1[k]
                == #[trigger] m.val_seq()[k].iall_model(),
{
}

} // verus!
