//! Recursive resolution traversal: resolve every [`RawOr`] reachable from
//! a value, in place, against a given variable source.
//!
//! The walk is fail-fast: children are visited in declaration order, the
//! first failure aborts the walk and is the error propagated, and
//! children already resolved before the failure remain resolved.

use vstd::prelude::*;

use crate::environment::Environment;
use crate::errors::Error;
use crate::errors::ErrorModel;
use crate::raw_or::resolve_model;
use crate::raw_or::InterpolatableValue;
use crate::raw_or::RawOr;
use crate::raw_or::RawOrModel;

verus! {

/// Support for resolving every dual representation value reachable from a
/// value of this type.  `iall_resolve` is the exact model of the walk: it
/// returns the value after the walk together with the first error met, if
/// any; `interpolate_all` is proven to realize it.
pub trait InterpolateAll: Sized {
    /// The model that the traversal is specified over.
    type Model;

    /// The model of this value.
    spec fn iall_model(&self) -> Self::Model;

    /// The model-level walk: the value after resolving every reachable
    /// leaf in order against `env`, and the first leaf error if one
    /// occurred (leaves before it stay resolved; leaves after it stay
    /// untouched).
    spec fn iall_resolve(m: Self::Model, env: Map<Seq<char>, Seq<char>>) -> (
        Self::Model,
        Option<ErrorModel>,
    );

    /// Resolve every reachable dual representation value in place
    /// against `env`, failing fast on the first leaf that fails.
    fn interpolate_all<E: Environment>(&mut self, env: &E) -> (r: Result<(), Error>)
        ensures
            ({
                let step = Self::iall_resolve(old(self).iall_model(), env.env_map());
                final(self).iall_model() == step.0 && (match step.1 {
                    None => r is Ok,
                    Some(em) => r matches Err(e) && e@ == em,
                })
            }),
    ;
}

impl InterpolateAll for bool {
    type Model = bool;

    open spec fn iall_model(&self) -> bool {
        *self
    }

    open spec fn iall_resolve(m: bool, env: Map<Seq<char>, Seq<char>>) -> (bool, Option<ErrorModel>) {
        (m, None)
    }

    fn interpolate_all<E: Environment>(&mut self, env: &E) -> (r: Result<(), Error>) {
        Ok(())
    }
}

impl InterpolateAll for i16 {
    type Model = i16;

    open spec fn iall_model(&self) -> i16 {
        *self
    }

    open spec fn iall_resolve(m: i16, env: Map<Seq<char>, Seq<char>>) -> (i16, Option<ErrorModel>) {
        (m, None)
    }

    fn interpolate_all<E: Environment>(&mut self, env: &E) -> (r: Result<(), Error>) {
        Ok(())
    }
}

impl InterpolateAll for u16 {
    type Model = u16;

    open spec fn iall_model(&self) -> u16 {
        *self
    }

    open spec fn iall_resolve(m: u16, env: Map<Seq<char>, Seq<char>>) -> (u16, Option<ErrorModel>) {
        (m, None)
    }

    fn interpolate_all<E: Environment>(&mut self, env: &E) -> (r: Result<(), Error>) {
        Ok(())
    }
}

impl InterpolateAll for u32 {
    type Model = u32;

    open spec fn iall_model(&self) -> u32 {
        *self
    }

    open spec fn iall_resolve(m: u32, env: Map<Seq<char>, Seq<char>>) -> (u32, Option<ErrorModel>) {
        (m, None)
    }

    fn interpolate_all<E: Environment>(&mut self, env: &E) -> (r: Result<(), Error>) {
        Ok(())
    }
}

impl InterpolateAll for String {
    type Model = Seq<char>;

    open spec fn iall_model(&self) -> Seq<char> {
        self@
    }

    open spec fn iall_resolve(m: Seq<char>, env: Map<Seq<char>, Seq<char>>) -> (
        Seq<char>,
        Option<ErrorModel>,
    ) {
        (m, None)
    }

    fn interpolate_all<E: Environment>(&mut self, env: &E) -> (r: Result<(), Error>) {
        Ok(())
    }
}

impl InterpolateAll for () {
    type Model = ();

    open spec fn iall_model(&self) -> () {
        ()
    }

    open spec fn iall_resolve(m: (), env: Map<Seq<char>, Seq<char>>) -> ((), Option<ErrorModel>) {
        (m, None)
    }

    fn interpolate_all<E: Environment>(&mut self, env: &E) -> (r: Result<(), Error>) {
        Ok(())
    }
}

impl<T: InterpolateAll> InterpolateAll for Option<T> {
    type Model = Option<T::Model>;

    open spec fn iall_model(&self) -> Option<T::Model> {
        match self {
            Some(v) => Some(v.iall_model()),
            None => None,
        }
    }

    open spec fn iall_resolve(m: Option<T::Model>, env: Map<Seq<char>, Seq<char>>) -> (
        Option<T::Model>,
        Option<ErrorModel>,
    ) {
        match m {
            Some(inner) => {
                let step = T::iall_resolve(inner, env);
                (Some(step.0), step.1)
            },
            None => (None, None),
        }
    }

    fn interpolate_all<E: Environment>(&mut self, env: &E) -> (r: Result<(), Error>) {
        match self {
            Some(v) => T::interpolate_all(v, env),
            None => Ok(()),
        }
    }
}

impl<T: InterpolatableValue> InterpolateAll for RawOr<T> {
    type Model = RawOrModel<T::V>;

    open spec fn iall_model(&self) -> RawOrModel<T::V> {
        self@
    }

    open spec fn iall_resolve(m: RawOrModel<T::V>, env: Map<Seq<char>, Seq<char>>) -> (
        RawOrModel<T::V>,
        Option<ErrorModel>,
    ) {
        match resolve_model::<T>(m, env) {
            Ok(p) => (RawOrModel::Resolved(p), None),
            Err(e) => (m, Some(e)),
        }
    }

    fn interpolate_all<E: Environment>(&mut self, env: &E) -> (r: Result<(), Error>) {
        match self.interpolate_env(env) {
            Ok(_) => Ok(()),
            Err(e) => Err(e),
        }
    }
}

impl<T: InterpolateAll> InterpolateAll for Vec<T> {
    type Model = Seq<T::Model>;

    open spec fn iall_model(&self) -> Seq<T::Model> {
        Seq::new(self@.len(), |k: int| self@[k].iall_model())
    }

    open spec fn iall_resolve(m: Seq<T::Model>, env: Map<Seq<char>, Seq<char>>) -> (
        Seq<T::Model>,
        Option<ErrorModel>,
    )
        decreases m.len(),
    {
        if m.len() == 0 {
            (m, None)
        } else {
            let head = T::iall_resolve(m[0], env);
            match head.1 {
                Some(e) => (seq![head.0] + m.skip(1), Some(e)),
                None => {
                    let rest = Self::iall_resolve(m.skip(1), env);
                    (seq![head.0] + rest.0, rest.1)
                },
            }
        }
    }

    fn interpolate_all<E: Environment>(&mut self, env: &E) -> (r: Result<(), Error>) {
        let ghost m0 = old(self).iall_model();
        let ghost em = env.env_map();
        let n = self.len();
        let mut i: usize = 0;
        proof {
            assert(m0.skip(0) =~= m0);
            assert(self.iall_model().take(0) + Self::iall_resolve(m0, em).0 =~= Self::iall_resolve(
                m0,
                em,
            ).0);
        }
        while i < n
            invariant
                i <= n,
                n == self@.len(),
                em == env.env_map(),
                m0 == old(self).iall_model(),
                m0.len() == n,
                forall|k: int| i <= k < n ==> #[trigger] self@[k].iall_model() == m0[k],
                ({
                    let full = Self::iall_resolve(m0, em);
                    let rest = Self::iall_resolve(m0.skip(i as int), em);
                    full.0 == self.iall_model().take(i as int) + rest.0 && full.1 == rest.1
                }),
            decreases n - i,
        {
            let ghost pre = self.iall_model();
            let r = T::interpolate_all(&mut self[i], env);
            proof {
                let head = T::iall_resolve(m0[i as int], em);
                assert(m0.skip(i as int)[0] == m0[i as int]);
                assert(m0.skip(i as int).skip(1) =~= m0.skip(i as int + 1));
                assert(self.iall_model().take(i as int) =~= pre.take(i as int));
                assert(self.iall_model().take(i as int + 1) =~= pre.take(i as int) + seq![head.0]);
                assert(pre.take(i as int) + (seq![head.0] + Self::iall_resolve(
                    m0.skip(i as int + 1),
                    em,
                ).0) =~= (pre.take(i as int) + seq![head.0]) + Self::iall_resolve(
                    m0.skip(i as int + 1),
                    em,
                ).0);
            }
            match r {
                Err(e) => {
                    proof {
                        let head = T::iall_resolve(m0[i as int], em);
                        let full = Self::iall_resolve(m0, em);
                        assert(full.0 =~= self.iall_model()) by {
                            assert(full.0 == pre.take(i as int) + (seq![head.0] + m0.skip(
                                i as int,
                            ).skip(1)));
                            assert(forall|k: int|
                                0 <= k < i ==> full.0[k] == #[trigger] self@[k].iall_model());
                            assert(forall|k: int|
                                i < k < n ==> full.0[k] == #[trigger] self@[k].iall_model());
                        }
                    }
                    return Err(e);
                },
                Ok(_) => {},
            }
            i += 1;
        }
        proof {
            let full = Self::iall_resolve(m0, em);
            assert(m0.skip(n as int) =~= Seq::<T::Model>::empty());
            assert(full.0 =~= self.iall_model()) by {
                assert(full.0 == self.iall_model().take(n as int) + Self::iall_resolve(
                    m0.skip(n as int),
                    em,
                ).0);
                assert(self.iall_model().take(n as int) =~= self.iall_model());
            }
        }
        Ok(())
    }
}

} // verus!
