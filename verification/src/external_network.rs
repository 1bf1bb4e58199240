//! Information about an external network.

use vstd::prelude::*;

use crate::environment::Environment;
use crate::errors::Error;
use crate::errors::ErrorModel;
use crate::interpolate_all::InterpolateAll;
use crate::raw_or::RawOr;
use crate::raw_or::RawOrModel;

verus! {

/// Information about a network defined outside the document.
#[derive(Debug, Clone, PartialEq, Eq, Default)]
pub struct ExternalNetwork {
    /// The external name of this network, if it differs from the name the
    /// document refers to it by.
    pub name: Option<RawOr<String>>,
}

impl InterpolateAll for ExternalNetwork {
    type Model = Option<RawOrModel<Seq<char>>>;

    open spec fn iall_model(&self) -> Option<RawOrModel<Seq<char>>> {
        self.name.iall_model()
    }

    open spec fn iall_resolve(m: Option<RawOrModel<Seq<char>>>, env: Map<Seq<char>, Seq<char>>) -> (
        Option<RawOrModel<Seq<char>>>,
        Option<ErrorModel>,
    ) {
        Option::<RawOr<String>>::iall_resolve(m, env)
    }

    /// Resolve every field, in declaration order.
    fn interpolate_all<E: Environment>(&mut self, env: &E) -> (r: Result<(), Error>) {
        self.name.interpolate_all(env)
    }
}

} // verus!
