//! A connection from a service to a network.

use vstd::prelude::*;

use crate::environment::Environment;
use crate::errors::Error;
use crate::errors::ErrorModel;
use crate::interpolate_all::InterpolateAll;
use crate::raw_or::RawOr;
use crate::raw_or::RawOrModel;

verus! {

/// A connection from a service to a network.
#[derive(Debug, Clone, PartialEq, Eq, Default)]
pub struct NetworkInterface {
    /// Additional hostnames by which the service is known on this
    /// network.
    pub aliases: Vec<RawOr<String>>,
}

impl InterpolateAll for NetworkInterface {
    type Model = Seq<RawOrModel<Seq<char>>>;

    open spec fn iall_model(&self) -> Seq<RawOrModel<Seq<char>>> {
        self.aliases.iall_model()
    }

    open spec fn iall_resolve(m: Seq<RawOrModel<Seq<char>>>, env: Map<Seq<char>, Seq<char>>) -> (
        Seq<RawOrModel<Seq<char>>>,
        Option<ErrorModel>,
    ) {
        Vec::<RawOr<String>>::iall_resolve(m, env)
    }

    /// Resolve every field, in declaration order.
    fn interpolate_all<E: Environment>(&mut self, env: &E) -> (r: Result<(), Error>) {
        self.aliases.interpolate_all(env)
    }
}

} // verus!
