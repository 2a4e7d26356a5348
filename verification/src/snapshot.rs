//! A validated routing graph that many readers share.

use crate::routing::{GraphModel, RouteGraph, RouteGraphError};
use std::sync::Arc;
use vstd::prelude::*;

verus! {

/// A routing graph that passed validation and is only read from then on.
#[derive(Debug, PartialEq, Eq)]
pub struct RouteGraphSnapshot(Arc<RouteGraph>);

impl View for RouteGraphSnapshot {
    type V = GraphModel;

    closed spec fn view(&self) -> GraphModel {
        (*self.0)@
    }
}

impl RouteGraphSnapshot {
    #[verifier::type_invariant]
    spec fn validated(self) -> bool {
        (*self.0)@.well_formed()
    }

    /// Freezes `graph` if it is valid, and says what is wrong with it first if not.
    pub fn new(graph: RouteGraph) -> (result: Result<Self, RouteGraphError>)
        ensures
            match result {
                Ok(snapshot) => snapshot@ == graph@ && graph@.well_formed(),
                Err(e) => graph@.fault() == Some(e@),
            },
            result is Ok <==> graph@.well_formed(),
    {
        match graph.validate() {
            Ok(_) => Ok(RouteGraphSnapshot(Arc::new(graph))),
            Err(e) => Err(e),
        }
    }

    /// The frozen graph, which is valid.
    pub fn graph(&self) -> (graph: &RouteGraph)
        ensures
            graph@ == self@,
            graph@.well_formed(),
    {
        proof {
            use_type_invariant(self);
        }
        &*self.0
    }

    /// The frozen graph as a value of its own.
    pub fn into_graph(self) -> (graph: RouteGraph)
        ensures
            graph@ == self@,
            graph@.well_formed(),
    {
        proof {
            use_type_invariant(&self);
        }
        self.graph().clone()
    }
}

impl Clone for RouteGraphSnapshot {
    fn clone(&self) -> (copy: Self)
        ensures
            copy@ == self@,
    {
        proof {
            use_type_invariant(self);
        }
        RouteGraphSnapshot(Arc::new(self.graph().clone()))
    }
}

} // verus!
