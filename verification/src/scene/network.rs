//! A whole network as it is loaded.
use crate::scene::connection::ConnectionData;
use crate::scene::defrag_event::AnyEvent;
use crate::scene::element::ElementData;
use vstd::prelude::*;

verus! {

/// The nodes and links of a network, with its event log.
#[derive(Debug, PartialEq)]
pub struct FullTopologyData {
    pub elements: Vec<ElementData>,
    pub connections: Vec<ConnectionData>,
    pub defrag_timeline_events: Vec<AnyEvent>,
}

} // verus!
