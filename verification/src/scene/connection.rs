//! A physical link of the topology.
use vstd::prelude::*;

verus! {

/// A link between two nodes, each named by its identifier. A link says
/// nothing about traffic: services name their own paths.
#[derive(Debug, PartialEq, Eq)]
pub struct ConnectionData {
    pub from_node: String,
    pub to_node: String,
    pub connection_id: String,
}

/// A link as plain mathematical data.
pub struct ConnectionModel {
    pub from_node: Seq<char>,
    pub to_node: Seq<char>,
    pub connection_id: Seq<char>,
}

impl View for ConnectionData {
    type V = ConnectionModel;

    open spec fn view(&self) -> ConnectionModel {
        ConnectionModel {
            from_node: self.from_node@,
            to_node: self.to_node@,
            connection_id: self.connection_id@,
        }
    }
}

impl Clone for ConnectionData {
    /// A copy with the same contents.
    fn clone(&self) -> (copy: ConnectionData)
        ensures
            copy@ == self@,
    {
        ConnectionData {
            from_node: self.from_node.clone(),
            to_node: self.to_node.clone(),
            connection_id: self.connection_id.clone(),
        }
    }
}

/// A list of links as plain mathematical data.
pub open spec fn connections_view(links: Seq<ConnectionData>) -> Seq<ConnectionModel> {
    Seq::new(links.len(), |i: int| links[i]@)
}

} // verus!
