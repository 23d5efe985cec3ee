//! The signing identity under which metadata assertions are made.

use vstd::prelude::*;

verus! {

/// What a signing identity spells.
pub ghost struct KeysModel {
    pub node_id: Seq<char>,
}

/// The identity context that attributes a metadata assertion to an agent.
/// Required by the operations that write metadata (modify, retract); raw
/// put and get need none.
#[derive(Debug, PartialEq, Eq)]
pub struct Keys {
    pub node_id: String,
}

impl View for Keys {
    type V = KeysModel;

    open spec fn view(&self) -> KeysModel {
        KeysModel { node_id: self.node_id@ }
    }
}

impl Keys {
    /// An identity known by its node id.
    pub fn new(node_id: &str) -> (r: Keys)
        ensures
            r@ == (KeysModel { node_id: node_id@ }),
    {
        Keys { node_id: node_id.to_owned() }
    }

    /// The node id that provenance records carry.
    pub fn node_id(&self) -> (r: &str)
        ensures
            r@ == self@.node_id,
    {
        self.node_id.as_str()
    }
}

impl Clone for Keys {
    fn clone(&self) -> (r: Keys)
        ensures
            r == *self,
    {
        Keys { node_id: self.node_id.clone() }
    }
}

} // verus!
