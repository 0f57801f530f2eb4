//! The blank nodes that the labels of one evaluation stand for.

use vstd::prelude::*;
use std::collections::BTreeMap;

verus! {

broadcast use {vstd::std_specs::btree::group_btree_axioms, vstd::laws_cmp::group_laws_cmp};

/// A map from the dictionary id of a label to the blank node made for it.
pub struct BlankNodeMap {
    nodes: BTreeMap<u64, u128>,
}

impl View for BlankNodeMap {
    type V = Map<u64, u128>;

    closed spec fn view(&self) -> Map<u64, u128> {
        self.nodes@
    }
}

impl BlankNodeMap {
    /// The map without any label.
    pub fn new() -> (map: Self)
        ensures
            map@ == Map::<u64, u128>::empty(),
    {
        BlankNodeMap { nodes: BTreeMap::new() }
    }

    /// The blank node of `label`, if it has one.
    pub fn get(&self, label: u64) -> (node: Option<u128>)
        ensures
            node == if self@.contains_key(label) {
                Some(self@[label])
            } else {
                None
            },
    {
        match self.nodes.get(&label) {
            Some(node) => Some(*node),
            None => None,
        }
    }

    /// Gives `label` the blank node `node`.
    pub fn insert(&mut self, label: u64, node: u128)
        ensures
            final(self)@ == old(self)@.insert(label, node),
    {
        self.nodes.insert(label, node);
    }
}

/// The blank node of a label: the one that the map holds for it, else
/// `fresh`.
pub open spec fn label_node(nodes: Map<u64, u128>, label: u64, fresh: u128) -> u128 {
    if nodes.contains_key(label) {
        nodes[label]
    } else {
        fresh
    }
}

/// The map after the blank node of `label` was asked for.
pub open spec fn with_label(nodes: Map<u64, u128>, label: u64, fresh: u128) -> Map<u64, u128> {
    if nodes.contains_key(label) {
        nodes
    } else {
        nodes.insert(label, fresh)
    }
}

/// The blank node of `label`. A label that has none yet gets `fresh`, and
/// keeps it.
pub fn blank_node_for(nodes: &mut BlankNodeMap, label: u64, fresh: u128) -> (node: u128)
    ensures
        node == label_node(old(nodes)@, label, fresh),
        final(nodes)@ == with_label(old(nodes)@, label, fresh),
{
    match nodes.get(label) {
        Some(node) => node,
        None => {
            nodes.insert(label, fresh);
            fresh
        },
    }
}

} // verus!
