//! A read-shared address space: nodes looked up by id, each exposing
//! attribute values on request. The engine only reads it; builders are
//! append-only so callers can assemble a space for the driver.

use vstd::prelude::*;
use crate::types::{DataValue, NodeId, ReadValueId};

verus! {

/// One attribute of a node, identified by the numeric attribute id.
#[derive(Clone, Copy, PartialEq, Eq, Structural, Debug)]
pub struct Attribute {
    pub attribute_id: u32,
    pub value: DataValue,
}

/// A node: its id and the attributes it carries.
#[derive(Clone, PartialEq, Debug)]
pub struct Node {
    pub node_id: NodeId,
    pub attributes: Vec<Attribute>,
}

/// The ghost shape of a node.
#[verifier::ext_equal]
pub ghost struct NodeModel {
    pub node_id: NodeId,
    pub attributes: Seq<Attribute>,
}

impl View for Node {
    type V = NodeModel;

    open spec fn view(&self) -> NodeModel {
        NodeModel { node_id: self.node_id, attributes: self.attributes@ }
    }
}

/// The address space: a sequence of nodes, searched front to back.
#[derive(Clone, PartialEq, Debug)]
pub struct AddressSpace {
    pub nodes: Vec<Node>,
}

impl View for AddressSpace {
    type V = Seq<NodeModel>;

    open spec fn view(&self) -> Seq<NodeModel> {
        self.nodes@.map(|i: int, n: Node| n@)
    }
}

/// First node from `i` onward whose id matches.
pub open spec fn find_node_from(nodes: Seq<NodeModel>, id: NodeId, i: int) -> Option<NodeModel>
    decreases nodes.len() - i,
{
    if i < 0 || i >= nodes.len() {
        Option::None
    } else if nodes[i].node_id == id {
        Option::Some(nodes[i])
    } else {
        find_node_from(nodes, id, i + 1)
    }
}

pub open spec fn find_node_spec(nodes: Seq<NodeModel>, id: NodeId) -> Option<NodeModel> {
    find_node_from(nodes, id, 0)
}

/// First attribute from `i` onward with the requested id.
pub open spec fn find_attribute_from(attrs: Seq<Attribute>, id: u32, i: int) -> Option<DataValue>
    decreases attrs.len() - i,
{
    if i < 0 || i >= attrs.len() {
        Option::None
    } else if attrs[i].attribute_id == id {
        Option::Some(attrs[i].value)
    } else {
        find_attribute_from(attrs, id, i + 1)
    }
}

pub open spec fn find_attribute_spec(attrs: Seq<Attribute>, id: u32) -> Option<DataValue> {
    find_attribute_from(attrs, id, 0)
}

/// The attribute ids the engine recognizes at tick time.
pub open spec fn valid_attribute_id_spec(id: u32) -> bool {
    1 <= id <= 22
}

pub fn valid_attribute_id(id: u32) -> (r: bool)
    ensures
        r == valid_attribute_id_spec(id),
{
    1 <= id && id <= 22
}

/// What one tick observes for a target: the attribute's value, when the node
/// exists, the attribute id is recognized and the node carries that
/// attribute; nothing otherwise.
pub open spec fn sample_spec(nodes: Seq<NodeModel>, target: ReadValueId) -> Option<DataValue> {
    match find_node_spec(nodes, target.node_id) {
        Option::None => Option::None,
        Option::Some(n) => if valid_attribute_id_spec(target.attribute_id) {
            find_attribute_spec(n.attributes, target.attribute_id)
        } else {
            Option::None
        },
    }
}

impl Node {
    pub fn new(node_id: NodeId) -> (r: Node)
        ensures
            r@.node_id == node_id,
            r@.attributes == Seq::<Attribute>::empty(),
    {
        Node { node_id, attributes: Vec::new() }
    }

    /// Appends an attribute; lookups keep returning the first entry for an id.
    pub fn add_attribute(&mut self, attribute_id: u32, value: DataValue)
        ensures
            final(self)@.node_id == old(self)@.node_id,
            final(self)@.attributes == old(self)@.attributes.push(
                Attribute { attribute_id, value },
            ),
    {
        self.attributes.push(Attribute { attribute_id, value });
    }

    /// The read capability of a node: the value of one attribute.
    pub fn find_attribute(&self, attribute_id: u32) -> (r: Option<DataValue>)
        ensures
            r == find_attribute_spec(self@.attributes, attribute_id),
    {
        let mut i: usize = 0;
        while i < self.attributes.len()
            invariant
                i <= self.attributes.len(),
                find_attribute_from(self@.attributes, attribute_id, 0) == find_attribute_from(
                    self@.attributes,
                    attribute_id,
                    i as int,
                ),
            decreases self.attributes.len() - i,
        {
            if self.attributes[i].attribute_id == attribute_id {
                return Some(self.attributes[i].value);
            }
            i = i + 1;
        }
        None
    }
}

impl AddressSpace {
    pub fn new() -> (r: AddressSpace)
        ensures
            r@ == Seq::<NodeModel>::empty(),
    {
        let r = AddressSpace { nodes: Vec::new() };
        proof {
            assert(r@ =~= Seq::<NodeModel>::empty());
        }
        r
    }

    /// Appends a node; lookups keep returning the first node for an id.
    pub fn add_node(&mut self, node: Node)
        ensures
            final(self)@ == old(self)@.push(node@),
    {
        self.nodes.push(node);
        proof {
            assert(self@ =~= old(self)@.push(self.nodes@[self.nodes@.len() - 1]@));
        }
    }

    /// The read capability of the space: the node with the given id, if any.
    pub fn find_node(&self, node_id: &NodeId) -> (r: Option<&Node>)
        ensures
            match r {
                Option::Some(n) => find_node_spec(self@, *node_id) == Option::Some(n@),
                Option::None => find_node_spec(self@, *node_id) is None,
            },
    {
        let mut i: usize = 0;
        while i < self.nodes.len()
            invariant
                i <= self.nodes.len(),
                find_node_from(self@, *node_id, 0) == find_node_from(self@, *node_id, i as int),
            decreases self.nodes.len() - i,
        {
            if self.nodes[i].node_id.namespace == node_id.namespace && self.nodes[i].node_id.value
                == node_id.value {
                return Some(&self.nodes[i]);
            }
            i = i + 1;
        }
        None
    }

    /// One-step read: node lookup, attribute-id validation, attribute lookup.
    pub fn read_sample(&self, target: &ReadValueId) -> (r: Option<DataValue>)
        ensures
            r == sample_spec(self@, *target),
    {
        match self.find_node(&target.node_id) {
            Option::None => Option::None,
            Option::Some(node) => {
                if valid_attribute_id(target.attribute_id) {
                    node.find_attribute(target.attribute_id)
                } else {
                    Option::None
                }
            },
        }
    }
}

} // verus!
