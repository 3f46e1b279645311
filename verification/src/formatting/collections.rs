//! The append-only graph that records what has been written.
//!
//! Every node holds one item and the position of the node written before it.
//! Nodes are never changed or removed once allocated, so a position keeps
//! denoting the same output no matter how much is allocated afterwards. That
//! is what makes a snapshot of the writer a constant-size value.

use vstd::prelude::*;
use crate::formatting::write_items::WriteItem;

verus! {

/// One node of the output graph.
#[derive(Clone, Copy, Debug)]
pub struct GraphNode<'a> {
    /// The item written at this node.
    pub item: WriteItem<'a>,
    /// The node written before this one, if any.
    pub previous: Option<usize>,
}

/// Every link points to a node that was allocated earlier.
pub open spec fn links_point_backwards(nodes: Seq<GraphNode>) -> bool {
    forall|i: int|
        0 <= i < nodes.len() ==> ((#[trigger] nodes[i]).previous matches Some(p) ==> p < i)
}

/// `position` is empty or denotes one of `nodes`.
pub open spec fn position_within(nodes: Seq<GraphNode>, position: Option<usize>) -> bool {
    position matches Some(i) ==> i < nodes.len()
}

/// The items from the first node written up to the node at `position`, in
/// the order in which they were written.
pub open spec fn items_up_to<'a>(nodes: Seq<GraphNode<'a>>, position: Option<usize>) -> Seq<
    WriteItem<'a>,
>
    decreases
            (match position {
                Some(i) => i + 1,
                None => 0,
            }),
{
    match position {
        None => Seq::empty(),
        Some(i) => if i < nodes.len() && (nodes[i as int].previous matches Some(p) ==> p < i) {
            items_up_to(nodes, nodes[i as int].previous).push(nodes[i as int].item)
        } else {
            Seq::empty()
        },
    }
}

/// Allocating more nodes does not change what an existing position denotes.
pub proof fn lemma_items_survive_growth(
    nodes: Seq<GraphNode>,
    grown: Seq<GraphNode>,
    position: Option<usize>,
)
    requires
        nodes.is_prefix_of(grown),
        position_within(nodes, position),
    ensures
        items_up_to(grown, position) == items_up_to(nodes, position),
    decreases
            (match position {
                Some(i) => i + 1,
                None => 0,
            }),
{
    if let Some(i) = position {
        assert(grown[i as int] == nodes[i as int]);
        if nodes[i as int].previous matches Some(p) && p < i {
            lemma_items_survive_growth(nodes, grown, nodes[i as int].previous);
        } else if nodes[i as int].previous is None {
            lemma_items_survive_growth(nodes, grown, None);
        }
    }
}

/// The arena that owns the nodes of one formatting pass.
pub struct NodeArena<'a> {
    nodes: Vec<GraphNode<'a>>,
}

impl<'a> View for NodeArena<'a> {
    type V = Seq<GraphNode<'a>>;

    /// The nodes in allocation order.
    closed spec fn view(&self) -> Seq<GraphNode<'a>> {
        self.nodes@
    }
}

impl<'a> NodeArena<'a> {
    /// Every link of the arena points to an earlier node.
    pub open spec fn wf(&self) -> bool {
        links_point_backwards(self@)
    }

    /// `position` is empty or denotes a node of this arena.
    pub open spec fn contains(&self, position: Option<usize>) -> bool {
        position_within(self@, position)
    }

    /// The output that `position` denotes.
    pub open spec fn items_up_to(&self, position: Option<usize>) -> Seq<WriteItem<'a>> {
        items_up_to(self@, position)
    }

    /// An arena without nodes.
    pub fn new() -> (arena: NodeArena<'a>)
        ensures
            arena@ == Seq::<GraphNode<'a>>::empty(),
            arena.wf(),
    {
        NodeArena { nodes: Vec::new() }
    }

    /// The number of nodes allocated so far.
    pub fn len(&self) -> (n: usize)
        ensures
            n == self@.len(),
    {
        self.nodes.len()
    }

    /// Allocates a node that holds `item` and follows `previous`, and returns
    /// its position.
    pub fn allocate(&mut self, item: WriteItem<'a>, previous: Option<usize>) -> (position: usize)
        requires
            old(self).wf(),
            old(self).contains(previous),
        ensures
            final(self)@ == old(self)@.push(GraphNode { item, previous }),
            position == old(self)@.len(),
            final(self).wf(),
            final(self).items_up_to(Some(position)) == old(self).items_up_to(previous).push(item),
    {
        let position = self.nodes.len();
        self.nodes.push(GraphNode { item, previous });
        proof {
            lemma_items_survive_growth(old(self)@, self@, previous);
        }
        position
    }

    /// Gives up the arena for its nodes, in allocation order.
    pub fn into_nodes(self) -> (nodes: Vec<GraphNode<'a>>)
        ensures
            nodes@ == self@,
    {
        self.nodes
    }

    /// The node at `position`.
    pub fn node(&self, position: usize) -> (node: GraphNode<'a>)
        requires
            position < self@.len(),
        ensures
            node == self@[position as int],
    {
        self.nodes[position]
    }

    /// Walks back from `position` to the first node and returns the items in
    /// the order in which they were written.
    pub fn collect(&self, position: Option<usize>) -> (items: Vec<WriteItem<'a>>)
        requires
            self.wf(),
            self.contains(position),
        ensures
            items@ == self.items_up_to(position),
    {
        let mut backwards: Vec<WriteItem<'a>> = Vec::new();
        let mut current = position;
        while current.is_some()
            invariant
                self.wf(),
                self.contains(current),
                self.items_up_to(position) == self.items_up_to(current) + backwards@.reverse(),
            decreases
                    (match current {
                        Some(i) => i + 1,
                        None => 0,
                    }),
        {
            let index = current.unwrap();
            let node = self.nodes[index];
            proof {
                let rest = self.items_up_to(node.previous);
                assert(self.items_up_to(current) == rest.push(node.item));
                assert(rest.push(node.item) + backwards@.reverse() == rest + backwards@.push(
                    node.item,
                ).reverse());
            }
            backwards.push(node.item);
            current = node.previous;
        }
        let mut items: Vec<WriteItem<'a>> = Vec::new();
        let mut remaining: usize = backwards.len();
        while remaining > 0
            invariant
                remaining <= backwards.len(),
                items@ == backwards@.reverse().subrange(0, backwards.len() - remaining),
            decreases remaining,
        {
            remaining = remaining - 1;
            items.push(backwards[remaining]);
        }
        assert(items@ == backwards@.reverse());
        items
    }
}

} // verus!
