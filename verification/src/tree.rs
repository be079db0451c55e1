//! Note commitment trees in the notation of a tree state.
//!
//! An encoded tree tells which of its nodes are filled: the two leaves that are not yet merged,
//! and then one inner node for each level above. Each node is a flag, followed by a field
//! element if the flag is set.

use crate::backend::{read_orchard_tree, read_sapling_tree};
use crate::chain::{is_element, TreeState, TreeStateView, BLS_SCALAR_ORDER, PALLAS_BASE_ORDER};
use crate::encoding::{hex_decode, hex_decoded};
use vstd::prelude::*;

verus! {

/// How many levels the trees have.
pub const TREE_DEPTH: u8 = 32;

/// The flag of the node that is encoded at `at`, and where the encoding ends; `None` if there is
/// no node. `order` is that of the field that the nodes are from.
pub open spec fn node_at(bytes: Seq<u8>, at: int, order: [u8; 32]) -> Option<(bool, int)> {
    if at < bytes.len() && bytes[at] == 0 {
        Some((false, at + 1))
    } else if at + 33 <= bytes.len() && bytes[at] == 1 && is_element(
        bytes.subrange(at + 1, at + 33),
        order,
    ) {
        Some((true, at + 33))
    } else {
        None
    }
}

/// The flags of `count` nodes that are encoded from `at` on, and where the encoding ends.
pub open spec fn nodes_at(bytes: Seq<u8>, at: int, count: nat, order: [u8; 32]) -> Option<
    (Seq<bool>, int),
>
    decreases count,
{
    if count == 0 {
        Some((Seq::empty(), at))
    } else {
        match nodes_at(bytes, at, (count - 1) as nat, order) {
            Some((flags, next)) => match node_at(bytes, next, order) {
                Some((flag, end)) => Some((flags.push(flag), end)),
                None => None,
            },
            None => None,
        }
    }
}

/// Which nodes of an encoded tree are filled: the two leaves, then the inner nodes, whose number
/// stands before them. What follows the tree is not looked at.
pub open spec fn tree_nodes(bytes: Seq<u8>, order: [u8; 32]) -> Option<Seq<bool>> {
    match nodes_at(bytes, 0, 2, order) {
        Some((leaves, at)) => if at < bytes.len() && bytes[at] < TREE_DEPTH {
            match nodes_at(bytes, at + 1, bytes[at] as nat, order) {
                Some((inner, _)) => Some(leaves + inner),
                None => None,
            }
        } else {
            None
        },
        None => None,
    }
}

/// Which nodes of a tree in hexadecimal are filled; no text stands for the empty tree.
pub open spec fn tree_of(text: Seq<char>, order: [u8; 32]) -> Option<Seq<bool>> {
    if text.len() == 0 {
        Some(seq![false, false])
    } else {
        match hex_decoded(text) {
            Some(bytes) => tree_nodes(bytes, order),
            None => None,
        }
    }
}

/// How many notes the node with index `i` stands for.
pub open spec fn node_weight(i: nat) -> nat
    decreases i,
{
    if i < 2 {
        1
    } else {
        2 * node_weight((i - 1) as nat)
    }
}

/// How many notes a tree holds.
pub open spec fn tree_size(nodes: Seq<bool>) -> nat
    decreases nodes.len(),
{
    if nodes.len() == 0 {
        0
    } else {
        tree_size(nodes.drop_last()) + if nodes.last() {
            node_weight((nodes.len() - 1) as nat)
        } else {
            0
        }
    }
}

/// Whether a tree can be worked with: one that lacks its first leaf lacks every other node, and
/// its size fits in a word of the machine.
pub open spec fn tree_sound(nodes: Seq<bool>) -> bool {
    &&& forall|i: int| 0 <= i < nodes.len() && #[trigger] nodes[i] ==> nodes[0]
    &&& tree_size(nodes) <= usize::MAX
}

/// The hash of the block that a tree state is about, which is written in reversed byte order.
pub open spec fn state_hash(text: Seq<char>) -> Option<Seq<u8>> {
    match hex_decoded(text) {
        Some(bytes) => if bytes.len() == 32 {
            Some(bytes.reverse())
        } else {
            None
        },
        None => None,
    }
}

/// Which nodes of the Sapling tree are filled.
pub open spec fn sapling_nodes(state: TreeStateView) -> Option<Seq<bool>> {
    tree_of(state.sapling_tree, BLS_SCALAR_ORDER)
}

/// Which nodes of the Orchard tree are filled.
pub open spec fn orchard_nodes(state: TreeStateView) -> Option<Seq<bool>> {
    tree_of(state.orchard_tree, PALLAS_BASE_ORDER)
}

/// Whether a tree state says where the chain stands: its hash, its height and both trees parse.
pub open spec fn tree_state_valid(state: TreeStateView) -> bool {
    &&& state_hash(state.hash) is Some
    &&& state.height <= u32::MAX
    &&& sapling_nodes(state) is Some
    &&& orchard_nodes(state) is Some
}

/// What a tree state has to be to be taken up, whether it is then valid or not: the trees are
/// sound, as far as they are looked at. The trees of a state whose hash or height does not parse
/// are not, nor is the second one where the first does not parse.
pub open spec fn tree_state_readable(state: TreeStateView) -> bool {
    state_hash(state.hash) is Some && state.height <= u32::MAX ==> {
        sapling_nodes(state) matches Some(sapling) ==> {
            &&& tree_sound(sapling)
            &&& orchard_nodes(state) matches Some(orchard) ==> tree_sound(orchard)
        }
    }
}

/// Nodes end within the bytes, and there are as many flags as nodes.
proof fn nodes_end(bytes: Seq<u8>, at: int, count: nat, order: [u8; 32])
    requires
        0 <= at <= bytes.len(),
    ensures
        nodes_at(bytes, at, count, order) matches Some(n) ==> at <= n.1 <= bytes.len() && n.0.len()
            == count,
    decreases count,
{
    if count > 0 {
        nodes_end(bytes, at, (count - 1) as nat, order);
    }
}

/// A tree has two leaves and fewer inner nodes than levels.
proof fn nodes_are_few(text: Seq<char>, order: [u8; 32])
    ensures
        tree_of(text, order) matches Some(nodes) ==> 2 <= nodes.len() <= TREE_DEPTH + 1,
{
    if let Some(bytes) = hex_decoded(text) {
        nodes_end(bytes, 0, 2, order);
        if let Some((_, at)) = nodes_at(bytes, 0, 2, order) {
            if at < bytes.len() {
                nodes_end(bytes, at + 1, bytes[at] as nat, order);
            }
        }
    }
}

proof fn weights_grow(i: nat, j: nat)
    requires
        i <= j,
    ensures
        node_weight(i) <= node_weight(j),
    decreases j,
{
    if i < j {
        weights_grow(i, (j - 1) as nat);
    }
}

fn check_tree(nodes: &Vec<bool>) -> (r: bool)
    requires
        nodes@.len() <= TREE_DEPTH + 1,
    ensures
        r == tree_sound(nodes@),
{
    let mut size: u64 = 0;
    let mut weight: u64 = 1;
    let mut i: usize = 0;
    assert(node_weight(TREE_DEPTH as nat) == 0x8000_0000) by {
        reveal_with_fuel(node_weight, 33);
    }
    while i < nodes.len()
        invariant
            i <= nodes@.len(),
            nodes@.len() <= TREE_DEPTH + 1,
            forall|k: int| 0 <= k < i && #[trigger] nodes@[k] ==> nodes@[0],
            weight == node_weight(i as nat),
            size == tree_size(nodes@.take(i as int)),
            size <= i * 0x8000_0000,
            node_weight(TREE_DEPTH as nat) == 0x8000_0000,
        decreases nodes@.len() - i,
    {
        proof {
            let next = nodes@.take(i + 1);
            assert(next.drop_last() =~= nodes@.take(i as int));
            assert(next.last() == nodes@[i as int]);
            weights_grow(i as nat, TREE_DEPTH as nat);
        }
        if nodes[i] {
            if !nodes[0] {
                return false;
            }
            size += weight;
        }
        if i > 0 {
            weight *= 2;
        }
        i += 1;
    }
    assert(nodes@.take(i as int) =~= nodes@);
    size <= usize::MAX as u64
}

impl TreeState {
    /// Whether the tree state can be taken up: see [`tree_state_readable`].
    pub fn readable(&self) -> (r: bool)
        ensures
            r == tree_state_readable(self@),
    {
        match hex_decode(self.hash.as_str()) {
            Ok(hash) => if hash.len() != 32 {
                return true;
            },
            Err(_) => return true,
        }
        if self.height > 0xffff_ffff {
            return true;
        }
        proof {
            nodes_are_few(self@.sapling_tree, BLS_SCALAR_ORDER);
            nodes_are_few(self@.orchard_tree, PALLAS_BASE_ORDER);
        }
        match read_sapling_tree(self.sapling_tree.as_str()) {
            Ok(nodes) => if !check_tree(&nodes) {
                return false;
            },
            Err(_) => return true,
        }
        match read_orchard_tree(self.orchard_tree.as_str()) {
            Ok(nodes) => check_tree(&nodes),
            Err(_) => true,
        }
    }
}

} // verus!
