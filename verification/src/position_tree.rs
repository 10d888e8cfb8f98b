use vstd::prelude::*;
use id_tree::{InsertBehavior, Node, NodeId, Tree, TreeBuilder};

verus! {

#[verifier::external_type_specification]
#[verifier::external_body]
#[verifier::reject_recursive_types(T)]
pub struct ExTree<T>(Tree<T>);

#[verifier::external_type_specification]
#[verifier::external_body]
pub struct ExNodeId(NodeId);

/// The nodes of an `id_tree::Tree`, by position (the order of insertion):
/// each node's data and the position of its parent, -1 for a node without
/// one. Trees here are built by insertion only, so no position is ever
/// freed and reused.
pub uninterp spec fn tree_nodes(tree: Tree<String>) -> Seq<(Seq<char>, int)>;

/// The identity that an `id_tree::Tree` stamps on the node ids it issues.
pub uninterp spec fn tree_identity(tree: Tree<String>) -> int;

/// The tree identity and the position that an `id_tree::NodeId` refers to.
pub uninterp spec fn node_id_target(id: NodeId) -> (int, int);

/// The text that `id_tree::Tree::write_formatted` writes for a tree with
/// these nodes: one line per node, each node's data in debug form, drawn
/// with branch characters under its parent.
pub uninterp spec fn tree_rendering(nodes: Seq<(Seq<char>, int)>) -> Seq<char>;

/// The positions, in the order that `id_tree::Tree::traverse_level_order_ids`
/// visits them, of the subtree of a tree with these nodes that hangs from
/// position `from`.
pub uninterp spec fn level_order(nodes: Seq<(Seq<char>, int)>, from: int) -> Seq<int>;

/// Position 0 is the only node without a parent, and every other node hangs
/// from an earlier one.
pub open spec fn is_rooted(nodes: Seq<(Seq<char>, int)>) -> bool {
    &&& nodes.len() > 0
    &&& nodes[0].1 == -1
    &&& forall|i: int| 1 <= i < nodes.len() ==> 0 <= #[trigger] nodes[i].1 < i
}

/// `id` refers to a node of `tree`.
pub open spec fn refers_to(tree: Tree<String>, id: NodeId) -> bool {
    &&& node_id_target(id).0 == tree_identity(tree)
    &&& 0 <= node_id_target(id).1 < tree_nodes(tree).len()
}

/// `order` lists each position below `n` exactly once.
pub open spec fn visits_each_once(order: Seq<int>, n: int) -> bool {
    &&& order.len() == n
    &&& forall|k: int| 0 <= k < order.len() ==> 0 <= #[trigger] order[k] < n
    &&& forall|k1: int, k2: int|
        0 <= k1 < order.len() && 0 <= k2 < order.len() && k1 != k2 ==> order[k1] != order[k2]
    &&& forall|p: int| 0 <= p < n ==> order.contains(p)
}

/// The number of steps from position `i` up to the root, in a tree whose
/// nodes each hang from an earlier one.
pub open spec fn node_depth(nodes: Seq<(Seq<char>, int)>, i: int) -> nat
    decreases i,
{
    if 0 < i < nodes.len() && 0 <= nodes[i].1 < i {
        1 + node_depth(nodes, nodes[i].1)
    } else {
        0
    }
}

/// `order` goes level by level: a shallower node comes first; on one level
/// the children of a node that comes earlier come first, and the children
/// of one node come in the order of their positions, which is the order in
/// which they were inserted.
pub open spec fn goes_by_levels(nodes: Seq<(Seq<char>, int)>, order: Seq<int>) -> bool {
    forall|k1: int, k2: int|
        #![trigger order[k1], order[k2]]
        0 <= k1 < k2 < order.len() ==> {
            let a = order[k1];
            let b = order[k2];
            ||| node_depth(nodes, a) < node_depth(nodes, b)
            ||| node_depth(nodes, a) == node_depth(nodes, b) && if nodes[a].1 == nodes[b].1 {
                a < b
            } else {
                order.index_of(nodes[a].1) < order.index_of(nodes[b].1)
            }
        }
}

/// Builds a tree that holds only its root, with `data`
/// (`TreeBuilder::new().with_root(Node::new(data)).build()`).
#[verifier::external_body]
pub(crate) fn tree_with_root(data: String) -> (tree: Tree<String>)
    ensures
        tree_nodes(tree) == seq![(data@, -1int)],
{
    TreeBuilder::new().with_root(Node::new(data)).build()
}

/// The id of the root of a rooted tree (`Tree::root_node_id`), which is the
/// node at position 0.
#[verifier::external_body]
pub(crate) fn root_id(tree: &Tree<String>) -> (id: NodeId)
    requires
        is_rooted(tree_nodes(*tree)),
    ensures
        node_id_target(id) == (tree_identity(*tree), 0int),
{
    tree.root_node_id().unwrap().clone()
}

/// Inserts a node with `data` as the last child of `parent`
/// (`Tree::insert` with `InsertBehavior::UnderNode`): it takes the next
/// position, and the tree keeps its identity.
#[verifier::external_body]
pub(crate) fn insert_under(tree: &mut Tree<String>, data: String, parent: &NodeId) -> (id: NodeId)
    requires
        refers_to(*old(tree), *parent),
    ensures
        tree_nodes(*final(tree)) == tree_nodes(*old(tree)).push((data@, node_id_target(*parent).1)),
        tree_identity(*final(tree)) == tree_identity(*old(tree)),
        node_id_target(id) == (tree_identity(*old(tree)), tree_nodes(*old(tree)).len() as int),
{
    tree.insert(Node::new(data), InsertBehavior::UnderNode(parent)).unwrap()
}

/// The data of the node `id` (`Tree::get` then `Node::data`).
#[verifier::external_body]
pub(crate) fn node_data<'a>(tree: &'a Tree<String>, id: &NodeId) -> (data: &'a String)
    requires
        refers_to(*tree, *id),
    ensures
        data@ == tree_nodes(*tree)[node_id_target(*id).1].0,
{
    tree.get(id).unwrap().data()
}

/// The ids of the subtree under `from` in level order
/// (`Tree::traverse_level_order_ids`). As its documentation says, the
/// traversal covers the subtree: from the root of a rooted tree it visits
/// every node once, the root first, and, as a queue of ids that takes each
/// node's children in their order, it goes level by level.
#[verifier::external_body]
pub(crate) fn level_order_ids(tree: &Tree<String>, from: &NodeId) -> (ids: Vec<NodeId>)
    requires
        refers_to(*tree, *from),
    ensures
        ids@.len() == level_order(tree_nodes(*tree), node_id_target(*from).1).len(),
        forall|k: int|
            0 <= k < ids@.len() ==> node_id_target(#[trigger] ids@[k]) == (
                tree_identity(*tree),
                level_order(tree_nodes(*tree), node_id_target(*from).1)[k],
            ),
        is_rooted(tree_nodes(*tree)) && node_id_target(*from).1 == 0 ==> visits_each_once(
            ids@.map_values(|id: NodeId| node_id_target(id).1),
            tree_nodes(*tree).len() as int,
        ),
        is_rooted(tree_nodes(*tree)) && node_id_target(*from).1 == 0 ==> node_id_target(ids@[0]).1
            == 0,
        is_rooted(tree_nodes(*tree)) && node_id_target(*from).1 == 0 ==> goes_by_levels(
            tree_nodes(*tree),
            ids@.map_values(|id: NodeId| node_id_target(id).1),
        ),
{
    tree.traverse_level_order_ids(from).unwrap().collect()
}

/// The text of the tree drawn by `Tree::write_formatted` into a `String`
/// (writing into a `String` cannot fail).
#[verifier::external_body]
pub(crate) fn render_tree(tree: &Tree<String>) -> (text: String)
    ensures
        text@ == tree_rendering(tree_nodes(*tree)),
{
    let mut text = String::new();
    let _ = tree.write_formatted(&mut text);
    text
}

} // verus!
