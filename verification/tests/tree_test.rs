use visgen_graph::{ParameterStore, TextureArena, TextureNode, TextureTree};

/// A test node whose output records which nodes computed below it: the
/// concatenation of its inputs followed by its own id and compute count.
struct ProbeNode {
    id: u32,
    computes: u32,
    collected: Vec<u32>,
}

impl ProbeNode {
    fn new(id: u32) -> Self {
        Self {
            id,
            computes: 0,
            collected: Vec::new(),
        }
    }
}

impl TextureNode for ProbeNode {
    type Ctx = ();

    type Tex = Vec<u32>;

    fn update(&mut self, _ctx: &(), _store: &ParameterStore, input: Vec<Vec<u32>>) {
        self.computes += 1;
        let mut c = Vec::new();
        for v in input {
            c.extend(v);
        }
        c.push(self.id);
        c.push(self.computes);
        self.collected = c;
    }

    fn output(&self) -> Vec<u32> {
        self.collected.clone()
    }
}

#[test]
fn two_leaves_update_once_each_in_append_order() {
    // root -> {b, c}: both leaves compute exactly once, and the root sees
    // exactly two inputs, in child-append order.
    let mut arena: TextureArena<ProbeNode> = TextureArena::new();
    let b = arena.new_node(ProbeNode::new(100));
    let c = arena.new_node(ProbeNode::new(200));
    let root = arena.new_node(ProbeNode::new(300));
    assert!(arena.append(root, b));
    assert!(arena.append(root, c));

    let mut tree = TextureTree::new(arena, root);
    let store = ParameterStore::new();
    tree.update(&(), &store);

    // [b_id, b_count, c_id, c_count, root_id, root_count]
    assert_eq!(tree.output(), vec![100, 1, 200, 1, 300, 1]);
}

#[test]
fn deep_chain_updates_children_first() {
    // root -> mid -> leaf, depth over two: the leaf's output reaches the
    // root through the middle node within a single frame.
    let mut arena: TextureArena<ProbeNode> = TextureArena::new();
    let leaf = arena.new_node(ProbeNode::new(1));
    let mid = arena.new_node(ProbeNode::new(2));
    let root = arena.new_node(ProbeNode::new(3));
    assert!(arena.append(mid, leaf));
    assert!(arena.append(root, mid));

    let mut tree = TextureTree::new(arena, root);
    let store = ParameterStore::new();
    tree.update(&(), &store);
    assert_eq!(tree.output(), vec![1, 1, 2, 1, 3, 1]);

    // a second frame recomputes every node exactly once more
    tree.update(&(), &store);
    assert_eq!(tree.output(), vec![1, 2, 2, 2, 3, 2]);
}

#[test]
fn update_visits_only_the_root_subtree() {
    // a node outside the root's subtree is never computed
    let mut arena: TextureArena<ProbeNode> = TextureArena::new();
    let leaf = arena.new_node(ProbeNode::new(1));
    let stray = arena.new_node(ProbeNode::new(99));
    let root = arena.new_node(ProbeNode::new(3));
    assert!(arena.append(root, leaf));
    let _ = stray;

    let mut tree = TextureTree::new(arena, root);
    let store = ParameterStore::new();
    tree.update(&(), &store);
    assert_eq!(tree.output(), vec![1, 1, 3, 1]);
}

#[test]
fn append_refuses_unsound_edges() {
    let mut arena: TextureArena<ProbeNode> = TextureArena::new();
    let a = arena.new_node(ProbeNode::new(1));
    let b = arena.new_node(ProbeNode::new(2));
    let c = arena.new_node(ProbeNode::new(3));

    // a child must have been created before its parent
    assert!(!arena.append(a, b));
    // handles must exist
    assert!(!arena.append(7, a));
    // a node gets only one parent: sharing a child needs duplication
    assert!(arena.append(b, a));
    assert!(!arena.append(c, a));
    // a node cannot be its own parent
    assert!(!arena.append(b, b));
}

#[test]
fn wide_tree_keeps_child_append_order() {
    let mut arena: TextureArena<ProbeNode> = TextureArena::new();
    let n1 = arena.new_node(ProbeNode::new(11));
    let n2 = arena.new_node(ProbeNode::new(22));
    let n3 = arena.new_node(ProbeNode::new(33));
    let root = arena.new_node(ProbeNode::new(44));
    // append order decides the input order, not handle order
    assert!(arena.append(root, n2));
    assert!(arena.append(root, n1));
    assert!(arena.append(root, n3));

    let mut tree = TextureTree::new(arena, root);
    let store = ParameterStore::new();
    tree.update(&(), &store);
    assert_eq!(tree.output(), vec![22, 1, 11, 1, 33, 1, 44, 1]);
}
