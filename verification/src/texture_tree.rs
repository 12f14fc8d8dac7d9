//! The node-graph scheduler: an arena of texture-producing nodes with
//! parent/child edges, evaluated once per frame in a fixed bottom-up order.
//!
//! Nodes are created leaf-first, so every edge points from a parent to a
//! child with a smaller handle; that makes the arena acyclic by
//! construction.  The evaluation order is computed once, when the tree is
//! built, and provably visits every child before its parent
//! ([`TextureTree::lemma_children_scheduled_after_parent`]).
use vstd::prelude::*;
use crate::parameter::ParameterStore;

verus! {

/// A unit of texture computation: consumes the outputs of its children and
/// produces one output.  `Ctx` carries whatever per-frame handle the host
/// rendering layer needs; `Tex` is the texture handle type.
pub trait TextureNode {
    type Ctx;

    type Tex;

    /// One per-frame compute step: `input` holds the children's outputs in
    /// child-append order.  Afterwards `output` must reflect this frame.
    fn update(&mut self, ctx: &Self::Ctx, store: &ParameterStore, input: Vec<Self::Tex>);

    /// The node's current output texture.
    fn output(&self) -> Self::Tex;
}

/// An arena of nodes with parent/child edges.  Nodes are appended
/// leaf-first: an edge may only attach a child with a smaller handle that
/// has no parent yet, which keeps the graph a forest.
pub struct TextureArena<N> {
    nodes: Vec<N>,
    parents: Vec<Option<usize>>,
    children: Vec<Vec<usize>>,
}

/// Whether node `i` is `root` or hangs below it through parent edges.
pub open spec fn reaches(parents: Seq<Option<usize>>, i: int, root: int) -> bool
    decreases parents.len() - i,
{
    if i == root {
        true
    } else {
        match parents[i] {
            Some(p) => if i < p < parents.len() {
                reaches(parents, p as int, root)
            } else {
                false
            },
            None => false,
        }
    }
}

impl<N> TextureArena<N> {
    /// How many nodes the arena holds.
    pub closed spec fn spec_len(&self) -> nat {
        self.nodes@.len()
    }

    /// The parent edge of each node.
    pub closed spec fn spec_parents(&self) -> Seq<Option<usize>> {
        self.parents@
    }

    /// The child lists, in append order.
    pub closed spec fn spec_children(&self) -> Seq<Seq<usize>> {
        self.children@.map_values(|c: Vec<usize>| c@)
    }

    /// Every edge points from a parent to an earlier-created child, both
    /// directions agree, and no node has two parents.
    pub open spec fn wf(&self) -> bool {
        &&& self.spec_parents().len() == self.spec_len()
        &&& self.spec_children().len() == self.spec_len()
        &&& forall|c: int|
            0 <= c < self.spec_len() && self.spec_parents()[c] is Some ==> c
                < self.spec_parents()[c]->Some_0 < self.spec_len()
        &&& forall|p: int, k: int|
            #![trigger self.spec_children()[p][k]]
            0 <= p < self.spec_len() && 0 <= k < self.spec_children()[p].len() ==> {
                &&& self.spec_children()[p][k] < p
                &&& self.spec_parents()[self.spec_children()[p][k] as int] == Some(p as usize)
            }
        &&& forall|c: int|
            0 <= c < self.spec_len() && self.spec_parents()[c] is Some ==> self.spec_children()[self.spec_parents()[c]->Some_0 as int].contains(
                c as usize,
            )
    }

    /// An empty arena.
    pub fn new() -> (r: Self)
        ensures
            r.wf(),
            r.spec_len() == 0,
    {
        let r = Self { nodes: Vec::new(), parents: Vec::new(), children: Vec::new() };
        proof {
            assert(r.spec_children() =~= Seq::<Seq<usize>>::empty());
        }
        r
    }

    /// How many nodes the arena holds.
    pub fn len(&self) -> (r: usize)
        ensures
            r == self.spec_len(),
    {
        self.nodes.len()
    }

    /// Adds a node and returns its handle; the node starts without edges.
    pub fn new_node(&mut self, node: N) -> (id: usize)
        requires
            old(self).wf(),
        ensures
            final(self).wf(),
            id == old(self).spec_len(),
            final(self).spec_len() == old(self).spec_len() + 1,
            final(self).spec_parents() == old(self).spec_parents().push(None),
            final(self).spec_children() == old(self).spec_children().push(Seq::<usize>::empty()),
    {
        let id = self.nodes.len();
        self.nodes.push(node);
        self.parents.push(None);
        self.children.push(Vec::new());
        proof {
            assert(self.spec_children() =~= old(self).spec_children().push(
                Seq::<usize>::empty(),
            ));
        }
        id
    }

    /// Attaches `child` under `parent`, at the end of the parent's child
    /// list.  Fails — and changes nothing — unless both handles exist, the
    /// child was created before the parent, and the child has no parent
    /// yet; that discipline is what keeps the arena a forest.
    pub fn append(&mut self, parent: usize, child: usize) -> (ok: bool)
        requires
            old(self).wf(),
        ensures
            final(self).wf(),
            final(self).spec_len() == old(self).spec_len(),
            ok == (parent < old(self).spec_len() && child < parent && old(self).spec_parents()[child as int] is None),
            ok ==> {
                &&& final(self).spec_parents() == old(self).spec_parents().update(
                    child as int,
                    Some(parent),
                )
                &&& final(self).spec_children() == old(self).spec_children().update(
                    parent as int,
                    old(self).spec_children()[parent as int].push(child),
                )
            },
            !ok ==> final(self).spec_parents() == old(self).spec_parents()
                && final(self).spec_children() == old(self).spec_children(),
    {
        if parent >= self.nodes.len() || child >= parent {
            return false;
        }
        if self.parents[child].is_some() {
            return false;
        }
        self.parents[child] = Some(parent);
        self.children[parent].push(child);
        proof {
            let oldp = old(self).spec_parents();
            let oldc = old(self).spec_children();
            assert(self.spec_children() =~= oldc.update(
                parent as int,
                oldc[parent as int].push(child),
            ));
            let newp = self.spec_parents();
            let newc = self.spec_children();
            let n = self.spec_len();
            assert forall|p2: int, k2: int|
                #![trigger newc[p2][k2]]
                0 <= p2 < n && 0 <= k2 < newc[p2].len() implies {
                &&& newc[p2][k2] < p2
                &&& newp[newc[p2][k2] as int] == Some(p2 as usize)
            } by {
                if p2 == parent as int && k2 == oldc[parent as int].len() {
                    assert(newc[p2][k2] == child);
                } else {
                    assert(newc[p2][k2] == oldc[p2][k2]);
                    assert(oldc[p2][k2] < p2 && oldp[oldc[p2][k2] as int] == Some(p2 as usize));
                    if oldc[p2][k2] == child {
                        assert(oldp[child as int] is Some);
                        assert(false);
                    }
                }
            }
            assert forall|c2: int|
                0 <= c2 < n && newp[c2] is Some implies newc[newp[c2]->Some_0 as int].contains(
                c2 as usize,
            ) by {
                if c2 == child as int {
                    assert(newc[parent as int][oldc[parent as int].len() as int] == child);
                } else {
                    assert(newp[c2] == oldp[c2]);
                    let q = oldp[c2]->Some_0;
                    assert(oldc[q as int].contains(c2 as usize));
                    let w = choose|w: int| 0 <= w < oldc[q as int].len() && oldc[q as int][w] == c2 as usize;
                    assert(newc[q as int][w] == c2 as usize);
                }
            }
        }
        true
    }

    /// Whether node `i` sits in the subtree below `root`.
    fn is_descendant(&self, i: usize, root: usize) -> (r: bool)
        requires
            self.wf(),
            i < self.spec_len(),
            root < self.spec_len(),
        ensures
            r == reaches(self.spec_parents(), i as int, root as int),
    {
        let mut cur = i;
        while cur != root
            invariant
                self.wf(),
                cur < self.spec_len(),
                reaches(self.spec_parents(), i as int, root as int) == reaches(
                    self.spec_parents(),
                    cur as int,
                    root as int,
                ),
            decreases self.spec_len() - cur,
        {
            match self.parents[cur] {
                Some(p) => {
                    cur = p;
                },
                None => {
                    return false;
                },
            }
        }
        true
    }
}

/// A runnable node tree: an arena plus a root, with the bottom-up
/// evaluation order precomputed at construction and reused every frame.
pub struct TextureTree<N> {
    arena: TextureArena<N>,
    root: usize,
    node_stack: Vec<usize>,
}

impl<N: TextureNode> TextureTree<N> {
    /// The root node's handle.
    pub closed spec fn spec_root(&self) -> usize {
        self.root
    }

    /// The arena the tree owns.
    pub closed spec fn spec_arena(&self) -> TextureArena<N> {
        self.arena
    }

    /// The cached visitation order, root first; frames walk it in reverse.
    pub closed spec fn spec_order(&self) -> Seq<usize> {
        self.node_stack@
    }

    /// The arena is well-formed, the root exists, and the cached order
    /// holds exactly the root's subtree, in strictly decreasing handle
    /// order starting at the root.
    pub open spec fn wf(&self) -> bool {
        &&& self.spec_arena().wf()
        &&& self.spec_root() < self.spec_arena().spec_len()
        &&& self.spec_order().len() >= 1
        &&& self.spec_order()[0] == self.spec_root()
        &&& forall|k: int|
            0 <= k < self.spec_order().len() ==> #[trigger] self.spec_order()[k]
                <= self.spec_root()
        &&& forall|k1: int, k2: int|
            0 <= k1 < k2 < self.spec_order().len() ==> self.spec_order()[k1]
                > self.spec_order()[k2]
        &&& forall|k: int|
            0 <= k < self.spec_order().len() ==> reaches(
                self.spec_arena().spec_parents(),
                #[trigger] self.spec_order()[k] as int,
                self.spec_root() as int,
            )
        &&& forall|j: usize|
            j <= self.spec_root() && reaches(
                self.spec_arena().spec_parents(),
                j as int,
                self.spec_root() as int,
            ) ==> #[trigger] self.spec_order().contains(j)
    }

    /// Builds the runnable tree: takes the finished arena and the root and
    /// computes the evaluation order once; the topology never changes
    /// afterwards.
    pub fn new(arena: TextureArena<N>, root: usize) -> (r: Self)
        requires
            arena.wf(),
            root < arena.spec_len(),
        ensures
            r.wf(),
            r.spec_arena().spec_parents() == arena.spec_parents(),
            r.spec_arena().spec_children() == arena.spec_children(),
            r.spec_root() == root,
    {
        let total = arena.len();
        let mut node_stack: Vec<usize> = Vec::new();
        let mut i: usize = root + 1;
        while i > 0
            invariant
                arena.wf(),
                root < arena.spec_len(),
                i <= root + 1,
                forall|k: int|
                    0 <= k < node_stack@.len() ==> i <= #[trigger] node_stack@[k] <= root,
                forall|k1: int, k2: int|
                    0 <= k1 < k2 < node_stack@.len() ==> node_stack@[k1] > node_stack@[k2],
                forall|k: int|
                    0 <= k < node_stack@.len() ==> reaches(
                        arena.spec_parents(),
                        #[trigger] node_stack@[k] as int,
                        root as int,
                    ),
                forall|j: usize|
                    i <= j <= root && reaches(arena.spec_parents(), j as int, root as int)
                        ==> #[trigger] node_stack@.contains(j),
                node_stack@.len() >= 1 ==> node_stack@[0] == root,
                i <= root ==> node_stack@.len() >= 1,
            decreases i,
        {
            let id = i - 1;
            if arena.is_descendant(id, root) {
                let ghost pre = node_stack@;
                node_stack.push(id);
                proof {
                    assert(node_stack@ == pre.push(id));
                    assert forall|j: usize|
                        id <= j <= root && reaches(
                            arena.spec_parents(),
                            j as int,
                            root as int,
                        ) implies #[trigger] node_stack@.contains(j) by {
                        if j == id {
                            assert(node_stack@[pre.len() as int] == j);
                        } else {
                            assert(pre.contains(j));
                            let w = choose|w: int| 0 <= w < pre.len() && pre[w] == j;
                            assert(node_stack@[w] == j);
                        }
                    }
                }
            }
            i = id;
        }
        Self { arena, root, node_stack }
    }

    /// For every scheduled node, each of its children is scheduled strictly
    /// after it, so walking the cached order in reverse updates every
    /// node's children before the node itself — the bottom-up guarantee of
    /// the frame loop.
    pub proof fn lemma_children_scheduled_after_parent(&self, k: int, c: usize)
        requires
            self.wf(),
            0 <= k < self.spec_order().len(),
            self.spec_arena().spec_children()[self.spec_order()[k] as int].contains(c),
        ensures
            exists|j: int|
                k < j < self.spec_order().len() && #[trigger] self.spec_order()[j] == c,
    {
        let n = self.spec_order()[k];
        let parents = self.spec_arena().spec_parents();
        let kids = self.spec_arena().spec_children()[n as int];
        let idx = choose|idx: int| 0 <= idx < kids.len() && kids[idx] == c;
        assert(kids[idx] == c);
        assert(c < n && parents[c as int] == Some(n));
        assert(reaches(parents, n as int, self.spec_root() as int));
        assert(reaches(parents, c as int, self.spec_root() as int));
        assert(self.spec_order().contains(c));
        let j = choose|j: int| 0 <= j < self.spec_order().len() && self.spec_order()[j] == c;
        assert(self.spec_order()[j] == c);
        assert(j != k);
        if j < k {
            assert(self.spec_order()[j] > self.spec_order()[k]);
            assert(false);
        }
    }

    /// One frame: visits the cached order in reverse — children before
    /// parents — handing every node its children's current outputs in
    /// child-append order together with the live parameter store.  The
    /// topology and the cached order never change.
    pub fn update(&mut self, ctx: &N::Ctx, store: &ParameterStore)
        requires
            old(self).wf(),
        ensures
            final(self).wf(),
            final(self).spec_arena().spec_parents() == old(self).spec_arena().spec_parents(),
            final(self).spec_arena().spec_children() == old(self).spec_arena().spec_children(),
            final(self).spec_order() == old(self).spec_order(),
            final(self).spec_root() == old(self).spec_root(),
    {
        let mut k: usize = self.node_stack.len();
        while k > 0
            invariant
                self.wf(),
                self.spec_arena().spec_parents() == old(self).spec_arena().spec_parents(),
                self.spec_arena().spec_children() == old(self).spec_arena().spec_children(),
                self.spec_order() == old(self).spec_order(),
                self.spec_root() == old(self).spec_root(),
                k <= self.spec_order().len(),
            decreases k,
        {
            k = k - 1;
            let n = self.node_stack[k];
            proof {
                assert(self.spec_order()[k as int] <= self.spec_root());
                assert(n < self.spec_arena().spec_len());
                assert(self.spec_arena().spec_children()[n as int] == self.arena.children@[n as int]@);
            }
            let mut inputs: Vec<N::Tex> = Vec::new();
            let child_count = self.arena.children[n].len();
            let mut ci: usize = 0;
            while ci < child_count
                invariant
                    self.wf(),
                    n < self.spec_arena().spec_len(),
                    child_count == self.spec_arena().spec_children()[n as int].len(),
                    ci <= child_count,
                    self.spec_arena().spec_parents() == old(self).spec_arena().spec_parents(),
                    self.spec_arena().spec_children() == old(self).spec_arena().spec_children(),
                    self.spec_order() == old(self).spec_order(),
                    self.spec_root() == old(self).spec_root(),
                decreases child_count - ci,
            {
                let c = self.arena.children[n][ci];
                proof {
                    assert(self.spec_arena().spec_children()[n as int] == self.arena.children@[n as int]@);
                    assert(self.spec_arena().spec_children()[n as int][ci as int] < n);
                }
                inputs.push(self.arena.nodes[c].output());
                ci = ci + 1;
            }
            self.arena.nodes[n].update(ctx, store, inputs);
        }
    }

    /// The root's output after a completed frame.
    pub fn output(&self) -> N::Tex
        requires
            self.wf(),
    {
        self.arena.nodes[self.root].output()
    }
}

} // verus!
