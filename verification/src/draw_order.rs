//! The draw calls of a traversal, in the order in which they are issued.

use vstd::prelude::*;
use crate::node::SceneNode;
use crate::resource::ResourceHandle;
use crate::traversal::Visit;

verus! {

/// The draw calls issued while walking `plan` front to back: one for each
/// visit of a node that draws, in plan order.
pub open spec fn spec_drawn<T>(plan: Seq<Visit<'_, T>>) -> Seq<ResourceHandle>
    decreases plan.len(),
{
    if plan.len() == 0 {
        Seq::empty()
    } else {
        spec_drawn(plan.drop_last()) + plan.last().node.spec_own_draw()
    }
}

/// Walking two plans one after the other issues the draw calls of the first,
/// then those of the second.
pub proof fn lemma_drawn_concat<T>(first: Seq<Visit<'_, T>>, second: Seq<Visit<'_, T>>)
    ensures
        spec_drawn(first + second) == spec_drawn(first) + spec_drawn(second),
    decreases second.len(),
{
    if second.len() == 0 {
        assert(first + second == first);
    } else {
        assert((first + second).drop_last() == first + second.drop_last());
        lemma_drawn_concat(first, second.drop_last());
    }
}

/// One draw call of a walk through a plan: the position of the visit that
/// issues it, and the handle that it draws.
#[derive(Clone, Copy, Debug, PartialEq, Eq, Structural)]
pub struct DrawCall {
    pub visit: usize,
    pub handle: ResourceHandle,
}

/// The draw calls issued while walking `plan` front to back, each with the
/// position of its visit: one for each visit of a node that draws, in plan
/// order.
pub open spec fn spec_draw_list<T>(plan: Seq<Visit<'_, T>>) -> Seq<DrawCall>
    decreases plan.len(),
{
    if plan.len() == 0 {
        Seq::empty()
    } else if plan.last().node.spec_draws() {
        spec_draw_list(plan.drop_last()).push(
            DrawCall { visit: (plan.len() - 1) as usize, handle: plan.last().node.resource->0 },
        )
    } else {
        spec_draw_list(plan.drop_last())
    }
}

/// The draw list of a plan holds the draw calls of the plan, handle for
/// handle in the same order. Each entry stands for a visit of the plan whose
/// node draws that handle, the entries stand in the order of their visits,
/// and no visit that draws is left out.
pub proof fn lemma_draw_list_is_drawn<T>(plan: Seq<Visit<'_, T>>)
    requires
        plan.len() <= usize::MAX,
    ensures
        spec_draw_list(plan).len() == spec_drawn(plan).len(),
        forall|i: int|
            #![trigger spec_draw_list(plan)[i]]
            0 <= i < spec_draw_list(plan).len() ==> {
                let call = spec_draw_list(plan)[i];
                &&& call.handle == spec_drawn(plan)[i]
                &&& call.visit < plan.len()
                &&& plan[call.visit as int].node.spec_draws()
                &&& plan[call.visit as int].node.resource == Some(call.handle)
            },
        forall|i: int, j: int|
            0 <= i < j < spec_draw_list(plan).len() ==> spec_draw_list(plan)[i].visit
                < spec_draw_list(plan)[j].visit,
        forall|k: int|
            0 <= k < plan.len() && (#[trigger] plan[k]).node.spec_draws() ==> exists|i: int|
                0 <= i < spec_draw_list(plan).len() && spec_draw_list(plan)[i].visit == k,
    decreases plan.len(),
{
    if plan.len() > 0 {
        let shorter = plan.drop_last();
        let list = spec_draw_list(plan);
        let earlier = spec_draw_list(shorter);
        lemma_draw_list_is_drawn(shorter);
        assert forall|i: int| 0 <= i < list.len() implies {
            let call = #[trigger] list[i];
            &&& call.handle == spec_drawn(plan)[i]
            &&& call.visit < plan.len()
            &&& plan[call.visit as int].node.spec_draws()
            &&& plan[call.visit as int].node.resource == Some(call.handle)
        } by {
            if i < earlier.len() {
                assert(list[i] == earlier[i]);
                assert(plan[earlier[i].visit as int] == shorter[earlier[i].visit as int]);
            }
        }
        assert forall|i: int, j: int| 0 <= i < j < list.len() implies list[i].visit
            < list[j].visit by {
            assert(list[i] == earlier[i]);
            if j < earlier.len() {
                assert(list[j] == earlier[j]);
            }
        }
        assert forall|k: int| 0 <= k < plan.len() && (#[trigger] plan[k]).node.spec_draws()
            implies exists|i: int| 0 <= i < list.len() && list[i].visit == k by {
            if k < shorter.len() {
                assert(shorter[k] == plan[k]);
                let i = choose|i: int| 0 <= i < earlier.len() && earlier[i].visit == k;
                assert(list[i] == earlier[i]);
            } else {
                assert(list[list.len() - 1].visit == k);
            }
        }
    }
}

/// The draw calls issued while walking `plan` front to back, each with the
/// position of its visit in `plan`.
pub fn draw_list<'a, T>(plan: &Vec<Visit<'a, T>>) -> (calls: Vec<DrawCall>)
    ensures
        calls@ == spec_draw_list(plan@),
        calls@.len() == spec_drawn(plan@).len(),
        forall|i: int|
            #![trigger calls@[i]]
            0 <= i < calls@.len() ==> {
                &&& calls@[i].handle == spec_drawn(plan@)[i]
                &&& calls@[i].visit < plan@.len()
                &&& plan@[calls@[i].visit as int].node.spec_draws()
                &&& plan@[calls@[i].visit as int].node.resource == Some(calls@[i].handle)
            },
        forall|i: int, j: int| 0 <= i < j < calls@.len() ==> calls@[i].visit < calls@[j].visit,
        forall|k: int|
            0 <= k < plan@.len() && (#[trigger] plan@[k]).node.spec_draws() ==> exists|i: int|
                0 <= i < calls@.len() && calls@[i].visit == k,
{
    let mut calls: Vec<DrawCall> = Vec::new();
    let mut at: usize = 0;
    while at < plan.len()
        invariant
            at <= plan@.len(),
            calls@ == spec_draw_list(plan@.take(at as int)),
        decreases plan@.len() - at,
    {
        assert(plan@.take(at + 1).drop_last() == plan@.take(at as int));
        assert(plan@.take(at + 1).last() == plan@[at as int]);
        let node = plan[at].node;
        if node.draws() {
            match node.resource {
                Some(handle) => {
                    calls.push(DrawCall { visit: at, handle });
                },
                None => {},
            }
        }
        at += 1;
    }
    proof {
        assert(plan@.take(at as int) == plan@);
        lemma_draw_list_is_drawn(plan@);
    }
    calls
}

impl<T> SceneNode<T> {
    /// The draw call that a visit of this node issues: none if the node has
    /// no resource or the resource has nothing to draw.
    pub open spec fn spec_own_draw(self) -> Seq<ResourceHandle> {
        if self.spec_draws() {
            seq![self.resource->0]
        } else {
            Seq::empty()
        }
    }

    /// The draw calls of a traversal that starts at this node: the node's
    /// own, then those of each child's subtree in list order.
    pub open spec fn spec_draw_calls(self) -> Seq<ResourceHandle>
        decreases self,
    {
        self.spec_own_draw() + Self::spec_forest_draw_calls(self.children@)
    }

    /// The draw calls of the trees of `nodes`, one tree after the other.
    pub open spec fn spec_forest_draw_calls(nodes: Seq<SceneNode<T>>) -> Seq<ResourceHandle>
        decreases nodes,
    {
        if nodes.len() == 0 {
            Seq::empty()
        } else {
            Self::spec_forest_draw_calls(nodes.drop_last()) + nodes.last().spec_draw_calls()
        }
    }

    /// Walking the plan of a traversal issues exactly the draw calls of the
    /// tree, in the same order.
    pub proof fn lemma_plan_draws_tree(&self, parent: Option<usize>, start: int)
        ensures
            spec_drawn(self.spec_traversal(parent, start)) == self.spec_draw_calls(),
        decreases self,
    {
        let own = seq![Visit { parent, node: self }];
        let below = Self::spec_forest_traversal(self.children@, start, start + 1);
        lemma_drawn_concat(own, below);
        Self::lemma_forest_plan_draws_trees(self.children@, start, start + 1);
        assert(spec_drawn(own) == self.spec_own_draw()) by {
            assert(own.drop_last().len() == 0);
            assert(spec_drawn(own.drop_last()) == Seq::<ResourceHandle>::empty());
            assert(*own.last().node == *self);
        }
    }

    /// Walking the plans of several trees issues exactly the draw calls of
    /// those trees, in the same order.
    pub proof fn lemma_forest_plan_draws_trees(nodes: Seq<SceneNode<T>>, parent: int, start: int)
        ensures
            spec_drawn(Self::spec_forest_traversal(nodes, parent, start))
                == Self::spec_forest_draw_calls(nodes),
        decreases nodes,
    {
        if nodes.len() > 0 {
            let earlier = Self::spec_forest_traversal(nodes.drop_last(), parent, start);
            let tail = nodes.last().spec_traversal(
                Some(parent as usize),
                start + earlier.len(),
            );
            Self::lemma_forest_plan_draws_trees(nodes.drop_last(), parent, start);
            nodes.last().lemma_plan_draws_tree(Some(parent as usize), start + earlier.len());
            lemma_drawn_concat(earlier, tail);
        }
    }

    /// Draw order follows child order: the draw calls of the children in
    /// `first` all come before those of the children in `second`.
    pub proof fn lemma_children_draw_in_list_order(
        first: Seq<SceneNode<T>>,
        second: Seq<SceneNode<T>>,
    )
        ensures
            Self::spec_forest_draw_calls(first + second) == Self::spec_forest_draw_calls(first)
                + Self::spec_forest_draw_calls(second),
        decreases second.len(),
    {
        if second.len() == 0 {
            assert(first + second == first);
        } else {
            assert((first + second).drop_last() == first + second.drop_last());
            Self::lemma_children_draw_in_list_order(first, second.drop_last());
        }
    }

    /// The draw calls of the child at position `at` stand in the draw calls
    /// of its parent as one block: after the parent's own draw call and the
    /// draw calls of all children before it, and before those of all
    /// children after it.
    pub proof fn lemma_child_draws_after_earlier_siblings(&self, at: int)
        requires
            0 <= at < self.children@.len(),
        ensures
            ({
                let before = self.spec_own_draw() + Self::spec_forest_draw_calls(
                    self.children@.take(at),
                );
                let child = self.children@[at].spec_draw_calls();
                let after = Self::spec_forest_draw_calls(self.children@.skip(at + 1));
                self.spec_draw_calls() == before + child + after
            }),
    {
        let upto = self.children@.take(at + 1);
        let rest = self.children@.skip(at + 1);
        assert(upto.drop_last() == self.children@.take(at));
        assert(upto.last() == self.children@[at]);
        assert(upto + rest == self.children@);
        Self::lemma_children_draw_in_list_order(upto, rest);
    }

    /// A node that does not draw issues no draw call of its own, and the
    /// traversal still goes into its children: its draw calls are those of
    /// its children, and its plan holds the plans of its children.
    pub proof fn lemma_node_without_geometry_is_passed_through(
        &self,
        parent: Option<usize>,
        start: int,
    )
        requires
            !self.spec_draws(),
        ensures
            self.spec_draw_calls() == Self::spec_forest_draw_calls(self.children@),
            self.spec_traversal(parent, start).subrange(1, self.spec_size() as int)
                == Self::spec_forest_traversal(self.children@, start, start + 1),
    {
        self.lemma_traversal_len(parent, start);
    }

    /// The draw calls of a traversal that starts at this node, in the order
    /// in which they are issued.
    pub fn draw_calls(&self) -> (calls: Vec<ResourceHandle>)
        ensures
            calls@ == self.spec_draw_calls(),
    {
        let plan = self.traversal();
        let mut calls: Vec<ResourceHandle> = Vec::new();
        let mut i: usize = 0;
        while i < plan.len()
            invariant
                i <= plan@.len(),
                calls@ == spec_drawn(plan@.take(i as int)),
            decreases plan@.len() - i,
        {
            assert(plan@.take(i + 1).drop_last() == plan@.take(i as int));
            assert(plan@.take(i + 1).last() == plan@[i as int]);
            let node = plan[i].node;
            if node.draws() {
                match node.resource {
                    Some(handle) => {
                        calls.push(handle);
                    },
                    None => {},
                }
            }
            i += 1;
        }
        proof {
            assert(plan@.take(i as int) == plan@);
            self.lemma_plan_draws_tree(None, 0);
        }
        calls
    }
}

} // verus!
