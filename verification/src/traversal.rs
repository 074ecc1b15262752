//! The order in which a scene tree is visited and drawn.
//!
//! A traversal visits a node, then each of its children in list order, each
//! child with everything below it before the next child. The plan of a
//! traversal lists the visits in that order. Every visit but the first names
//! the earlier visit of its parent, so a renderer that walks the plan front to
//! back finds the parent's world matrix already computed when it reaches a
//! child.

use vstd::prelude::*;
use crate::node::SceneNode;

verus! {

/// One step of a traversal: the node visited, and the position in the plan of
/// the visit of its parent (`None` for the node the traversal started at).
pub struct Visit<'a, T> {
    pub parent: Option<usize>,
    pub node: &'a SceneNode<T>,
}

impl<T> SceneNode<T> {
    /// The number of nodes in the tree below and including this node.
    pub open spec fn spec_size(self) -> nat
        decreases self,
    {
        1 + Self::spec_forest_size(self.children@)
    }

    /// The number of nodes in the trees of `nodes`.
    pub open spec fn spec_forest_size(nodes: Seq<SceneNode<T>>) -> nat
        decreases nodes,
    {
        if nodes.len() == 0 {
            0
        } else {
            Self::spec_forest_size(nodes.drop_last()) + nodes.last().spec_size()
        }
    }

    /// The plan of a traversal that starts at this node, where this node's
    /// visit stands at position `start` of a longer plan and `parent` is the
    /// position of its parent's visit.
    pub open spec fn spec_traversal<'a>(&'a self, parent: Option<usize>, start: int) -> Seq<
        Visit<'a, T>,
    >
        decreases self,
    {
        seq![Visit { parent, node: self }] + Self::spec_forest_traversal(
            self.children@,
            start,
            start + 1,
        )
    }

    /// The plans of the trees of `nodes` one after another, where all of them
    /// are children of the node visited at position `parent` and the first
    /// visit stands at position `start`.
    pub open spec fn spec_forest_traversal<'a>(
        nodes: Seq<SceneNode<T>>,
        parent: int,
        start: int,
    ) -> Seq<Visit<'a, T>>
        decreases nodes,
    {
        if nodes.len() == 0 {
            Seq::empty()
        } else {
            let earlier = Self::spec_forest_traversal(nodes.drop_last(), parent, start);
            let last: &'a SceneNode<T> = &nodes.last();
            earlier + last.spec_traversal(Some(parent as usize), start + earlier.len())
        }
    }

    /// Appends the plan of the traversal that starts at this node to `plan`.
    fn visit_into<'a>(&'a self, parent: Option<usize>, plan: &mut Vec<Visit<'a, T>>)
        ensures
            final(plan)@ == old(plan)@ + self.spec_traversal(parent, old(plan)@.len() as int),
        decreases self,
    {
        let ghost before = plan@;
        let own = plan.len();
        plan.push(Visit { parent, node: self });
        let mut i: usize = 0;
        while i < self.children.len()
            invariant
                i <= self.children@.len(),
                own == before.len(),
                plan@ == before + seq![Visit { parent, node: self }]
                    + Self::spec_forest_traversal(self.children@.take(i as int), own as int, own + 1),
            decreases self.children@.len() - i,
        {
            let ghost earlier = Self::spec_forest_traversal(
                self.children@.take(i as int),
                own as int,
                own + 1,
            );
            assert(self.children@.take(i + 1).drop_last() == self.children@.take(i as int));
            assert(self.children@.take(i + 1).last() == self.children@[i as int]);
            self.children[i].visit_into(Some(own), plan);
            assert(plan@ == before + seq![Visit { parent, node: self }] + (earlier
                + self.children@[i as int].spec_traversal(Some(own), own + 1 + earlier.len())));
            i += 1;
        }
        assert(self.children@.take(i as int) == self.children@);
    }

    /// The plan of a traversal of the tree below this node: this node first,
    /// then the subtree of each child in list order.
    pub fn traversal<'a>(&'a self) -> (plan: Vec<Visit<'a, T>>)
        ensures
            plan@ == self.spec_traversal(None, 0),
            plan@.len() == self.spec_size(),
            plan@[0].parent.is_none(),
            *plan@[0].node == *self,
            spec_parents_come_first(plan@),
            forall|k: int|
                #![trigger plan@[k]]
                0 < k < plan@.len() ==> {
                    &&& plan@[k].parent matches Some(p)
                    &&& p < k
                    &&& plan@[p as int].node.spec_has_child(*plan@[k].node)
                },
    {
        let mut plan: Vec<Visit<'a, T>> = Vec::new();
        self.visit_into(None, &mut plan);
        let visits = plan.len();
        proof {
            assert(plan@ == self.spec_traversal(None, 0));
            self.lemma_traversal_len(None, 0);
            assert(self.spec_size() == visits);
            self.lemma_parent_visited_first(None, 0);
        }
        plan
    }

    /// Whether `child` is one of the children of `self`.
    pub open spec fn spec_has_child(self, child: SceneNode<T>) -> bool {
        exists|i: int| 0 <= i < self.children@.len() && self.children@[i] == child
    }

    /// A plan has one visit for each node of the tree.
    pub proof fn lemma_traversal_len(&self, parent: Option<usize>, start: int)
        ensures
            self.spec_traversal(parent, start).len() == self.spec_size(),
        decreases self,
    {
        Self::lemma_forest_traversal_len(self.children@, start, start + 1);
    }

    /// The plans of several trees have one visit for each node of the trees.
    pub proof fn lemma_forest_traversal_len(nodes: Seq<SceneNode<T>>, parent: int, start: int)
        ensures
            Self::spec_forest_traversal(nodes, parent, start).len() == Self::spec_forest_size(
                nodes,
            ),
        decreases nodes,
    {
        if nodes.len() > 0 {
            let earlier = Self::spec_forest_traversal(nodes.drop_last(), parent, start);
            Self::lemma_forest_traversal_len(nodes.drop_last(), parent, start);
            nodes.last().lemma_traversal_len(Some(parent as usize), start + earlier.len());
        }
    }

    /// In the plan of a tree whose first visit stands at position `start`, the
    /// first visit is that of the root and carries the parent it was given;
    /// every later visit names as its parent an earlier visit of the same
    /// plan, and the node visited there has the visited node as a child.
    pub proof fn lemma_parent_visited_first(&self, parent: Option<usize>, start: int)
        requires
            0 <= start,
            start + self.spec_size() <= usize::MAX,
        ensures
            self.spec_traversal(parent, start)[0].parent == parent,
            *self.spec_traversal(parent, start)[0].node == *self,
            forall|k: int|
                #![trigger self.spec_traversal(parent, start)[k]]
                0 < k < self.spec_traversal(parent, start).len() ==> {
                    let plan = self.spec_traversal(parent, start);
                    &&& plan[k].parent matches Some(p)
                    &&& start <= p < start + k
                    &&& plan[p - start].node.spec_has_child(*plan[k].node)
                },
        decreases self,
    {
        let plan = self.spec_traversal(parent, start);
        let below = Self::spec_forest_traversal(self.children@, start, start + 1);
        Self::lemma_forest_traversal_len(self.children@, start, start + 1);
        Self::lemma_forest_parent_visited_first(self.children@, start, start + 1);
        assert forall|k: int| 0 < k < plan.len() implies {
            &&& #[trigger] plan[k].parent matches Some(p)
            &&& start <= p < start + k
            &&& plan[p - start].node.spec_has_child(*plan[k].node)
        } by {
            assert(plan[k] == below[k - 1]);
            let p = below[k - 1].parent->0 as int;
            if p != start {
                assert(plan[p - start] == below[p - (start + 1)]);
            }
        }
    }

    /// In the plans of the children of the node visited at position `parent`,
    /// every visit names a parent: either `parent` itself, and then the node
    /// visited is one of `nodes`, or an earlier visit among these plans, and
    /// then the node visited there has the visited node as a child.
    pub proof fn lemma_forest_parent_visited_first(
        nodes: Seq<SceneNode<T>>,
        parent: int,
        start: int,
    )
        requires
            0 <= parent < start,
            start + Self::spec_forest_size(nodes) <= usize::MAX,
        ensures
            forall|k: int|
                #![trigger Self::spec_forest_traversal(nodes, parent, start)[k]]
                0 <= k < Self::spec_forest_traversal(nodes, parent, start).len() ==> {
                    let plan = Self::spec_forest_traversal(nodes, parent, start);
                    &&& plan[k].parent matches Some(p)
                    &&& {
                        ||| p == parent && nodes.contains(*plan[k].node)
                        ||| start <= p < start + k && plan[p - start].node.spec_has_child(
                            *plan[k].node,
                        )
                    }
                },
        decreases nodes,
    {
        let plan = Self::spec_forest_traversal(nodes, parent, start);
        if nodes.len() > 0 {
            let earlier = Self::spec_forest_traversal(nodes.drop_last(), parent, start);
            let last = nodes.last();
            let tail = last.spec_traversal(Some(parent as usize), start + earlier.len());
            Self::lemma_forest_traversal_len(nodes.drop_last(), parent, start);
            last.lemma_traversal_len(Some(parent as usize), start + earlier.len());
            Self::lemma_forest_parent_visited_first(nodes.drop_last(), parent, start);
            last.lemma_parent_visited_first(Some(parent as usize), start + earlier.len());
            assert forall|k: int| 0 <= k < plan.len() implies {
                &&& #[trigger] plan[k].parent matches Some(p)
                &&& {
                    ||| p == parent && nodes.contains(*plan[k].node)
                    ||| start <= p < start + k && plan[p - start].node.spec_has_child(
                        *plan[k].node,
                    )
                }
            } by {
                if k < earlier.len() {
                    assert(plan[k] == earlier[k]);
                    let p = earlier[k].parent->0 as int;
                    if p == parent {
                        let i = choose|i: int|
                            0 <= i < nodes.drop_last().len() && nodes.drop_last()[i]
                                == *earlier[k].node;
                        assert(nodes[i] == *earlier[k].node);
                    } else {
                        assert(plan[p - start] == earlier[p - start]);
                    }
                } else {
                    let j = k - earlier.len();
                    assert(plan[k] == tail[j]);
                    if j == 0 {
                        assert(nodes[nodes.len() - 1] == *tail[0].node);
                    } else {
                        let p = tail[j].parent->0 as int;
                        assert(plan[p - start] == tail[p - (start + earlier.len())]);
                    }
                }
            }
        }
    }
}

/// Whether every visit of `plan` that names a parent names an earlier visit.
pub open spec fn spec_parents_come_first<T>(plan: Seq<Visit<'_, T>>) -> bool {
    forall|k: int|
        #![trigger plan[k]]
        0 <= k < plan.len() ==> match plan[k].parent {
            Some(p) => p < k,
            None => true,
        }
}

/// What `compose` is handed at visit `k` of `plan` as the accumulated value
/// of the parent: the value computed at the parent's visit, or `initial` for
/// a visit without a parent.
pub open spec fn spec_inherited<T, M>(plan: Seq<Visit<'_, T>>, values: Seq<M>, initial: M, k: int) -> M {
    match plan[k].parent {
        Some(p) => values[p as int],
        None => initial,
    }
}

/// Walks `plan` front to back and computes one accumulated value for each
/// visit: `compose` of the value accumulated at the visit of the parent and
/// the transform of the visited node. A visit without a parent starts from
/// `initial`. With matrices and `compose` the product of the parent's world
/// matrix and the node's local matrix, the values are the world matrices of
/// the nodes: each child builds on its parent's, never on a sibling's.
pub fn accumulate<'a, T, M, F: Fn(&M, &T) -> M>(
    plan: &Vec<Visit<'a, T>>,
    initial: &M,
    compose: F,
) -> (values: Vec<M>)
    requires
        spec_parents_come_first(plan@),
        forall|inherited: &M, transform: &T| compose.requires((inherited, transform)),
    ensures
        values@.len() == plan@.len(),
        forall|k: int|
            #![trigger values@[k]]
            0 <= k < plan@.len() ==> compose.ensures(
                (&spec_inherited(plan@, values@, *initial, k), &plan@[k].node.transform),
                values@[k],
            ),
{
    let mut values: Vec<M> = Vec::new();
    let mut k: usize = 0;
    while k < plan.len()
        invariant
            k <= plan@.len(),
            values@.len() == k,
            spec_parents_come_first(plan@),
            forall|inherited: &M, transform: &T| compose.requires((inherited, transform)),
            forall|j: int|
                #![trigger values@[j]]
                0 <= j < k ==> compose.ensures(
                    (&spec_inherited(plan@, values@, *initial, j), &plan@[j].node.transform),
                    values@[j],
                ),
        decreases plan@.len() - k,
    {
        let ghost earlier = values@;
        let visit = &plan[k];
        let value = match visit.parent {
            Some(p) => {
                assert(plan@[k as int].parent == Some(p));
                compose(&values[p], &visit.node.transform)
            },
            None => compose(initial, &visit.node.transform),
        };
        values.push(value);
        assert forall|j: int| 0 <= j < k + 1 implies compose.ensures(
            (&spec_inherited(plan@, values@, *initial, j), &plan@[j].node.transform),
            #[trigger] values@[j],
        ) by {
            assert(plan@[j].parent matches Some(p) ==> p < j);
            assert(spec_inherited(plan@, values@, *initial, j) == spec_inherited(
                plan@,
                earlier,
                *initial,
                j,
            ));
            if j < k {
                assert(values@[j] == earlier[j]);
            }
        }
        k += 1;
    }
    values
}

} // verus!
