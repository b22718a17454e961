//! Walking a tree of layers depth first, each group before its content.
//!
//! Each layer comes with the number of groups that were left since the layer
//! before it. A caller that keeps a stack of what the open groups pass down
//! to their content (opacity, offset, tint) pops that many entries before it
//! deals with the layer, and pushes one if the layer is a group.

use crate::layer::Layer;
use vstd::prelude::*;

verus! {

/// The number of groups left open after `layers` have been walked, those
/// among `layers` only; `pending` where there was nothing to walk.
pub open spec fn after(layers: Seq<Layer>, pending: nat) -> nat
    decreases layers,
{
    if layers.len() == 0 {
        pending
    } else {
        match layers.last() {
            Layer::Group(group) => 1 + after(group.content@, 0),
            _ => 0,
        }
    }
}

/// The walk over `layers`: each layer, a group before its content, with the
/// number of groups left since the layer before it. `pending` is that
/// number for the first layer.
pub open spec fn walk(layers: Seq<Layer>, pending: nat) -> Seq<(Layer, nat)>
    decreases layers,
{
    if layers.len() == 0 {
        Seq::empty()
    } else {
        match layers[0] {
            Layer::Group(group) => seq![(layers[0], pending)] + walk(group.content@, 0) + walk(
                layers.drop_first(),
                1 + after(group.content@, 0),
            ),
            _ => seq![(layers[0], pending)] + walk(layers.drop_first(), 0),
        }
    }
}

/// The number of layers in the trees `layers`, at any depth.
pub open spec fn total(layers: Seq<Layer>) -> nat
    decreases layers,
{
    if layers.len() == 0 {
        0
    } else {
        match layers[0] {
            Layer::Group(group) => 1 + total(group.content@) + total(layers.drop_first()),
            _ => 1 + total(layers.drop_first()),
        }
    }
}

/// The number of group layers in the trees `layers`, at any depth.
pub open spec fn groups(layers: Seq<Layer>) -> nat
    decreases layers,
{
    if layers.len() == 0 {
        0
    } else {
        match layers[0] {
            Layer::Group(group) => 1 + groups(group.content@) + groups(layers.drop_first()),
            _ => groups(layers.drop_first()),
        }
    }
}

/// The sum of the counts that come with the items of a walk.
pub open spec fn pops(items: Seq<(Layer, nat)>) -> nat
    decreases items.len(),
{
    if items.len() == 0 {
        0
    } else {
        pops(items.drop_last()) + items.last().1
    }
}

/// The counts of two walks, one after the other, add up.
pub proof fn lemma_pops_concat(a: Seq<(Layer, nat)>, b: Seq<(Layer, nat)>)
    ensures
        pops(a + b) == pops(a) + pops(b),
    decreases b.len(),
{
    if b.len() == 0 {
        assert(a + b =~= a);
    } else {
        assert((a + b).drop_last() =~= a + b.drop_last());
        lemma_pops_concat(a, b.drop_last());
    }
}

/// What is left open after a walk does not depend on the first layer,
/// unless it is the only one.
proof fn lemma_after_rest(layers: Seq<Layer>, pending: nat)
    requires
        layers.len() > 0,
    ensures
        after(layers, pending) == after(
            layers.drop_first(),
            match layers[0] {
                Layer::Group(group) => 1 + after(group.content@, 0),
                _ => 0,
            },
        ),
{
    let rest = layers.drop_first();
    if rest.len() > 0 {
        assert(rest.last() == layers.last());
    } else {
        assert(layers.last() == layers[0]);
    }
}

/// A walk yields every layer of the tree once.
pub proof fn lemma_walk_len(layers: Seq<Layer>, pending: nat)
    ensures
        walk(layers, pending).len() == total(layers),
    decreases layers,
{
    if layers.len() > 0 {
        match layers[0] {
            Layer::Group(group) => {
                lemma_walk_len(group.content@, 0);
                lemma_walk_len(layers.drop_first(), 1 + after(group.content@, 0));
            },
            _ => {
                lemma_walk_len(layers.drop_first(), 0);
            },
        }
    }
}

/// Every group is left once: the counts of a walk and the groups still open
/// at its end add up to the groups in the tree.
pub proof fn lemma_walk_pops(layers: Seq<Layer>, pending: nat)
    ensures
        pops(walk(layers, pending)) + after(layers, pending) == pending + groups(layers),
    decreases layers,
{
    if layers.len() > 0 {
        let rest = layers.drop_first();
        let head = seq![(layers[0], pending)];
        assert(head.drop_last() =~= Seq::<(Layer, nat)>::empty());
        assert(pops(head.drop_last()) == 0);
        assert(head.last() == (layers[0], pending));
        assert(pops(head) == pending);
        lemma_after_rest(layers, pending);
        match layers[0] {
            Layer::Group(group) => {
                let inner = walk(group.content@, 0);
                let next = 1 + after(group.content@, 0);
                lemma_walk_pops(group.content@, 0);
                lemma_walk_pops(rest, next);
                lemma_pops_concat(head, inner);
                lemma_pops_concat(head + inner, walk(rest, next));
            },
            _ => {
                lemma_walk_pops(rest, 0);
                lemma_pops_concat(head, walk(rest, 0));
            },
        }
    }
}

/// Iterating over a tree of layers yields as many items as the tree has
/// layers.
pub proof fn lemma_iteration_yields_every_layer(layers: Seq<Layer>)
    ensures
        walk(layers, 0).len() == total(layers),
{
    lemma_walk_len(layers, 0);
}

/// Where the last layer at the top is no group, every group is left before
/// the iteration ends, and exactly once: the counts that come with the
/// items add up to the number of groups in the tree.
///
/// Where the last layer at the top is a group, the groups on the way to the
/// last layer of the tree are never left, and the sum falls short by their
/// number; [`lemma_walk_pops`] says by how much.
pub proof fn lemma_iteration_leaves_every_group_once(layers: Seq<Layer>)
    requires
        layers.len() == 0 || !(layers.last() is Group),
    ensures
        pops(walk(layers, 0)) == groups(layers),
{
    lemma_walk_pops(layers, 0);
}

/// The part of a walk that is still to come, given the lists that are open
/// and the place reached in each; the innermost list is last.
pub open spec fn to_come(frames: Seq<(&Vec<Layer>, usize)>, pending: nat) -> Seq<(Layer, nat)>
    decreases frames.len(),
{
    if frames.len() == 0 {
        Seq::empty()
    } else {
        let open = frames.last().0@.skip(frames.last().1 as int);
        walk(open, pending) + to_come(frames.drop_last(), 1 + after(open, pending))
    }
}

/// An iterator over a tree of layers. It keeps one entry for each list of
/// layers that it is in, not one for each layer.
pub struct LayerIterator<'a> {
    iter_stack: Vec<(&'a Vec<Layer>, usize)>,
}

/// Whether each place is within its list.
spec fn in_range(frames: Seq<(&Vec<Layer>, usize)>) -> bool {
    forall|k: int| 0 <= k < frames.len() ==> (#[trigger] frames[k]).1 <= frames[k].0@.len()
}

/// The walk still to come is that of the innermost list from the place
/// reached, and then that of the lists around it.
proof fn lemma_to_come(
    outer: Seq<(&Vec<Layer>, usize)>,
    list: &Vec<Layer>,
    at: usize,
    pending: nat,
)
    ensures
        to_come(outer.push((list, at)), pending) == walk(list@.skip(at as int), pending) + to_come(
            outer,
            1 + after(list@.skip(at as int), pending),
        ),
{
    let frames = outer.push((list, at));
    assert(frames.last() == (list, at));
    assert(frames.drop_last() =~= outer);
}

/// Moving on from a layer that is no group.
proof fn lemma_step_over(
    outer: Seq<(&Vec<Layer>, usize)>,
    list: &Vec<Layer>,
    at: usize,
    pending: nat,
)
    requires
        at < list.len(),
        !(list@[at as int] is Group),
    ensures
        to_come(outer.push((list, at)), pending) == seq![(list@[at as int], pending)] + to_come(
            outer.push((list, (at + 1) as usize)),
            0,
        ),
{
    let open = list@.skip(at as int);
    let rest = list@.skip(at + 1);
    assert(open[0] == list@[at as int]);
    assert(open.drop_first() =~= rest);
    lemma_after_rest(open, pending);
    lemma_to_come(outer, list, at, pending);
    lemma_to_come(outer, list, (at + 1) as usize, 0);
    assert(walk(open, pending) == seq![(list@[at as int], pending)] + walk(rest, 0));
    assert(to_come(outer.push((list, at)), pending) =~= seq![(list@[at as int], pending)] + to_come(
        outer.push((list, (at + 1) as usize)),
        0,
    ));
}

/// Moving into a group.
proof fn lemma_step_into(
    outer: Seq<(&Vec<Layer>, usize)>,
    list: &Vec<Layer>,
    at: usize,
    pending: nat,
    content: &Vec<Layer>,
)
    requires
        at < list.len(),
        list@[at as int] matches Layer::Group(group) && group.content == *content,
    ensures
        to_come(outer.push((list, at)), pending) == seq![(list@[at as int], pending)] + to_come(
            outer.push((list, (at + 1) as usize)).push((content, 0usize)),
            0,
        ),
{
    let open = list@.skip(at as int);
    let rest = list@.skip(at + 1);
    let next = 1 + after(content@, 0);
    assert(open[0] == list@[at as int]);
    assert(open.drop_first() =~= rest);
    assert(content@.skip(0) =~= content@);
    lemma_after_rest(open, pending);
    lemma_to_come(outer, list, at, pending);
    lemma_to_come(outer, list, (at + 1) as usize, next);
    lemma_to_come(outer.push((list, (at + 1) as usize)), content, 0, 0);
    assert(walk(open, pending) == seq![(list@[at as int], pending)] + walk(content@, 0) + walk(
        rest,
        next,
    ));
    assert(to_come(outer.push((list, at)), pending) =~= seq![(list@[at as int], pending)] + to_come(
        outer.push((list, (at + 1) as usize)).push((content, 0usize)),
        0,
    ));
}

/// Leaving a list that has been walked to its end.
proof fn lemma_step_out(
    outer: Seq<(&Vec<Layer>, usize)>,
    list: &Vec<Layer>,
    at: usize,
    pending: nat,
)
    requires
        at == list.len(),
    ensures
        to_come(outer.push((list, at)), pending) == to_come(outer, pending + 1),
{
    let open = list@.skip(at as int);
    assert(open.len() == 0);
    lemma_to_come(outer, list, at, pending);
    assert(walk(open, pending) =~= Seq::<(Layer, nat)>::empty());
    assert(to_come(outer.push((list, at)), pending) =~= to_come(outer, pending + 1));
}

impl<'a> LayerIterator<'a> {
    #[verifier::type_invariant]
    spec fn well_formed(self) -> bool {
        in_range(self.iter_stack@)
    }

    /// The items that the iterator has yet to yield.
    pub closed spec fn remaining(&self) -> Seq<(Layer, nat)> {
        to_come(self.iter_stack@, 0)
    }

    /// An iterator at the start of the walk over `layers`.
    pub fn new(layers: &'a Vec<Layer>) -> (r: Self)
        ensures
            r.remaining() == walk(layers@, 0),
    {
        let mut iter_stack: Vec<(&'a Vec<Layer>, usize)> = Vec::new();
        iter_stack.push((layers, 0));
        proof {
            let outer = Seq::<(&Vec<Layer>, usize)>::empty();
            assert(iter_stack@ =~= outer.push((layers, 0usize)));
            lemma_to_come(outer, layers, 0, 0);
            assert(layers@.skip(0) =~= layers@);
            assert(to_come(iter_stack@, 0) =~= walk(layers@, 0));
        }
        Self { iter_stack }
    }

    /// The next layer of the walk, with the number of groups that were left
    /// since the layer before it; `None` when the walk is over.
    pub fn next(&mut self) -> (r: Option<(&'a Layer, usize)>)
        ensures
            match r {
                Some((layer, count)) => old(self).remaining().len() > 0 && old(self).remaining()[0]
                    == (*layer, count as nat) && final(self).remaining() == old(
                    self,
                ).remaining().drop_first(),
                None => old(self).remaining().len() == 0 && final(self).remaining().len() == 0,
            },
    {
        proof {
            use_type_invariant(&*self);
        }
        let ghost goal = self.remaining();
        let mut stack: Vec<(&'a Vec<Layer>, usize)> = Vec::new();
        std::mem::swap(&mut stack, &mut self.iter_stack);
        let ghost depth: nat = stack@.len();
        assert(depth == stack.len());
        let mut count: usize = 0;
        while stack.len() > 0
            invariant
                in_range(stack@),
                count + stack@.len() <= depth,
                depth <= usize::MAX,
                to_come(stack@, count as nat) == goal,
                goal == old(self).remaining(),
                self.iter_stack@.len() == 0,
            decreases stack@.len(),
        {
            let top: usize = stack.len() - 1;
            let (list, at) = stack[top];
            let ghost frames = stack@;
            let ghost outer = frames.drop_last();
            assert(frames =~= outer.push((list, at)));
            if at < list.len() {
                let layer = &list[at];
                stack.set(top, (list, at + 1));
                assert(stack@ =~= outer.push((list, (at + 1) as usize)));
                match layer {
                    Layer::Group(group) => {
                        proof {
                            lemma_step_into(outer, list, at, count as nat, &group.content);
                        }
                        stack.push((&group.content, 0));
                    },
                    _ => {
                        proof {
                            lemma_step_over(outer, list, at, count as nat);
                        }
                    },
                }
                proof {
                    assert forall|k: int| 0 <= k < stack@.len() implies (#[trigger] stack@[k]).1
                        <= stack@[k].0@.len() by {
                        if k < top {
                            assert(stack@[k] == frames[k]);
                        }
                    }
                    assert(goal == seq![(*layer, count as nat)] + to_come(stack@, 0));
                    assert(goal[0] == (*layer, count as nat));
                    assert(goal.drop_first() =~= to_come(stack@, 0));
                }
                self.iter_stack = stack;
                return Some((layer, count));
            } else {
                proof {
                    lemma_step_out(outer, list, at, count as nat);
                }
                stack.pop();
                assert(stack@ =~= outer);
                count += 1;
            }
        }
        None
    }
}

} // verus!
