//! Delivery of a click to the object that was clicked.

use vstd::prelude::*;

use crate::eventhandling::EntityId;

verus! {

/// What reacts when an object is clicked.
///
/// A reaction may change the world it is handed, and nothing else. The
/// relation says what it may do. Left as it is it allows anything; an
/// implementation that wants its callers to know more states it and proves
/// `on_click` against it.
pub trait Clickable<W>: Sync + Send {
    /// `world_after` is a state of the world that `on_click` may leave behind
    /// when called for `entity` on `world`.
    open spec fn click_handled(&self, entity: EntityId, world: &W, world_after: &W) -> bool {
        true
    }

    fn on_click(&self, entity: EntityId, world: &mut W)
        ensures
            self.click_handled(entity, old(world), final(world)),
    ;
}

/// One clickable object: its handle and its click handler.
pub struct ClickTarget<C> {
    pub entity: EntityId,
    pub handler: C,
}

/// Target `i` is the first one that stands for `entity`.
pub open spec fn is_first_target<C>(targets: Seq<ClickTarget<C>>, entity: EntityId, i: int) -> bool {
    &&& 0 <= i < targets.len()
    &&& targets[i].entity == entity
    &&& forall|j: int| 0 <= j < i ==> (#[trigger] targets[j]).entity != entity
}

/// Some target stands for `entity`.
pub open spec fn is_clickable<C>(targets: Seq<ClickTarget<C>>, entity: EntityId) -> bool {
    exists|i: int| is_first_target(targets, entity, i)
}

/// What a click on `entity` does to the world: the first target that stands
/// for it is called, once, with this handle and this world; without such a
/// target the world is left as it was.
pub open spec fn click_effect<W, C: Clickable<W>>(
    targets: Seq<ClickTarget<C>>,
    entity: EntityId,
    world: W,
    world_after: W,
) -> bool {
    if is_clickable(targets, entity) {
        exists|i: int|
            is_first_target(targets, entity, i) && (#[trigger] targets[i]).handler.click_handled(
                entity,
                &world,
                &world_after,
            )
    } else {
        world_after == world
    }
}

/// Delivers a click on `clicked` to the first target that stands for it, and
/// tells whether there was one. An object without a click handler is simply
/// not among the targets; a click on it is dropped.
pub fn dispatch_click<W, C: Clickable<W>>(
    targets: &Vec<ClickTarget<C>>,
    clicked: EntityId,
    world: &mut W,
) -> (delivered: bool)
    ensures
        delivered == is_clickable(targets@, clicked),
        click_effect(targets@, clicked, *old(world), *final(world)),
{
    let mut i: usize = 0;
    while i < targets.len()
        invariant
            i <= targets.len(),
            *world == *old(world),
            forall|j: int| 0 <= j < i ==> (#[trigger] targets@[j]).entity != clicked,
        decreases targets.len() - i,
    {
        if targets[i].entity == clicked {
            targets[i].handler.on_click(clicked, world);
            assert(is_first_target(targets@, clicked, i as int));
            return true;
        }
        i = i + 1;
    }
    false
}

} // verus!
