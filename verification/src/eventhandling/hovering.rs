//! The single hovered slot and the per-frame step that keeps it.

use vstd::prelude::*;

use shrev::EventChannel;

use crate::eventhandling::channel::{channel_stream, channel_write};
use crate::eventhandling::nearest::{
    is_nearest, lemma_nearest_determined, lemma_nearest_unique, nearest_entity, nearest_hit,
    Candidate,
};
use crate::eventhandling::{EntityId, HoverEvent};

verus! {

/// The slot that remembers which object is under the pointer, if any.
#[derive(Clone, Copy, Debug, PartialEq, Eq)]
pub struct Hovered(pub Option<EntityId>);

impl View for Hovered {
    type V = Set<EntityId>;

    /// The set of objects that count as hovered.
    open spec fn view(&self) -> Set<EntityId> {
        match self.0 {
            Some(entity) => set![entity],
            None => Set::empty(),
        }
    }
}

impl core::ops::Deref for Hovered {
    type Target = Option<EntityId>;

    fn deref(&self) -> (slot: &Option<EntityId>)
        ensures
            *slot == self.0,
    {
        &self.0
    }
}

impl core::ops::DerefMut for Hovered {
    fn deref_mut(&mut self) -> (slot: &mut Option<EntityId>)
        ensures
            *slot == old(self).0,
            final(self).0 == *final(slot),
    {
        &mut self.0
    }
}

impl Default for Hovered {
    /// The slot at startup: nothing is hovered.
    fn default() -> (slot: Hovered)
        ensures
            slot.0 is None,
    {
        Hovered(None)
    }
}

/// The slot never holds more than one handle.
pub proof fn lemma_single_selection(slot: Hovered)
    ensures
        slot@.finite(),
        slot@.len() <= 1,
        forall|a: EntityId, b: EntityId| slot@.contains(a) && slot@.contains(b) ==> a == b,
{
}

/// The events that a change of the slot from `previous` to `next` gives rise
/// to: none if nothing changes, else the stop for the object left, if there
/// was one, followed by the start for the object entered, if there is one.
pub open spec fn transition_events(previous: Option<EntityId>, next: Option<EntityId>) -> Seq<
    HoverEvent,
> {
    if previous == next {
        Seq::empty()
    } else {
        let stop = match previous {
            Some(entity) => seq![HoverEvent::stop_of(entity)],
            None => Seq::empty(),
        };
        let start = match next {
            Some(entity) => seq![HoverEvent::start_of(entity)],
            None => Seq::empty(),
        };
        stop + start
    }
}

/// A change of the slot gives exactly one stop if an object was hovered and
/// exactly one start if an object is hovered now, the stop before the start,
/// and nothing else.
pub proof fn lemma_transition_exactly_once(previous: Option<EntityId>, next: Option<EntityId>)
    requires
        previous != next,
    ensures
        transition_events(previous, next).len() == (if previous is Some {
            1nat
        } else {
            0nat
        }) + (if next is Some {
            1nat
        } else {
            0nat
        }),
        previous matches Some(left) ==> transition_events(previous, next)[0] == HoverEvent::stop_of(
            left,
        ),
        next matches Some(entered) ==> transition_events(previous, next).last()
            == HoverEvent::start_of(entered),
{
}

/// What writing the events `written`, in order, makes of a channel that held
/// `before`: it holds `after`, which is `before` with `written` at its end,
/// less the oldest events that a write took the room of, at most one for each
/// event written.
pub open spec fn events_written(
    before: Seq<HoverEvent>,
    written: Seq<HoverEvent>,
    after: Seq<HoverEvent>,
) -> bool {
    exists|dropped: int|
        0 <= dropped <= written.len() && dropped <= before.len() && after == #[trigger] before.skip(
            dropped,
        ) + written
}

/// The newest events that the channel holds after a write are the events
/// written, all of them and in their order; where nothing is written the
/// channel holds what it held.
pub proof fn lemma_written_events_are_the_newest(
    before: Seq<HoverEvent>,
    written: Seq<HoverEvent>,
    after: Seq<HoverEvent>,
)
    requires
        events_written(before, written, after),
    ensures
        after.len() >= written.len(),
        after.skip(after.len() - written.len()) == written,
        written.len() == 0 ==> after == before,
{
    let dropped = choose|dropped: int|
        0 <= dropped <= written.len() && dropped <= before.len() && after == #[trigger] before.skip(
            dropped,
        ) + written;
    assert(after.skip(after.len() - written.len()) =~= written);
    if written.len() == 0 {
        assert(after =~= before);
    }
}

/// What reacts when the pointer starts or stops hovering an object.
///
/// A reaction may change the handler itself and the world it is handed, and
/// nothing else: it is given neither the hovered slot nor any other handler.
/// The two relations say what it may do. Left as they are they allow
/// anything; an implementation that wants its callers to know more states
/// them and proves its callbacks against them.
pub trait Hoverable<W>: Sync + Send {
    /// The shape that the pointer ray is cast against.
    type Volume;

    /// `after` and `world_after` are a state of the handler and of the world
    /// that `on_hover_start` may leave behind when called in state `self` on
    /// `world`.
    open spec fn hover_started(
        &self,
        entity: EntityId,
        world: &W,
        after: &Self,
        world_after: &W,
    ) -> bool {
        true
    }

    /// `after` and `world_after` are a state of the handler and of the world
    /// that `on_hover_stop` may leave behind when called in state `self` on
    /// `world`.
    open spec fn hover_stopped(
        &self,
        entity: EntityId,
        world: &W,
        after: &Self,
        world_after: &W,
    ) -> bool {
        true
    }

    /// `volume` is what `bounding_box` hands out in state `self`.
    open spec fn bounds(&self, volume: &Self::Volume) -> bool {
        true
    }

    fn on_hover_start(&mut self, entity: EntityId, world: &mut W)
        ensures
            old(self).hover_started(entity, old(world), final(self), final(world)),
    ;

    fn on_hover_stop(&mut self, entity: EntityId, world: &mut W)
        ensures
            old(self).hover_stopped(entity, old(world), final(self), final(world)),
    ;

    fn bounding_box(&self) -> (volume: &Self::Volume)
        ensures
            self.bounds(volume),
    ;
}

/// Candidate `i` is the first one that stands for `entity`.
pub open spec fn is_first_of<H>(candidates: Seq<Candidate<H>>, entity: EntityId, i: int) -> bool {
    &&& 0 <= i < candidates.len()
    &&& candidates[i].entity == entity
    &&& forall|j: int| 0 <= j < i ==> (#[trigger] candidates[j]).entity != entity
}

/// Finds the first candidate that stands for `entity`.
pub fn find_candidate<H>(candidates: &Vec<Candidate<H>>, entity: EntityId) -> (found: Option<usize>)
    ensures
        found matches Some(i) ==> is_first_of(candidates@, entity, i as int),
        found is None ==> forall|j: int|
            0 <= j < candidates@.len() ==> (#[trigger] candidates@[j]).entity != entity,
{
    let mut i: usize = 0;
    while i < candidates.len()
        invariant
            i <= candidates.len(),
            forall|j: int| 0 <= j < i ==> (#[trigger] candidates@[j]).entity != entity,
        decreases candidates.len() - i,
    {
        if candidates[i].entity == entity {
            return Some(i);
        }
        i = i + 1;
    }
    None
}

/// Some candidate stands for `entity`.
pub open spec fn stands_among<H>(candidates: Seq<Candidate<H>>, entity: EntityId) -> bool {
    exists|k: int| is_first_of(candidates, entity, k)
}

/// What one frame does to the handler of candidate `i`, given the slot's value
/// `previous` before the frame. The world is `world` when the frame begins,
/// `between` once the object left has been dealt with, and `world_after` when
/// the frame ends. If the slot changes, the first candidate that stands for
/// the object left is told to stop, on `world`, and the nearest hit is told to
/// start, on `between`; every other handler is left as it was.
pub open spec fn handler_after<W, H: Hoverable<W>>(
    candidates: Seq<Candidate<H>>,
    previous: Option<EntityId>,
    i: int,
    world: W,
    between: W,
    world_after: W,
    after: H,
) -> bool {
    let before = candidates[i].handler;
    if previous == nearest_entity(candidates) {
        after == before
    } else if previous is Some && is_first_of(candidates, previous->0, i) {
        before.hover_stopped(previous->0, &world, &after, &between)
    } else if is_nearest(candidates, i) {
        before.hover_started(candidates[i].entity, &between, &after, &world_after)
    } else {
        after == before
    }
}

/// What one frame does to the candidates and to the world: handles and
/// distances stay, each handler is as `handler_after` says, and the world
/// changes only where a handler is called. The stop comes first: it takes the
/// world from `world` to `between`, and the start takes it from `between` to
/// `world_after`.
pub open spec fn frame_effect<W, H: Hoverable<W>>(
    candidates: Seq<Candidate<H>>,
    previous: Option<EntityId>,
    world: W,
    between: W,
    after: Seq<Candidate<H>>,
    world_after: W,
) -> bool {
    let next = nearest_entity(candidates);
    &&& after.len() == candidates.len()
    &&& forall|i: int|
        #![trigger after[i]]
        0 <= i < candidates.len() ==> {
            &&& after[i].entity == candidates[i].entity
            &&& after[i].distance == candidates[i].distance
            &&& handler_after(candidates, previous, i, world, between, world_after, after[i].handler)
        }
    &&& previous == next ==> between == world
    &&& previous != next && !(previous is Some && stands_among(candidates, previous->0))
        ==> between == world
    &&& previous == next || next is None ==> world_after == between
}

/// A frame whose nearest hit is the object already hovered gives no event,
/// calls no handler and leaves the channel, the candidates and the world as
/// they were.
pub proof fn lemma_steady_state_is_silent<W, H: Hoverable<W>>(
    candidates: Seq<Candidate<H>>,
    previous: Option<EntityId>,
    world: W,
    between: W,
    after: Seq<Candidate<H>>,
    world_after: W,
    stream: Seq<HoverEvent>,
    stream_after: Seq<HoverEvent>,
)
    requires
        nearest_entity(candidates) == previous,
        frame_effect(candidates, previous, world, between, after, world_after),
        events_written(
            stream,
            transition_events(previous, nearest_entity(candidates)),
            stream_after,
        ),
    ensures
        transition_events(previous, nearest_entity(candidates)) == Seq::<HoverEvent>::empty(),
        stream_after == stream,
        after == candidates,
        world_after == world,
{
    assert(after =~= candidates);
    lemma_written_events_are_the_newest(
        stream,
        transition_events(previous, nearest_entity(candidates)),
        stream_after,
    );
}

/// When the pointer goes from one candidate's object straight to another's,
/// the handler of the first is told to stop before the handler of the second
/// is told to start: the stop acts on the world as the frame found it, and the
/// start on the world as the stop left it.
pub proof fn lemma_stop_comes_before_start<W, H: Hoverable<W>>(
    candidates: Seq<Candidate<H>>,
    previous: EntityId,
    world: W,
    between: W,
    after: Seq<Candidate<H>>,
    world_after: W,
    left: int,
    entered: int,
)
    requires
        frame_effect(candidates, Some(previous), world, between, after, world_after),
        is_first_of(candidates, previous, left),
        is_nearest(candidates, entered),
        candidates[entered].entity != previous,
    ensures
        left != entered,
        candidates[left].handler.hover_stopped(previous, &world, &after[left].handler, &between),
        candidates[entered].handler.hover_started(
            candidates[entered].entity,
            &between,
            &after[entered].handler,
            &world_after,
        ),
{
    lemma_nearest_determined(candidates, entered);
    assert(handler_after(
        candidates,
        Some(previous),
        left,
        world,
        between,
        world_after,
        after[left].handler,
    ));
    assert(handler_after(
        candidates,
        Some(previous),
        entered,
        world,
        between,
        world_after,
        after[entered].handler,
    ));
}

/// The per-frame step that keeps the hovered slot in line with the pointer.
pub struct HoverInteractionSystem;

impl HoverInteractionSystem {
    /// Resolves the nearest hit among `candidates` and moves the slot to it.
    ///
    /// When the slot changes, the stop for the object left is written to the
    /// channel and its handler called, then the start for the object entered
    /// is written and its handler called. When it does not change, nothing is
    /// written and no handler is called.
    pub fn run<W, H: Hoverable<W>>(
        &mut self,
        world: &mut W,
        candidates: &mut Vec<Candidate<H>>,
        hovered: &mut Hovered,
        hover_channel: &mut EventChannel<HoverEvent>,
    )
        ensures
            final(hovered).0 == nearest_entity(old(candidates)@),
            events_written(
                channel_stream(*old(hover_channel)),
                transition_events(old(hovered).0, final(hovered).0),
                channel_stream(*final(hover_channel)),
            ),
            exists|between: W|
                frame_effect(
                    old(candidates)@,
                    old(hovered).0,
                    *old(world),
                    between,
                    final(candidates)@,
                    *final(world),
                ),
    {
        let ghost before = candidates@;
        let ghost stream = channel_stream(*hover_channel);
        let ghost mut dropped: int = 0;
        let ghost began = *world;
        let ghost mut between = *world;
        let previous = hovered.0;
        let found = nearest_hit(candidates);
        let next = match found {
            Some(i) => Some(candidates[i].entity),
            None => None,
        };
        if next != previous {
            if let Some(entity) = previous {
                channel_write(hover_channel, HoverEvent { start: false, target: entity });
                proof {
                    if channel_stream(*hover_channel) != stream.push(HoverEvent::stop_of(entity)) {
                        dropped = 1;
                    }
                    assert(channel_stream(*hover_channel) =~= stream.skip(dropped).push(
                        HoverEvent::stop_of(entity),
                    ));
                }
                if let Some(k) = find_candidate(candidates, entity) {
                    candidates[k].handler.on_hover_stop(entity, world);
                }
            }
            proof {
                between = *world;
            }
            if let Some(i) = found {
                let entity = candidates[i].entity;
                let ghost held = channel_stream(*hover_channel);
                channel_write(hover_channel, HoverEvent { start: true, target: entity });
                proof {
                    if channel_stream(*hover_channel) != held.push(HoverEvent::start_of(entity)) {
                        assert(held.drop_first() =~= stream.skip(dropped + 1) + held.skip(
                            stream.len() - dropped,
                        ));
                        dropped = dropped + 1;
                    }
                }
                candidates[i].handler.on_hover_start(entity, world);
            }
            proof {
                assert(channel_stream(*hover_channel) =~= stream.skip(dropped)
                    + transition_events(previous, next));
                assert forall|j: int| 0 <= j < before.len() implies {
                    &&& candidates@[j].entity == before[j].entity
                    &&& candidates@[j].distance == before[j].distance
                    &&& handler_after(
                        before,
                        previous,
                        j,
                        began,
                        between,
                        *world,
                        candidates@[j].handler,
                    )
                } by {
                    if let Some(i) = found {
                        if j != i {
                            if is_nearest(before, j) {
                                lemma_nearest_unique(before, i as int, j);
                            }
                        }
                    }
                }
            }
        }
        hovered.0 = next;
        assert(frame_effect(before, previous, began, between, candidates@, *world));
        assert(channel_stream(*hover_channel) =~= stream.skip(dropped) + transition_events(
            previous,
            next,
        ));
    }
}

/// A handler that reacts to nothing: it only carries the bounding volume.
pub struct NoEffectHoverHandler<S> {
    bounding_box: S,
}

impl<S> NoEffectHoverHandler<S> {
    /// The bounding volume that the handler carries.
    pub closed spec fn volume(self) -> S {
        self.bounding_box
    }

    pub fn new(bounding_box: S) -> (handler: Self)
        ensures
            handler.volume() == bounding_box,
    {
        NoEffectHoverHandler { bounding_box }
    }
}

impl<W, S: Sync + Send> Hoverable<W> for NoEffectHoverHandler<S> {
    type Volume = S;

    open spec fn hover_started(
        &self,
        entity: EntityId,
        world: &W,
        after: &Self,
        world_after: &W,
    ) -> bool {
        after == self && world_after == world
    }

    open spec fn hover_stopped(
        &self,
        entity: EntityId,
        world: &W,
        after: &Self,
        world_after: &W,
    ) -> bool {
        after == self && world_after == world
    }

    open spec fn bounds(&self, volume: &S) -> bool {
        *volume == self.volume()
    }

    fn on_hover_start(&mut self, entity: EntityId, world: &mut W) {
    }

    fn on_hover_stop(&mut self, entity: EntityId, world: &mut W) {
    }

    fn bounding_box(&self) -> &S {
        &self.bounding_box
    }
}

/// The data of a handler that shows a texture while its object is hovered:
/// the bounding volume and the texture to show.
pub struct SimpleHoverHandler<S, T> {
    bounding_box: S,
    texture: T,
}

impl<S, T> SimpleHoverHandler<S, T> {
    /// The bounding volume that the handler carries.
    pub closed spec fn volume(self) -> S {
        self.bounding_box
    }

    /// The texture that the handler carries.
    pub closed spec fn shown(self) -> T {
        self.texture
    }

    pub fn new(bounding_box: S, handle: T) -> (handler: Self)
        ensures
            handler.volume() == bounding_box,
            handler.shown() == handle,
    {
        SimpleHoverHandler { bounding_box, texture: handle }
    }

    pub fn bounding_box(&self) -> (volume: &S)
        ensures
            *volume == self.volume(),
    {
        &self.bounding_box
    }

    pub fn texture(&self) -> (texture: &T)
        ensures
            *texture == self.shown(),
    {
        &self.texture
    }
}

} // verus!
