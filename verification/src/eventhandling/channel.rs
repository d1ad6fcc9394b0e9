//! The channel on which hover events are delivered.

use vstd::prelude::*;

use shrev::EventChannel;

use crate::eventhandling::HoverEvent;

verus! {

/// `shrev::EventChannel`, the ring buffer with registered readers on which the
/// events are delivered. Nothing inside it is visible to the proofs.
#[verifier::external_type_specification]
#[verifier::external_body]
#[verifier::reject_recursive_types(E)]
pub struct ExEventChannel<E>(EventChannel<E>);

/// The events that `channel` holds, oldest first: those written to it that
/// have not been overwritten since. The channel is a ring: it forgets its
/// oldest event when a new one needs the room, unless a registered reader has
/// yet to read that event.
pub uninterp spec fn channel_stream(channel: EventChannel<HoverEvent>) -> Seq<HoverEvent>;

/// Calls `EventChannel::single_write`, which stores one event behind the
/// newest. The contract claims that the channel then holds what it held with
/// `event` at the end, either in full or, where the ring was full and the
/// write took the room of the oldest event, without that one. A ring has at
/// least two slots, so a write never takes the room of the event written just
/// before it.
#[verifier::external_body]
pub(crate) fn channel_write(channel: &mut EventChannel<HoverEvent>, event: HoverEvent)
    ensures
        channel_stream(*final(channel)) == channel_stream(*old(channel)).push(event) || (
        channel_stream(*old(channel)).len() >= 2 && channel_stream(*final(channel))
            == channel_stream(*old(channel)).drop_first().push(event)),
{
    channel.single_write(event)
}

} // verus!
