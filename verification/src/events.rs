//! The channel on which the game announces that the enemy has caught the
//! player. The channel is `shrev`'s; what is said of it here is taken from
//! that crate and not proved.

use vstd::prelude::*;
use crate::resources::CollisionEvent;

verus! {

/// `shrev::EventChannel`, the ring buffer that events are written into and
/// that registered readers read them from. Nothing inside it is visible
/// here.
#[verifier::external_type_specification]
#[verifier::external_body]
#[verifier::reject_recursive_types(E)]
pub struct ExEventChannel<E>(shrev::EventChannel<E>);

/// The events that have been written into `channel`, oldest first. A reader
/// registered with the channel is served, at each read, those of them that
/// were written since its last read.
pub uninterp spec fn written(channel: shrev::EventChannel<CollisionEvent>) -> Seq<CollisionEvent>;

/// Writes `event` into `channel` with `shrev::EventChannel::single_write`,
/// which puts that one event behind those written before it.
#[verifier::external_body]
pub(crate) fn publish(channel: &mut shrev::EventChannel<CollisionEvent>, event: CollisionEvent)
    ensures
        written(*final(channel)) == written(*old(channel)).push(event),
{
    channel.single_write(event);
}

} // verus!
