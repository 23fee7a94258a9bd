//! The boundary to `ringbuffer`: its heap-allocated ring, a model of what the
//! ring holds, and one small wrapper for each of its functions that the
//! library calls. Nothing in this file is proved: every contract here restates
//! what the source of `ringbuffer` shows.

use crate::json::{json_model, list_models, JsonModel};
use vstd::prelude::*;

verus! {

/// `ringbuffer::AllocRingBuffer`: a ring of fixed capacity on the heap. The
/// verifier sees nothing inside it; [`ring_items`] and [`ring_capacity`] name
/// what it holds and how much it keeps.
#[verifier::external_type_specification]
#[verifier::external_body]
#[verifier::reject_recursive_types(T)]
pub struct ExAllocRingBuffer<T>(ringbuffer::AllocRingBuffer<T>);

/// The largest capacity that the library asks of a ring.
///
/// This is a limit of the machine, not of the conversation. A ring allocates
/// its whole storage when it is made, rounds the capacity up to a power of
/// two, and does not check that the allocation succeeded, so that a request
/// that memory cannot meet would not fail cleanly. A million messages is far
/// beyond any history in use and well within what an allocation can be
/// trusted to deliver; larger requests are refused rather than tried.
pub const MAX_CAPACITY: usize = 1048576;

/// What a ring of JSON values holds, oldest first.
pub uninterp spec fn ring_items(rb: ringbuffer::AllocRingBuffer<serde_json::Value>) -> Seq<
    JsonModel,
>;

/// The capacity that a ring was made with.
pub uninterp spec fn ring_capacity(rb: ringbuffer::AllocRingBuffer<serde_json::Value>) -> nat;

/// The items after `item` is pushed onto a ring of capacity `capacity`: the
/// item is appended, and where the ring was full its oldest item leaves.
pub open spec fn pushed(items: Seq<JsonModel>, capacity: nat, item: JsonModel) -> Seq<JsonModel> {
    if items.len() < capacity {
        items.push(item)
    } else {
        items.drop_first().push(item)
    }
}

/// `AllocRingBuffer::new`: an empty ring of the given capacity.
#[verifier::external_body]
pub(crate) fn ring_new(capacity: usize) -> (r: ringbuffer::AllocRingBuffer<serde_json::Value>)
    requires
        0 < capacity <= MAX_CAPACITY,
    ensures
        ring_items(r).len() == 0,
        ring_capacity(r) == capacity,
{
    ringbuffer::AllocRingBuffer::new(capacity)
}

/// `RingBuffer::push`: appends the value; a full ring drops its oldest item
/// first. The capacity stays.
#[verifier::external_body]
pub(crate) fn ring_push(
    rb: &mut ringbuffer::AllocRingBuffer<serde_json::Value>,
    value: serde_json::Value,
)
    ensures
        ring_items(*final(rb)) == pushed(
            ring_items(*old(rb)),
            ring_capacity(*old(rb)),
            json_model(value),
        ),
        ring_capacity(*final(rb)) == ring_capacity(*old(rb)),
{
    ringbuffer::RingBuffer::push(rb, value)
}

/// `RingBuffer::clear`: empties the ring. The capacity stays.
#[verifier::external_body]
pub(crate) fn ring_clear(rb: &mut ringbuffer::AllocRingBuffer<serde_json::Value>)
    ensures
        ring_items(*final(rb)).len() == 0,
        ring_capacity(*final(rb)) == ring_capacity(*old(rb)),
{
    ringbuffer::RingBuffer::clear(rb)
}

/// `RingBuffer::to_vec`: copies of the items, oldest first.
#[verifier::external_body]
pub(crate) fn ring_to_vec(rb: &ringbuffer::AllocRingBuffer<serde_json::Value>) -> (r: Vec<
    serde_json::Value,
>)
    ensures
        list_models(r@) == ring_items(*rb),
{
    ringbuffer::RingBuffer::to_vec(rb)
}

} // verus!
