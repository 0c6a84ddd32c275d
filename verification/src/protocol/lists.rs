//! Inline-first lists of `smallvec` in which packets and sequence numbers travel.

use smallvec::SmallVec;
use vstd::prelude::*;

verus! {

/// A vector of `smallvec` that keeps its first `N` items inline.
#[verifier::external_type_specification]
#[verifier::external_body]
#[verifier::reject_recursive_types(T)]
pub struct ExSmallVec<T, const N: usize>(SmallVec<T, N>);

/// The sequence numbers that a list holds, in order.
pub uninterp spec fn numbers(list: &SmallVec<u32, 4>) -> Seq<u32>;

/// The bytes of a packet.
pub uninterp spec fn packet_bytes(packet: &SmallVec<u8, 64>) -> Seq<u8>;

/// The packets that a list holds, in order.
pub uninterp spec fn packet_list(list: &SmallVec<SmallVec<u8, 64>, 4>) -> Seq<Seq<u8>>;

/// `SmallVec::new`: a list with nothing in it.
#[verifier::external_body]
pub(crate) fn no_numbers() -> (list: SmallVec<u32, 4>)
    ensures
        numbers(&list) == Seq::<u32>::empty(),
{
    SmallVec::new()
}

/// `SmallVec::push`: the number becomes the last item; the others stay.
#[verifier::external_body]
pub(crate) fn push_number(list: &mut SmallVec<u32, 4>, number: u32)
    ensures
        numbers(final(list)) == numbers(old(list)).push(number),
{
    list.push(number);
}

/// `SmallVec::as_slice`: the items, in order.
#[verifier::external_body]
pub(crate) fn number_slice(list: &SmallVec<u32, 4>) -> (items: &[u32])
    ensures
        items@ == numbers(list),
{
    list.as_slice()
}

/// `SmallVec::new`: a list with nothing in it.
#[verifier::external_body]
pub(crate) fn no_packets() -> (list: SmallVec<SmallVec<u8, 64>, 4>)
    ensures
        packet_list(&list) == Seq::<Seq<u8>>::empty(),
{
    SmallVec::new()
}

/// `SmallVec::push`: the packet becomes the last item; the others stay.
#[verifier::external_body]
pub(crate) fn push_packet(list: &mut SmallVec<SmallVec<u8, 64>, 4>, packet: SmallVec<u8, 64>)
    ensures
        packet_list(final(list)) == packet_list(old(list)).push(packet_bytes(&packet)),
{
    list.push(packet);
}

/// `SmallVec::from_slice_copy`: a copy of the bytes, in order.
#[verifier::external_body]
pub(crate) fn copy_packet(data: &[u8]) -> (packet: SmallVec<u8, 64>)
    ensures
        packet_bytes(&packet) == data@,
{
    SmallVec::from_slice_copy(data)
}

/// `SmallVec::as_slice`: the bytes, in order.
#[verifier::external_body]
pub(crate) fn packet_slice(packet: &SmallVec<u8, 64>) -> (data: &[u8])
    ensures
        data@ == packet_bytes(packet),
{
    packet.as_slice()
}

/// `SmallVec::from_vec`: the vector's items, in order.
#[verifier::external_body]
pub(crate) fn packet_from_vec(data: Vec<u8>) -> (packet: SmallVec<u8, 64>)
    ensures
        packet_bytes(&packet) == data@,
{
    SmallVec::from_vec(data)
}

} // verus!
