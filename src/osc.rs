//! The OSC data model of `rosc` as seen by the verifier, and the codec calls into it.
use vstd::prelude::*;

verus! {

/// `rosc::OscPacket`, with its variants visible: a message or a bundle.
#[verifier::external_type_specification]
pub struct ExOscPacket(rosc::OscPacket);

/// `rosc::OscMessage`: an address and its typed arguments.
#[verifier::external_type_specification]
pub struct ExOscMessage(rosc::OscMessage);

/// `rosc::OscBundle`: a time tag and the packets it groups.
#[verifier::external_type_specification]
pub struct ExOscBundle(rosc::OscBundle);

/// `rosc::OscTime`, the time tag of a bundle.
#[verifier::external_type_specification]
pub struct ExOscTime(rosc::OscTime);

/// `rosc::OscType`, one typed argument.
#[verifier::external_type_specification]
pub struct ExOscType(rosc::OscType);

/// `rosc::OscColor`, the payload of a color argument.
#[verifier::external_type_specification]
pub struct ExOscColor(rosc::OscColor);

/// `rosc::OscMidiMessage`, the payload of a MIDI argument.
#[verifier::external_type_specification]
pub struct ExOscMidiMessage(rosc::OscMidiMessage);

/// `rosc::OscArray`, the payload of an array argument.
#[verifier::external_type_specification]
pub struct ExOscArray(rosc::OscArray);

/// `rosc::OscError`, why bytes did not decode; carried, never read.
#[verifier::external_type_specification]
#[verifier::external_body]
pub struct ExOscError(rosc::OscError);

} // verus!

verus! {

/// The packet that a byte string encodes as one OSC datagram, if it is one.
pub uninterp spec fn osc_decode(b: Seq<u8>) -> Option<rosc::OscPacket>;

/// The bytes of the OSC encoding of a packet.
pub uninterp spec fn osc_encode(p: rosc::OscPacket) -> Seq<u8>;

/// Relies on `rosc::decoder::decode_udp`: the packet at the start of the bytes,
/// or an error where they hold none. Bytes after the packet are not used.
#[verifier::external_body]
pub(crate) fn decode_datagram(b: &[u8]) -> (r: Result<rosc::OscPacket, rosc::OscError>)
    ensures
        r matches Ok(p) ==> osc_decode(b@) == Some(p),
        r is Err ==> osc_decode(b@) is None,
{
    rosc::decoder::decode_udp(b).map(|(_, p)| p)
}

/// Relies on `rosc::encoder::encode`: the encoding of a packet, which into a
/// `Vec` always succeeds.
#[verifier::external_body]
pub(crate) fn encode_packet(p: &rosc::OscPacket) -> (r: Vec<u8>)
    ensures
        r@ == osc_encode(*p),
{
    rosc::encoder::encode(p).unwrap_or_default()
}

} // verus!
