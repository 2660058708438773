//! Classification of one incoming datagram into a control command or a set of
//! payload messages.
use vstd::prelude::*;
use crate::osc::{decode_datagram, encode_packet, osc_decode, osc_encode};
use rosc::{OscBundle, OscError, OscMessage, OscPacket, OscType};
use smallvec::SmallVec;

verus! {

/// The payload messages of one datagram, in a vector that keeps a single
/// message inline.
#[verifier::external_body]
pub struct Messages {
    items: SmallVec<[OscMessage; 1]>,
}

/// The messages that `Messages` holds, in order.
pub uninterp spec fn message_items(v: Messages) -> Seq<OscMessage>;

impl Messages {
    /// Relies on `SmallVec::new`: a vector that holds nothing.
    #[verifier::external_body]
    pub(crate) fn new() -> (r: Messages)
        ensures
            message_items(r) == Seq::<OscMessage>::empty(),
    {
        Messages { items: SmallVec::new() }
    }

    /// Relies on `SmallVec::push`: the message is appended after the others.
    /// Its capacity check cannot fail for items of non-zero size, which memory
    /// bounds.
    #[verifier::external_body]
    pub(crate) fn push(&mut self, m: OscMessage)
        ensures
            message_items(*final(self)) == message_items(*old(self)).push(m),
    {
        self.items.push(m)
    }

    /// Relies on `SmallVec::into_vec`: the same messages, in the same order.
    #[verifier::external_body]
    fn into_vec(self) -> (r: Vec<OscMessage>)
        ensures
            r@ == message_items(self),
    {
        self.items.into_vec()
    }

    /// The messages, in order, to be routed one by one.
    pub fn into_list(self) -> (r: Vec<OscMessage>)
        ensures
            r@ == message_items(self),
    {
        self.into_vec()
    }
}

/// The reserved address of a standalone subscribe message.
pub open spec fn subscribe_addr() -> Seq<char> {
    "/subscribe"@
}

/// The reserved address of a standalone unsubscribe message.
pub open spec fn unsubscribe_addr() -> Seq<char> {
    "/unsubscribe"@
}

/// The leaf messages of a packet, in traversal order: bundles of any depth are
/// flattened, their time tags dropped.
pub open spec fn leaves(p: OscPacket) -> Seq<OscMessage>
    decreases p,
{
    match p {
        OscPacket::Message(m) => seq![m],
        OscPacket::Bundle(b) => leaves_of_all(b.content@),
    }
}

/// The leaf messages of a sequence of packets, one packet after the other.
pub open spec fn leaves_of_all(ps: Seq<OscPacket>) -> Seq<OscMessage>
    decreases ps,
{
    if ps.len() == 0 {
        seq![]
    } else {
        leaves(ps[0]) + leaves_of_all(ps.subrange(1, ps.len() as int))
    }
}

/// The topic that a control message carries: its one argument, if that is a string.
pub open spec fn control_topic(m: OscMessage) -> Option<Seq<char>> {
    if m.args@.len() == 1 {
        match m.args@[0] {
            OscType::String(s) => Some(s@),
            _ => None,
        }
    } else {
        None
    }
}

/// What a datagram asks of the relay.
pub enum Packet {
    /// Payload messages, each to be routed by its own address.
    Normal(Messages),
    /// Subscribe the sender to a topic.
    Subscription(String),
    /// Unsubscribe the sender from a topic.
    Unsubscription(String),
}

/// Why a datagram was discarded.
pub enum PacketError {
    /// The bytes are no valid OSC packet.
    Decode(OscError),
    /// A standalone subscribe message without exactly one string argument.
    MalformedSubscription,
    /// A standalone unsubscribe message without exactly one string argument.
    MalformedUnsubscription,
}

/// The command that a decoded packet stands for, or `None` where it is a
/// malformed control message. Control addresses count only at the top level.
pub open spec fn command_of(p: OscPacket) -> Option<Command> {
    match p {
        OscPacket::Message(m) => {
            if m.addr@ == subscribe_addr() {
                match control_topic(m) {
                    Some(t) => Some(Command::Subscribe(t)),
                    None => None,
                }
            } else if m.addr@ == unsubscribe_addr() {
                match control_topic(m) {
                    Some(t) => Some(Command::Unsubscribe(t)),
                    None => None,
                }
            } else {
                Some(Command::Deliver(seq![m]))
            }
        },
        OscPacket::Bundle(b) => Some(Command::Deliver(leaves(p))),
    }
}

/// Whether `p` is a standalone message with address `a`.
pub open spec fn addressed_to(p: OscPacket, a: Seq<char>) -> bool {
    match p {
        OscPacket::Message(m) => m.addr@ == a,
        OscPacket::Bundle(_) => false,
    }
}

/// `r` is the classification of the decoded packet `p`: its command, or the
/// malformed-control error that fits its address.
pub open spec fn classifies(p: OscPacket, r: Result<Packet, PacketError>) -> bool {
    match command_of(p) {
        Some(c) => r matches Ok(q) && q@ == c,
        None => r matches Err(e) && !(e is Decode) && (e is MalformedSubscription <==> addressed_to(
            p,
            subscribe_addr(),
        )),
    }
}

/// The meaning of a `Packet`, over plain values.
pub enum Command {
    Deliver(Seq<OscMessage>),
    Subscribe(Seq<char>),
    Unsubscribe(Seq<char>),
}

impl Packet {
    /// What this packet asks for, as a `Command`.
    pub open spec fn view(&self) -> Command {
        match self {
            Packet::Normal(v) => Command::Deliver(message_items(*v)),
            Packet::Subscription(t) => Command::Subscribe(t@),
            Packet::Unsubscription(t) => Command::Unsubscribe(t@),
        }
    }
}

/// Appends the leaf messages of `p` to `out`, in traversal order.
fn collect_leaves(p: OscPacket, out: &mut Messages)
    ensures
        message_items(*final(out)) == message_items(*old(out)) + leaves(p),
    decreases p,
{
    broadcast use vstd::std_specs::vec::axiom_vec_index_decreases;
    match p {
        OscPacket::Message(m) => {
            out.push(m);
        },
        OscPacket::Bundle(b) => {
            let ghost all = b.content@;
            let ghost start = message_items(*out);
            let mut rest = b.content;
            let mut k: usize = 0;
            let n: usize = rest.len();
            assert(all.len() == n);
            while rest.len() > 0
                invariant
                    k + rest.len() == all.len(),
                    all.len() <= usize::MAX,
                    rest@ == all.subrange(k as int, all.len() as int),
                    forall|i: int| 0 <= i < all.len() ==> decreases_to!(p => #[trigger] all[i]),
                    start + leaves_of_all(all) == message_items(*out) + leaves_of_all(rest@),
                decreases rest.len(),
            {
                let ghost before = rest@;
                let first = rest.remove(0);
                proof {
                    assert(before.subrange(1, before.len() as int) =~= rest@);
                    assert(first == all[k as int]);
                }
                collect_leaves(first, out);
                k = k + 1;
            }
            proof {
                assert(rest@ =~= Seq::<OscPacket>::empty());
            }
        },
    }
}

/// The topic that a control message carries, as `control_topic` states it.
fn topic_argument(m: &OscMessage) -> (r: Option<String>)
    ensures
        r matches Some(t) ==> control_topic(*m) == Some(t@),
        r is None ==> control_topic(*m) is None,
{
    if m.args.len() == 1 {
        match &m.args[0] {
            OscType::String(s) => Some(s.clone()),
            _ => None,
        }
    } else {
        None
    }
}

impl Packet {
    /// Classifies a decoded packet. A standalone message at a control address
    /// becomes a subscription change, or an error where it does not carry
    /// exactly one string argument; every other packet becomes its leaf
    /// messages, control addresses inside a bundle included.
    pub fn from_osc(p: OscPacket) -> (r: Result<Packet, PacketError>)
        ensures
            classifies(p, r),
    {
        match p {
            OscPacket::Message(m) => {
                let sub = "/subscribe".to_owned();
                let unsub = "/unsubscribe".to_owned();
                proof {
                    reveal_strlit("/subscribe");
                    reveal_strlit("/unsubscribe");
                }
                if m.addr == sub {
                    match topic_argument(&m) {
                        Some(t) => Ok(Packet::Subscription(t)),
                        None => Err(PacketError::MalformedSubscription),
                    }
                } else if m.addr == unsub {
                    match topic_argument(&m) {
                        Some(t) => Ok(Packet::Unsubscription(t)),
                        None => Err(PacketError::MalformedUnsubscription),
                    }
                } else {
                    let ghost single = m;
                    let mut v = Messages::new();
                    v.push(m);
                    proof {
                        assert(message_items(v) =~= seq![single]);
                    }
                    Ok(Packet::Normal(v))
                }
            },
            OscPacket::Bundle(b) => {
                let ghost whole = OscPacket::Bundle(b);
                let mut v = Messages::new();
                collect_leaves(OscPacket::Bundle(b), &mut v);
                proof {
                    assert(message_items(v) =~= leaves(whole));
                }
                Ok(Packet::Normal(v))
            },
        }
    }
}

impl Packet {
    /// Decodes one datagram and classifies it. Bytes that hold no OSC packet
    /// give `Decode`; otherwise the result is that of `from_osc`.
    pub fn try_from(value: &[u8]) -> (r: Result<Packet, PacketError>)
        ensures
            osc_decode(value@) is None <==> r matches Err(PacketError::Decode(_)),
            osc_decode(value@) matches Some(p) ==> classifies(p, r),
    {
        match decode_datagram(value) {
            Ok(p) => Packet::from_osc(p),
            Err(e) => Err(PacketError::Decode(e)),
        }
    }
}

/// The wire bytes of one message, sent to a subscriber as a packet of its own.
pub fn serialize(m: OscMessage) -> (r: Vec<u8>)
    ensures
        r@ == osc_encode(OscPacket::Message(m)),
{
    let p = OscPacket::Message(m);
    encode_packet(&p)
}

} // verus!
