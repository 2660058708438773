use osc_relay::packet::serialize;
use osc_relay::{Packet, PacketError, Registry, StartupArgs};
use rosc::{OscBundle, OscMessage, OscPacket, OscTime, OscType};

fn message(addr: &str, args: Vec<OscType>) -> OscMessage {
    OscMessage { addr: addr.to_string(), args }
}

fn bytes_of(p: OscPacket) -> Vec<u8> {
    rosc::encoder::encode(&p).unwrap()
}

fn bundle(content: Vec<OscPacket>) -> OscPacket {
    OscPacket::Bundle(OscBundle { timetag: OscTime { seconds: 0, fractional: 1 }, content })
}

fn string_arg(s: &str) -> OscType {
    OscType::String(s.to_string())
}

fn topic_of(p: &Packet) -> Option<String> {
    match p {
        Packet::Subscription(t) => Some(t.clone()),
        _ => None,
    }
}

/// Feeds one datagram from `from` into the registry, allocating queue handles
/// from `next`, and returns the handles a payload message was sent to.
fn feed(reg: &mut Registry, next: &mut u64, from: &str, data: &[u8]) -> Vec<(u64, OscMessage)> {
    let mut sent = Vec::new();
    match Packet::try_from(data) {
        Ok(Packet::Subscription(t)) => {
            *next += 1;
            reg.subscribe(t, from.to_string(), *next);
        }
        Ok(Packet::Unsubscription(t)) => {
            reg.unsubscribe(&t, &from.to_string());
        }
        Ok(Packet::Normal(msgs)) => {
            for m in msgs.into_list() {
                for h in reg.publish_targets(&m.addr) {
                    sent.push((h, m.clone()));
                }
            }
        }
        Err(_) => {}
    }
    sent
}

#[test]
fn test_single_sender_single_receiver() {
    let mut reg = Registry::new();
    let mut next = 0u64;
    let subscription = bytes_of(OscPacket::Message(message("/subscribe", vec!["/a".into()])));
    feed(&mut reg, &mut next, "127.0.0.1:12000", &subscription);
    let msg = bytes_of(OscPacket::Message(message("/a", vec!["b".into()])));
    let sent = feed(&mut reg, &mut next, "127.0.0.1:12001", &msg);
    assert_eq!(sent.len(), 1);
    let wire = serialize(sent[0].1.clone());
    let (_, packet) = rosc::decoder::decode_udp(&wire).unwrap();
    let value = match packet {
        OscPacket::Message(m) => match m.args.get(0) {
            Some(OscType::String(s)) => s.to_string(),
            _ => "Received the wrong packet".to_string(),
        },
        _ => "Received the wrong packet".to_string(),
    };
    assert!(value == "b");
}

#[test]
fn subscribe_then_deliver_reaches_subscriber() {
    let mut reg = Registry::new();
    let mut next = 0u64;
    feed(&mut reg, &mut next, "A", &bytes_of(OscPacket::Message(message("/subscribe", vec![string_arg("/a")]))));
    let sent = feed(&mut reg, &mut next, "B", &bytes_of(OscPacket::Message(message("/a", vec![string_arg("hello")]))));
    assert_eq!(sent.len(), 1);
    assert_eq!(sent[0].0, 1);
    assert_eq!(sent[0].1.addr, "/a");
    assert_eq!(sent[0].1.args, vec![string_arg("hello")]);
}

#[test]
fn forwarded_message_keeps_its_arguments() {
    let args = vec![OscType::Int(7), OscType::Float(1.5), string_arg("x"), OscType::Blob(vec![1, 2, 3])];
    let m = message("/a", args.clone());
    let wire = serialize(m.clone());
    assert_eq!(wire, bytes_of(OscPacket::Message(m)));
    let (_, back) = rosc::decoder::decode_udp(&wire).unwrap();
    match back {
        OscPacket::Message(b) => {
            assert_eq!(b.addr, "/a");
            assert_eq!(b.args, args);
        }
        _ => panic!("expected a message"),
    }
}

#[test]
fn publish_without_subscribers_sends_nothing() {
    let mut reg = Registry::new();
    let mut next = 0u64;
    let sent = feed(&mut reg, &mut next, "B", &bytes_of(OscPacket::Message(message("/nobody", vec![]))));
    assert!(sent.is_empty());
    assert!(reg.publish_targets(&"/nobody".to_string()).is_empty());
}

#[test]
fn unsubscribe_stops_only_that_pair() {
    let mut reg = Registry::new();
    assert_eq!(reg.subscribe("/a".to_string(), "A".to_string(), 1), None);
    assert_eq!(reg.subscribe("/a".to_string(), "C".to_string(), 2), None);
    assert_eq!(reg.subscribe("/b".to_string(), "A".to_string(), 3), None);
    assert_eq!(reg.unsubscribe(&"/a".to_string(), &"A".to_string()), Some(1));
    assert_eq!(reg.publish_targets(&"/a".to_string()), vec![2]);
    assert_eq!(reg.publish_targets(&"/b".to_string()), vec![3]);
}

#[test]
fn subscribe_then_unsubscribe_then_deliver_sends_nothing() {
    let mut reg = Registry::new();
    let mut next = 0u64;
    feed(&mut reg, &mut next, "A", &bytes_of(OscPacket::Message(message("/subscribe", vec![string_arg("/a")]))));
    feed(&mut reg, &mut next, "A", &bytes_of(OscPacket::Message(message("/unsubscribe", vec![string_arg("/a")]))));
    let sent = feed(&mut reg, &mut next, "B", &bytes_of(OscPacket::Message(message("/a", vec![string_arg("hello")]))));
    assert!(sent.is_empty());
}

#[test]
fn unsubscribe_without_subscription_is_a_no_op() {
    let mut reg = Registry::new();
    reg.subscribe("/a".to_string(), "A".to_string(), 1);
    assert_eq!(reg.unsubscribe(&"/a".to_string(), &"Z".to_string()), None);
    assert_eq!(reg.unsubscribe(&"/q".to_string(), &"A".to_string()), None);
    assert_eq!(reg.publish_targets(&"/a".to_string()), vec![1]);
}

#[test]
fn double_subscribe_delivers_once() {
    let mut reg = Registry::new();
    let mut next = 0u64;
    let sub = bytes_of(OscPacket::Message(message("/subscribe", vec![string_arg("/a")])));
    feed(&mut reg, &mut next, "A", &sub);
    feed(&mut reg, &mut next, "A", &sub);
    let sent = feed(&mut reg, &mut next, "B", &bytes_of(OscPacket::Message(message("/a", vec![string_arg("hello")]))));
    assert_eq!(sent.len(), 1);
    assert_eq!(sent[0].0, 2);
}

#[test]
fn resubscribe_returns_superseded_handle() {
    let mut reg = Registry::new();
    assert_eq!(reg.subscribe("/a".to_string(), "A".to_string(), 5), None);
    assert_eq!(reg.subscribe("/a".to_string(), "A".to_string(), 6), Some(5));
    assert_eq!(reg.publish_targets(&"/a".to_string()), vec![6]);
}

#[test]
fn nested_bundle_flattens_in_order() {
    let inner = bundle(vec![
        OscPacket::Message(message("/b", vec![])),
        bundle(vec![OscPacket::Message(message("/c", vec![]))]),
    ]);
    let outer = bundle(vec![OscPacket::Message(message("/a", vec![])), inner, OscPacket::Message(message("/d", vec![]))]);
    match Packet::try_from(&bytes_of(outer)[..]) {
        Ok(Packet::Normal(msgs)) => {
            let addrs: Vec<String> = msgs.into_list().iter().map(|m| m.addr.clone()).collect();
            assert_eq!(addrs, vec!["/a", "/b", "/c", "/d"]);
        }
        _ => panic!("expected payload messages"),
    }
}

#[test]
fn bundle_routes_each_leaf_by_its_own_address() {
    let mut reg = Registry::new();
    reg.subscribe("/x".to_string(), "A".to_string(), 1);
    reg.subscribe("/y".to_string(), "B".to_string(), 2);
    let mut next = 10u64;
    let b = bundle(vec![
        OscPacket::Message(message("/x", vec![OscType::Int(1)])),
        bundle(vec![OscPacket::Message(message("/y", vec![OscType::Int(2)]))]),
        OscPacket::Message(message("/z", vec![OscType::Int(3)])),
    ]);
    let sent = feed(&mut reg, &mut next, "C", &bytes_of(b));
    assert_eq!(sent.len(), 2);
    assert_eq!((sent[0].0, sent[0].1.addr.as_str()), (1, "/x"));
    assert_eq!((sent[1].0, sent[1].1.addr.as_str()), (2, "/y"));
}

#[test]
fn empty_bundle_delivers_nothing() {
    match Packet::try_from(&bytes_of(bundle(vec![]))[..]) {
        Ok(Packet::Normal(msgs)) => assert!(msgs.into_list().is_empty()),
        _ => panic!("expected an empty delivery"),
    }
}

#[test]
fn control_address_inside_bundle_is_payload() {
    let b = bundle(vec![OscPacket::Message(message("/subscribe", vec![string_arg("/a")]))]);
    match Packet::try_from(&bytes_of(b)[..]) {
        Ok(Packet::Normal(msgs)) => {
            let list = msgs.into_list();
            assert_eq!(list.len(), 1);
            assert_eq!(list[0].addr, "/subscribe");
        }
        _ => panic!("expected payload messages"),
    }
}

#[test]
fn subscribe_message_classified() {
    let p = Packet::try_from(&bytes_of(OscPacket::Message(message("/subscribe", vec![string_arg("/t")])))[..]);
    assert_eq!(topic_of(&p.ok().unwrap()), Some("/t".to_string()));
    let u = Packet::try_from(&bytes_of(OscPacket::Message(message("/unsubscribe", vec![string_arg("/t")])))[..]);
    assert!(matches!(u, Ok(Packet::Unsubscription(t)) if t == "/t"));
}

#[test]
fn subscribe_without_arguments_is_malformed() {
    let mut reg = Registry::new();
    let mut next = 0u64;
    let data = bytes_of(OscPacket::Message(message("/subscribe", vec![])));
    assert!(matches!(Packet::try_from(&data[..]), Err(PacketError::MalformedSubscription)));
    feed(&mut reg, &mut next, "A", &data);
    assert_eq!(next, 0);
}

#[test]
fn subscribe_with_non_string_argument_is_malformed() {
    let data = bytes_of(OscPacket::Message(message("/subscribe", vec![OscType::Int(3)])));
    assert!(matches!(Packet::try_from(&data[..]), Err(PacketError::MalformedSubscription)));
}

#[test]
fn subscribe_with_two_arguments_is_malformed() {
    let data = bytes_of(OscPacket::Message(message("/subscribe", vec![string_arg("/a"), string_arg("/b")])));
    assert!(matches!(Packet::try_from(&data[..]), Err(PacketError::MalformedSubscription)));
}

#[test]
fn unsubscribe_with_non_string_argument_is_malformed() {
    let data = bytes_of(OscPacket::Message(message("/unsubscribe", vec![OscType::Bool(true)])));
    assert!(matches!(Packet::try_from(&data[..]), Err(PacketError::MalformedUnsubscription)));
}

#[test]
fn corrupt_bytes_are_a_decode_error() {
    assert!(matches!(Packet::try_from(&[1u8, 2, 3][..]), Err(PacketError::Decode(_))));
    assert!(matches!(Packet::try_from(&[][..]), Err(PacketError::Decode(_))));
}

#[test]
fn default_arguments() {
    let a = StartupArgs::default();
    assert_eq!(a.bind_address, "0.0.0.0");
    assert_eq!(a.udp_receive_port, 9000);
    assert_eq!(a.udp_send_port, 9001);
    assert_eq!(a.websocket_port, None);
}

