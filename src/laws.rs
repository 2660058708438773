//! Properties that relate several operations of the relay, proved over the
//! views that the operations' own contracts use.
use vstd::prelude::*;
use crate::registry::{Entry, key_index, lemma_key_index, subscribed, targets, unique_keys, unsubscribed};
use crate::packet::{command_of, control_topic, leaves, leaves_of_all, Command, subscribe_addr, unsubscribe_addr};
use rosc::{OscBundle, OscMessage, OscPacket};

verus! {

/// How many subscriptions in `v` pair subscriber `s` with topic `t`.
pub open spec fn count(v: Seq<Entry>, t: Seq<char>, s: Seq<char>) -> nat
    decreases v.len(),
{
    if v.len() == 0 {
        0
    } else {
        count(v.drop_last(), t, s) + if v.last().0 == t && v.last().1 == s {
            1nat
        } else {
            0nat
        }
    }
}

/// How many of the copies in `d` go to subscriber `s`.
pub open spec fn copies(d: Seq<(Seq<char>, u64)>, s: Seq<char>) -> nat
    decreases d.len(),
{
    if d.len() == 0 {
        0
    } else {
        copies(d.drop_last(), s) + if d.last().0 == s {
            1nat
        } else {
            0nat
        }
    }
}

/// The copies that a message published to `t` sends to `s`, in the registry `v`.
pub open spec fn delivered(v: Seq<Entry>, t: Seq<char>, s: Seq<char>) -> nat {
    copies(targets(v, t), s)
}

proof fn lemma_copies_count(v: Seq<Entry>, t: Seq<char>, s: Seq<char>)
    ensures
        delivered(v, t, s) == count(v, t, s),
    decreases v.len(),
{
    if v.len() > 0 {
        lemma_copies_count(v.drop_last(), t, s);
        let d = targets(v.drop_last(), t);
        if v.last().0 == t {
            assert(d.push((v.last().1, v.last().2)).drop_last() =~= d);
        }
    }
}

proof fn lemma_count_update(v: Seq<Entry>, i: int, e: Entry, t: Seq<char>, s: Seq<char>)
    requires
        0 <= i < v.len(),
    ensures
        count(v.update(i, e), t, s) + (if v[i].0 == t && v[i].1 == s { 1nat } else { 0nat })
            == count(v, t, s) + (if e.0 == t && e.1 == s { 1nat } else { 0nat }),
    decreases v.len(),
{
    let w = v.update(i, e);
    if i == v.len() - 1 {
        assert(w.drop_last() =~= v.drop_last());
    } else {
        lemma_count_update(v.drop_last(), i, e, t, s);
        assert(w.drop_last() =~= v.drop_last().update(i, e));
    }
}

proof fn lemma_count_remove(v: Seq<Entry>, i: int, t: Seq<char>, s: Seq<char>)
    requires
        0 <= i < v.len(),
    ensures
        count(v.remove(i), t, s) + (if v[i].0 == t && v[i].1 == s { 1nat } else { 0nat })
            == count(v, t, s),
    decreases v.len(),
{
    let w = v.remove(i);
    if i == v.len() - 1 {
        assert(w =~= v.drop_last());
    } else {
        lemma_count_remove(v.drop_last(), i, t, s);
        assert(w.drop_last() =~= v.drop_last().remove(i));
    }
}

proof fn lemma_count_push(v: Seq<Entry>, e: Entry, t: Seq<char>, s: Seq<char>)
    ensures
        count(v.push(e), t, s) == count(v, t, s) + (if e.0 == t && e.1 == s { 1nat } else { 0nat }),
{
    assert(v.push(e).drop_last() =~= v);
}

proof fn lemma_count_by_index(v: Seq<Entry>, t: Seq<char>, s: Seq<char>)
    requires
        unique_keys(v),
    ensures
        count(v, t, s) == if key_index(v, t, s) >= 0 { 1nat } else { 0nat },
    decreases v.len(),
{
    if v.len() > 0 {
        let u = v.drop_last();
        assert(unique_keys(u)) by {
            assert forall|a: int, b: int| 0 <= a < b < u.len() implies !(#[trigger] u[a].0
                == #[trigger] u[b].0 && u[a].1 == u[b].1) by {
                assert(u[a] == v[a] && u[b] == v[b]);
            }
        }
        lemma_count_by_index(u, t, s);
        lemma_key_index(u, t, s);
        if v.last().0 == t && v.last().1 == s {
            let k = key_index(u, t, s);
            if k >= 0 {
                assert(u[k] == v[k]);
                assert(v[k].0 == v[v.len() - 1].0);
            }
        }
    }
}

proof fn lemma_targets_contain(v: Seq<Entry>, i: int, t: Seq<char>)
    requires
        0 <= i < v.len(),
        v[i].0 == t,
    ensures
        targets(v, t).contains((v[i].1, v[i].2)),
    decreases v.len(),
{
    let d = targets(v.drop_last(), t);
    if i == v.len() - 1 {
        assert(targets(v, t)[d.len() as int] == (v[i].1, v[i].2));
    } else {
        lemma_targets_contain(v.drop_last(), i, t);
        assert(v.drop_last()[i] == v[i]);
        let j = choose|j: int| 0 <= j < d.len() && d[j] == (v[i].1, v[i].2);
        if v.last().0 == t {
            assert(targets(v, t)[j] == d[j]);
        }
    }
}

/// After `s` subscribes to `t` with queue `h`, a message published to `t`
/// reaches `s` through `h`, exactly once; what any other pair receives is
/// unchanged.
pub proof fn law_subscribe_delivers(v: Seq<Entry>, t: Seq<char>, s: Seq<char>, h: u64)
    requires
        unique_keys(v),
    ensures
        targets(subscribed(v, t, s, h), t).contains((s, h)),
        delivered(subscribed(v, t, s, h), t, s) == 1,
        forall|t2: Seq<char>, s2: Seq<char>|
            !(t2 == t && s2 == s) ==> #[trigger] delivered(subscribed(v, t, s, h), t2, s2)
                == delivered(v, t2, s2),
{
    let w = subscribed(v, t, s, h);
    let i = key_index(v, t, s);
    lemma_key_index(v, t, s);
    lemma_count_by_index(v, t, s);
    lemma_copies_count(w, t, s);
    if i >= 0 {
        lemma_count_update(v, i, (t, s, h), t, s);
        lemma_targets_contain(w, i, t);
    } else {
        lemma_count_push(v, (t, s, h), t, s);
        lemma_targets_contain(w, v.len() as int, t);
    }
    assert forall|t2: Seq<char>, s2: Seq<char>|
        !(t2 == t && s2 == s) implies #[trigger] delivered(w, t2, s2) == delivered(v, t2, s2) by {
        lemma_copies_count(w, t2, s2);
        lemma_copies_count(v, t2, s2);
        if i >= 0 {
            lemma_count_update(v, i, (t, s, h), t2, s2);
        } else {
            lemma_count_push(v, (t, s, h), t2, s2);
        }
    }
}

/// After `s` unsubscribes from `t`, a message published to `t` no longer
/// reaches `s`; what any other pair receives is unchanged.
pub proof fn law_unsubscribe_stops(v: Seq<Entry>, t: Seq<char>, s: Seq<char>)
    requires
        unique_keys(v),
    ensures
        delivered(unsubscribed(v, t, s), t, s) == 0,
        forall|t2: Seq<char>, s2: Seq<char>|
            !(t2 == t && s2 == s) ==> #[trigger] delivered(unsubscribed(v, t, s), t2, s2)
                == delivered(v, t2, s2),
{
    let w = unsubscribed(v, t, s);
    let i = key_index(v, t, s);
    lemma_key_index(v, t, s);
    lemma_count_by_index(v, t, s);
    lemma_copies_count(w, t, s);
    if i >= 0 {
        lemma_count_remove(v, i, t, s);
    }
    assert forall|t2: Seq<char>, s2: Seq<char>|
        !(t2 == t && s2 == s) implies #[trigger] delivered(w, t2, s2) == delivered(v, t2, s2) by {
        lemma_copies_count(w, t2, s2);
        lemma_copies_count(v, t2, s2);
        if i >= 0 {
            lemma_count_remove(v, i, t2, s2);
        }
    }
}

proof fn lemma_count_none(v: Seq<Entry>, t: Seq<char>, s: Seq<char>)
    requires
        key_index(v, t, s) < 0,
    ensures
        count(v, t, s) == 0,
    decreases v.len(),
{
    if v.len() > 0 {
        lemma_count_none(v.drop_last(), t, s);
    }
}

/// Subscribing the same pair twice leaves one subscription, with the later
/// queue: a message published to the topic reaches the subscriber once.
pub proof fn law_resubscribe_once(v: Seq<Entry>, t: Seq<char>, s: Seq<char>, h1: u64, h2: u64)
    requires
        unique_keys(v),
    ensures
        delivered(subscribed(subscribed(v, t, s, h1), t, s, h2), t, s) == 1,
        targets(subscribed(subscribed(v, t, s, h1), t, s, h2), t).contains((s, h2)),
{
    let w1 = subscribed(v, t, s, h1);
    let w2 = subscribed(w1, t, s, h2);
    law_subscribe_delivers(v, t, s, h1);
    lemma_copies_count(w1, t, s);
    lemma_copies_count(w2, t, s);
    if key_index(w1, t, s) < 0 {
        lemma_count_none(w1, t, s);
    }
    let i = key_index(w1, t, s);
    lemma_key_index(w1, t, s);
    lemma_count_update(w1, i, (t, s, h2), t, s);
    lemma_targets_contain(w2, i, t);
}

/// A subscription followed by its unsubscription: a message published to the
/// topic no longer reaches the subscriber.
pub proof fn law_subscribe_then_unsubscribe(v: Seq<Entry>, t: Seq<char>, s: Seq<char>, h: u64)
    requires
        unique_keys(v),
    ensures
        delivered(unsubscribed(subscribed(v, t, s, h), t, s), t, s) == 0,
{
    let w1 = subscribed(v, t, s, h);
    let w2 = unsubscribed(w1, t, s);
    law_subscribe_delivers(v, t, s, h);
    lemma_copies_count(w1, t, s);
    lemma_copies_count(w2, t, s);
    if key_index(w1, t, s) < 0 {
        lemma_count_none(w1, t, s);
    }
    let i = key_index(w1, t, s);
    lemma_key_index(w1, t, s);
    lemma_count_remove(w1, i, t, s);
}

/// A topic that nobody subscribed to has no targets: publishing there sends nothing.
pub proof fn law_no_subscribers(v: Seq<Entry>, t: Seq<char>)
    requires
        forall|i: int| 0 <= i < v.len() ==> (#[trigger] v[i]).0 != t,
    ensures
        targets(v, t) == Seq::<(Seq<char>, u64)>::empty(),
    decreases v.len(),
{
    if v.len() > 0 {
        let u = v.drop_last();
        assert forall|i: int| 0 <= i < u.len() implies (#[trigger] u[i]).0 != t by {
            assert(u[i] == v[i]);
        }
        law_no_subscribers(u, t);
    }
}

/// The number of messages in a packet, bundles of any depth included.
pub open spec fn leaf_count(p: OscPacket) -> nat
    decreases p,
{
    match p {
        OscPacket::Message(_) => 1,
        OscPacket::Bundle(b) => leaf_count_of_all(b.content@),
    }
}

/// The number of messages in a sequence of packets.
pub open spec fn leaf_count_of_all(ps: Seq<OscPacket>) -> nat
    decreases ps,
{
    if ps.len() == 0 {
        0
    } else {
        leaf_count(ps[0]) + leaf_count_of_all(ps.subrange(1, ps.len() as int))
    }
}

proof fn lemma_leaves_len(p: OscPacket)
    ensures
        leaves(p).len() == leaf_count(p),
    decreases p,
{
    match p {
        OscPacket::Message(_) => {},
        OscPacket::Bundle(b) => {
            lemma_leaves_len_all(b.content@);
        },
    }
}

proof fn lemma_leaves_len_all(ps: Seq<OscPacket>)
    ensures
        leaves_of_all(ps).len() == leaf_count_of_all(ps),
    decreases ps,
{
    if ps.len() > 0 {
        lemma_leaves_len(ps[0]);
        lemma_leaves_len_all(ps.subrange(1, ps.len() as int));
    }
}

/// A bundle is always delivered, never a subscription change, however its
/// messages are addressed: its command holds one message for each message in
/// it at any depth, each to be routed by its own address.
pub proof fn law_bundle_delivers_each_leaf(b: OscBundle)
    ensures
        command_of(OscPacket::Bundle(b)) == Some(Command::Deliver(leaves(OscPacket::Bundle(b)))),
        leaves(OscPacket::Bundle(b)).len() == leaf_count(OscPacket::Bundle(b)),
{
    lemma_leaves_len(OscPacket::Bundle(b));
}

/// A standalone message at a control address without exactly one string
/// argument is no command: it changes no subscription.
pub proof fn law_malformed_control_rejected(m: OscMessage)
    requires
        m.addr@ == subscribe_addr() || m.addr@ == unsubscribe_addr(),
        control_topic(m) is None,
    ensures
        command_of(OscPacket::Message(m)) is None,
{
}

} // verus!
