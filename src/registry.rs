//! The subscription registry: which endpoint receives which topic, and through
//! which outbound queue.
use vstd::prelude::*;

verus! {

/// One subscription as the contracts see it: topic, subscriber, queue handle.
pub type Entry = (Seq<char>, Seq<char>, u64);

/// The position of the subscription of `s` to `t` in `v`, or -1 where there is none.
pub open spec fn key_index(v: Seq<Entry>, t: Seq<char>, s: Seq<char>) -> int
    decreases v.len(),
{
    if v.len() == 0 {
        -1
    } else if v.last().0 == t && v.last().1 == s {
        v.len() - 1
    } else {
        key_index(v.drop_last(), t, s)
    }
}

/// No (topic, subscriber) pair holds more than one subscription.
pub open spec fn unique_keys(v: Seq<Entry>) -> bool {
    forall|i: int, j: int|
        0 <= i < j < v.len() ==> !(#[trigger] v[i].0 == #[trigger] v[j].0 && v[i].1 == v[j].1)
}

/// The subscribers of `t` with their queue handles, in order of subscription.
pub open spec fn targets(v: Seq<Entry>, t: Seq<char>) -> Seq<(Seq<char>, u64)>
    decreases v.len(),
{
    if v.len() == 0 {
        seq![]
    } else if v.last().0 == t {
        targets(v.drop_last(), t).push((v.last().1, v.last().2))
    } else {
        targets(v.drop_last(), t)
    }
}

/// The entries after `s` subscribed to `t` with queue `h`: a subscription of
/// the same pair is replaced in place, otherwise the new one comes last.
pub open spec fn subscribed(v: Seq<Entry>, t: Seq<char>, s: Seq<char>, h: u64) -> Seq<Entry> {
    let i = key_index(v, t, s);
    if i >= 0 {
        v.update(i, (t, s, h))
    } else {
        v.push((t, s, h))
    }
}

/// The entries after `s` unsubscribed from `t`.
pub open spec fn unsubscribed(v: Seq<Entry>, t: Seq<char>, s: Seq<char>) -> Seq<Entry> {
    let i = key_index(v, t, s);
    if i >= 0 {
        v.remove(i)
    } else {
        v
    }
}

/// The queue handle that the subscription of `s` to `t` holds, if any.
pub open spec fn handle_of(v: Seq<Entry>, t: Seq<char>, s: Seq<char>) -> Option<u64> {
    let i = key_index(v, t, s);
    if i >= 0 {
        Some(v[i].2)
    } else {
        None
    }
}

/// `key_index` is -1 or a position that holds the pair, and no later
/// position holds it.
pub proof fn lemma_key_index(v: Seq<Entry>, t: Seq<char>, s: Seq<char>)
    ensures
        -1 <= key_index(v, t, s) < v.len(),
        key_index(v, t, s) >= 0 ==> v[key_index(v, t, s)].0 == t && v[key_index(v, t, s)].1 == s,
        key_index(v, t, s) < 0 ==> forall|j: int| 0 <= j < v.len() ==> !(#[trigger] v[j].0 == t && v[j].1 == s),
    decreases v.len(),
{
    if v.len() > 0 {
        lemma_key_index(v.drop_last(), t, s);
        assert forall|j: int| 0 <= j < v.len() - 1 implies v.drop_last()[j] == #[trigger] v[j] by {}
    }
}

/// One subscription: a subscriber's endpoint and the handle of its outbound queue.
pub struct Subscription {
    pub topic: String,
    pub subscriber: String,
    pub handle: u64,
}

/// All subscriptions, each (topic, subscriber) pair at most once.
pub struct Registry {
    entries: Vec<Subscription>,
}

impl Registry {
    /// The subscriptions, in the order in which their pairs first subscribed.
    pub closed spec fn view(&self) -> Seq<Entry> {
        self.entries@.map_values(|e: Subscription| (e.topic@, e.subscriber@, e.handle))
    }

    /// Well-formed: each (topic, subscriber) pair subscribed at most once.
    pub open spec fn wf(&self) -> bool {
        unique_keys(self@)
    }

    /// An empty registry.
    pub fn new() -> (r: Registry)
        ensures
            r.wf(),
            r@ == Seq::<Entry>::empty(),
    {
        let r = Registry { entries: Vec::new() };
        assert(r@ =~= Seq::<Entry>::empty());
        r
    }

    /// The position of the pair (`t`, `s`), as `key_index` states it.
    fn find(&self, t: &String, s: &String) -> (r: Option<usize>)
        ensures
            r matches Some(i) ==> i as int == key_index(self@, t@, s@),
            r is None ==> key_index(self@, t@, s@) < 0,
    {
        let mut i: usize = self.entries.len();
        assert(self@.subrange(0, i as int) =~= self@);
        while i > 0
            invariant
                i <= self.entries.len(),
                self@.len() == self.entries.len(),
                key_index(self@, t@, s@) == key_index(self@.subrange(0, i as int), t@, s@),
            decreases i,
        {
            let e = &self.entries[i - 1];
            let ghost pre = self@.subrange(0, i as int);
            assert(pre.drop_last() =~= self@.subrange(0, i - 1));
            if e.topic == *t && e.subscriber == *s {
                return Some(i - 1);
            }
            i = i - 1;
        }
        assert(self@.subrange(0, 0) =~= Seq::<Entry>::empty());
        None
    }

    /// Subscribes `subscriber` to `topic` with the outbound queue `handle`. A
    /// subscription of the same pair is replaced, and the handle it held is
    /// returned so that its queue can be retired.
    pub fn subscribe(&mut self, topic: String, subscriber: String, handle: u64) -> (r: Option<u64>)
        requires
            old(self).wf(),
        ensures
            final(self).wf(),
            final(self)@ == subscribed(old(self)@, topic@, subscriber@, handle),
            r == handle_of(old(self)@, topic@, subscriber@),
    {
        proof {
            lemma_key_index(self@, topic@, subscriber@);
        }
        match self.find(&topic, &subscriber) {
            Some(i) => {
                let prev = self.entries[i].handle;
                let ghost t = topic@;
                let ghost sb = subscriber@;
                self.entries.set(i, Subscription { topic, subscriber, handle });
                assert(self@ =~= old(self)@.update(i as int, (t, sb, handle)));
                proof {
                    let v = old(self)@;
                    let w = self@;
                    assert forall|a: int, b: int| 0 <= a < b < w.len() implies !(#[trigger] w[a].0
                        == #[trigger] w[b].0 && w[a].1 == w[b].1) by {
                        assert(v[i as int].0 == t && v[i as int].1 == sb);
                        if a != i && b != i {
                            assert(w[a] == v[a] && w[b] == v[b]);
                        }
                    }
                }
                Some(prev)
            },
            None => {
                let ghost t = topic@;
                let ghost sb = subscriber@;
                self.entries.push(Subscription { topic, subscriber, handle });
                assert(self@ =~= old(self)@.push((t, sb, handle)));
                proof {
                    let v = old(self)@;
                    let w = self@;
                    assert forall|a: int, b: int| 0 <= a < b < w.len() implies !(#[trigger] w[a].0
                        == #[trigger] w[b].0 && w[a].1 == w[b].1) by {
                        if b < v.len() {
                            assert(w[a] == v[a] && w[b] == v[b]);
                        } else {
                            assert(w[a] == v[a]);
                            assert(!(v[a].0 == t && v[a].1 == sb));
                        }
                    }
                }
                None
            },
        }
    }

    /// Ends the subscription of `subscriber` to `topic`, if there is one, and
    /// returns the handle of the queue it held.
    pub fn unsubscribe(&mut self, topic: &String, subscriber: &String) -> (r: Option<u64>)
        requires
            old(self).wf(),
        ensures
            final(self).wf(),
            final(self)@ == unsubscribed(old(self)@, topic@, subscriber@),
            r == handle_of(old(self)@, topic@, subscriber@),
    {
        proof {
            lemma_key_index(self@, topic@, subscriber@);
        }
        match self.find(topic, subscriber) {
            Some(i) => {
                let ghost before = self.entries@;
                let gone = self.entries.remove(i);
                assert(gone == before[i as int]);
                assert(self@ =~= old(self)@.remove(i as int));
                proof {
                    let v = old(self)@;
                    let w = self@;
                    assert forall|a: int, b: int| 0 <= a < b < w.len() implies !(#[trigger] w[a].0
                        == #[trigger] w[b].0 && w[a].1 == w[b].1) by {
                        let a0 = if a < i { a } else { a + 1 };
                        let b0 = if b < i { b } else { b + 1 };
                        assert(w[a] == v[a0] && w[b] == v[b0]);
                    }
                }
                Some(gone.handle)
            },
            None => None,
        }
    }

    /// The queue handles of the subscribers of `topic`, one for each, in
    /// order of subscription: each gets its own copy of a message published
    /// there. No subscriber, no handle.
    pub fn publish_targets(&self, topic: &String) -> (r: Vec<u64>)
        ensures
            r@ == targets(self@, topic@).map_values(|p: (Seq<char>, u64)| p.1),
    {
        let mut r: Vec<u64> = Vec::new();
        let mut i: usize = 0;
        while i < self.entries.len()
            invariant
                i <= self.entries.len(),
                self@.len() == self.entries.len(),
                r@ == targets(self@.subrange(0, i as int), topic@).map_values(
                    |p: (Seq<char>, u64)| p.1,
                ),
            decreases self.entries.len() - i,
        {
            let e = &self.entries[i];
            let ghost pre = self@.subrange(0, i + 1);
            assert(pre.drop_last() =~= self@.subrange(0, i as int));
            if e.topic == *topic {
                r.push(e.handle);
            }
            assert(r@ =~= targets(pre, topic@).map_values(|p: (Seq<char>, u64)| p.1));
            i = i + 1;
        }
        assert(self@.subrange(0, i as int) =~= self@);
        r
    }
}

} // verus!
