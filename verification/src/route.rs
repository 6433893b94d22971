//! The authoritative channel registry held by the rendezvous service: a
//! mapping from channel id to the publisher's multicast port, with unique
//! ids. Registry mutations yield the `Start`/`Stop` signals that the
//! service fans out, and a new connection is greeted with a snapshot that
//! announces exactly one `Start` per registered channel.

use vstd::prelude::*;

use crate::signal::Signal;

verus! {

/// First-match lookup of a channel id in an association list.
pub open spec fn lookup(s: Seq<(u32, u16)>, id: u32) -> Option<u16>
    decreases s.len(),
{
    if s.len() == 0 {
        None
    } else if s[0].0 == id {
        Some(s[0].1)
    } else {
        lookup(s.drop_first(), id)
    }
}

/// Channel ids are unique: the list is a mapping.
pub open spec fn wf_channels(s: Seq<(u32, u16)>) -> bool {
    forall|i: int, j: int|
        0 <= i < s.len() && 0 <= j < s.len() && i != j ==> (#[trigger] s[i]).0 != (#[trigger] s[j]).0
}

/// `lookup` finds exactly the listed pairs: it yields a port iff the pair
/// stands in the list, and `None` iff the id stands nowhere.
pub proof fn lemma_lookup_index(s: Seq<(u32, u16)>, id: u32)
    ensures
        lookup(s, id) is None <==> forall|j: int| 0 <= j < s.len() ==> (#[trigger] s[j]).0 != id,
        lookup(s, id) matches Some(port) ==> exists|j: int|
            0 <= j < s.len() && #[trigger] s[j] == (id, port),
    decreases s.len(),
{
    if s.len() > 0 {
        lemma_lookup_index(s.drop_first(), id);
        if s[0].0 != id {
            assert(forall|j: int|
                0 <= j < s.drop_first().len() ==> #[trigger] s.drop_first()[j] == s[j + 1]);
            assert(forall|j: int| 1 <= j < s.len() ==> #[trigger] s[j] == s.drop_first()[j - 1]);
            if lookup(s, id) is Some {
                let port = lookup(s, id)->Some_0;
                let j = choose|j: int|
                    0 <= j < s.drop_first().len() && #[trigger] s.drop_first()[j] == (id, port);
                assert(s[j + 1] == (id, port));
            }
        }
    }
}

/// Appending a fresh pair leaves every other id's lookup alone and makes
/// the new id found.
pub proof fn lemma_lookup_push(s: Seq<(u32, u16)>, e: (u32, u16), id: u32)
    ensures
        lookup(s.push(e), id) == if lookup(s, id) is Some {
            lookup(s, id)
        } else if e.0 == id {
            Some(e.1)
        } else {
            None
        },
    decreases s.len(),
{
    if s.len() == 0 {
        assert(s.push(e)[0] == e);
        assert(s.push(e).drop_first() =~= Seq::<(u32, u16)>::empty());
        assert(lookup(Seq::<(u32, u16)>::empty(), id) is None);
        assert(lookup(s.push(e), id) == if e.0 == id {
            Some(e.1)
        } else {
            None
        });
    } else {
        lemma_lookup_push(s.drop_first(), e, id);
        assert(s.push(e)[0] == s[0]);
        assert(s.push(e).drop_first() =~= s.drop_first().push(e));
        if s[0].0 == id {
            assert(lookup(s.push(e), id) == Some(s[0].1));
            assert(lookup(s, id) == Some(s[0].1));
        } else {
            assert(lookup(s.push(e), id) == lookup(s.drop_first().push(e), id));
            assert(lookup(s, id) == lookup(s.drop_first(), id));
        }
    }
}

/// The authoritative channel registry.
pub struct Route {
    channels: Vec<(u32, u16)>,
}

impl View for Route {
    type V = Seq<(u32, u16)>;

    closed spec fn view(&self) -> Seq<(u32, u16)> {
        self.channels@
    }
}

impl Route {
    /// A registry with no channels.
    pub fn new() -> (r: Self)
        ensures
            r@.len() == 0,
            wf_channels(r@),
    {
        Route { channels: Vec::new() }
    }

    /// How many channels are registered.
    pub fn len(&self) -> (r: usize)
        ensures
            r == self@.len(),
    {
        self.channels.len()
    }

    /// Register a publisher: the entry for `id` is installed, replacing a
    /// previous one (that publisher is gone). Every other channel keeps
    /// its port. Returns the `Start` signal to fan out to every connected
    /// peer.
    pub fn set_channel(&mut self, id: u32, port: u16) -> (sig: Signal)
        requires
            wf_channels(old(self)@),
        ensures
            wf_channels(final(self)@),
            lookup(final(self)@, id) == Some(port),
            forall|x: u32| x != id ==> lookup(final(self)@, x) == lookup(old(self)@, x),
            sig == (Signal::Start { id, port }),
    {
        let mut out: Vec<(u32, u16)> = Vec::new();
        let n = self.channels.len();
        let mut i: usize = 0;
        while i < n
            invariant
                n == self.channels@.len(),
                i <= n,
                wf_channels(self.channels@),
                wf_channels(out@),
                lookup(out@, id) is None,
                forall|x: u32|
                    x != id ==> lookup(out@, x) == lookup(
                        #[trigger] self.channels@.subrange(0, i as int),
                        x,
                    ),
                forall|k: int|
                    0 <= k < out@.len() ==> exists|j: int|
                        0 <= j < i && #[trigger] out@[k] == self.channels@[j],
            decreases n - i,
        {
            let e = self.channels[i];
            let ghost pre = self.channels@.subrange(0, i as int);
            assert(self.channels@.subrange(0, i + 1) =~= pre.push(e));
            if e.0 != id {
                proof {
                    lemma_lookup_index(out@, e.0);
                    if lookup(out@, e.0) is Some {
                        let p = lookup(out@, e.0)->Some_0;
                        let k = choose|k: int|
                            0 <= k < out@.len() && #[trigger] out@[k] == (e.0, p);
                        let j = choose|j: int|
                            0 <= j < i && #[trigger] out@[k] == self.channels@[j];
                        assert(self.channels@[j].0 == self.channels@[i as int].0);
                        assert(false);
                    }
                    assert forall|x: u32| x != id implies lookup(out@.push(e), x) == lookup(
                        pre.push(e),
                        x,
                    ) by {
                        lemma_lookup_push(out@, e, x);
                        lemma_lookup_push(pre, e, x);
                    }
                    lemma_lookup_push(out@, e, id);
                }
                out.push(e);
            } else {
                proof {
                    assert forall|x: u32| x != id implies lookup(pre.push(e), x) == lookup(
                        pre,
                        x,
                    ) by {
                        lemma_lookup_push(pre, e, x);
                    }
                }
            }
            i = i + 1;
        }
        assert(self.channels@.subrange(0, n as int) =~= self.channels@);
        proof {
            assert forall|x: u32| x != id implies lookup(out@.push((id, port)), x) == lookup(
                old(self)@,
                x,
            ) by {
                lemma_lookup_push(out@, (id, port), x);
            }
            lemma_lookup_push(out@, (id, port), id);
            lemma_lookup_index(out@, id);
            assert(forall|j: int| 0 <= j < out@.len() ==> (#[trigger] out@[j]).0 != id);
        }
        out.push((id, port));
        self.channels = out;
        Signal::Start { id, port }
    }

    /// Unregister a channel: afterwards `id` maps to nothing and every
    /// other channel keeps its port. Returns the `Stop` signal to fan out
    /// if the channel was registered, `None` if there was nothing to stop.
    pub fn remove_channel(&mut self, id: u32) -> (sig: Option<Signal>)
        requires
            wf_channels(old(self)@),
        ensures
            wf_channels(final(self)@),
            lookup(final(self)@, id) is None,
            forall|x: u32| x != id ==> lookup(final(self)@, x) == lookup(old(self)@, x),
            sig == if lookup(old(self)@, id) is Some {
                Some(Signal::Stop { id })
            } else {
                None::<Signal>
            },
    {
        let mut out: Vec<(u32, u16)> = Vec::new();
        let mut found = false;
        let n = self.channels.len();
        let mut i: usize = 0;
        while i < n
            invariant
                n == self.channels@.len(),
                i <= n,
                wf_channels(self.channels@),
                wf_channels(out@),
                lookup(out@, id) is None,
                found == (lookup(self.channels@.subrange(0, i as int), id) is Some),
                forall|x: u32|
                    x != id ==> lookup(out@, x) == lookup(
                        #[trigger] self.channels@.subrange(0, i as int),
                        x,
                    ),
                forall|k: int|
                    0 <= k < out@.len() ==> exists|j: int|
                        0 <= j < i && #[trigger] out@[k] == self.channels@[j],
            decreases n - i,
        {
            let e = self.channels[i];
            let ghost pre = self.channels@.subrange(0, i as int);
            assert(self.channels@.subrange(0, i + 1) =~= pre.push(e));
            proof {
                lemma_lookup_push(pre, e, id);
            }
            if e.0 != id {
                proof {
                    lemma_lookup_index(out@, e.0);
                    if lookup(out@, e.0) is Some {
                        let p = lookup(out@, e.0)->Some_0;
                        let k = choose|k: int|
                            0 <= k < out@.len() && #[trigger] out@[k] == (e.0, p);
                        let j = choose|j: int|
                            0 <= j < i && #[trigger] out@[k] == self.channels@[j];
                        assert(self.channels@[j].0 == self.channels@[i as int].0);
                        assert(false);
                    }
                    assert forall|x: u32| x != id implies lookup(out@.push(e), x) == lookup(
                        pre.push(e),
                        x,
                    ) by {
                        lemma_lookup_push(out@, e, x);
                        lemma_lookup_push(pre, e, x);
                    }
                    lemma_lookup_push(out@, e, id);
                }
                out.push(e);
            } else {
                found = true;
                proof {
                    assert forall|x: u32| x != id implies lookup(pre.push(e), x) == lookup(
                        pre,
                        x,
                    ) by {
                        lemma_lookup_push(pre, e, x);
                    }
                }
            }
            i = i + 1;
        }
        assert(self.channels@.subrange(0, n as int) =~= self.channels@);
        self.channels = out;
        if found {
            Some(Signal::Stop { id })
        } else {
            None
        }
    }

    /// A copy of the registry contents: one `(id, port)` pair per
    /// registered channel.
    pub fn get_channels(&self) -> (r: Vec<(u32, u16)>)
        ensures
            r@ == self@,
    {
        let mut out: Vec<(u32, u16)> = Vec::new();
        let n = self.channels.len();
        let mut i: usize = 0;
        while i < n
            invariant
                n == self.channels@.len(),
                i <= n,
                out@ == self.channels@.subrange(0, i as int),
            decreases n - i,
        {
            out.push(self.channels[i]);
            i = i + 1;
            assert(out@ =~= self.channels@.subrange(0, i as int));
        }
        assert(self.channels@.subrange(0, n as int) =~= self.channels@);
        out
    }

    /// The greeting for a freshly accepted connection: one `Start` per
    /// registered channel, in registry order.
    pub fn snapshot(&self) -> (r: Vec<Signal>)
        ensures
            r@ == snapshot_spec(self@),
    {
        let mut out: Vec<Signal> = Vec::new();
        let n = self.channels.len();
        let mut i: usize = 0;
        while i < n
            invariant
                n == self.channels@.len(),
                i <= n,
                out@ == snapshot_spec(self.channels@).subrange(0, i as int),
            decreases n - i,
        {
            let e = self.channels[i];
            out.push(Signal::Start { id: e.0, port: e.1 });
            i = i + 1;
            assert(out@ =~= snapshot_spec(self.channels@).subrange(0, i as int));
        }
        assert(snapshot_spec(self.channels@).subrange(0, n as int) =~= snapshot_spec(
            self.channels@,
        ));
        out
    }

    /// Look up the multicast port of a channel.
    pub fn get_channel(&self, id: u32) -> (r: Option<u16>)
        ensures
            r == lookup(self@, id),
    {
        let n = self.channels.len();
        let mut i: usize = 0;
        assert(self.channels@.skip(0) =~= self.channels@);
        while i < n
            invariant
                n == self.channels@.len(),
                i <= n,
                lookup(self.channels@, id) == lookup(self.channels@.skip(i as int), id),
                forall|j: int| 0 <= j < i ==> (#[trigger] self.channels@[j]).0 != id,
            decreases n - i,
        {
            let e = self.channels[i];
            proof {
                assert(self.channels@.skip(i as int)[0] == e);
                assert(self.channels@.skip(i as int).drop_first() =~= self.channels@.skip(i + 1));
            }
            if e.0 == id {
                return Some(e.1);
            }
            i = i + 1;
        }
        assert(self.channels@.skip(n as int) =~= Seq::<(u32, u16)>::empty());
        None
    }
}

/// The per-connection change streams of the rendezvous: every registry
/// mutation is appended to every live feed, so each connection sees the
/// mutations after its snapshot in exactly the order the registry
/// observed them.
pub struct ChangeFeeds {
    feeds: Vec<Vec<Signal>>,
}

impl View for ChangeFeeds {
    type V = Seq<Seq<Signal>>;

    closed spec fn view(&self) -> Seq<Seq<Signal>> {
        self.feeds@.map_values(|f: Vec<Signal>| f@)
    }
}

/// Every feed after one broadcast: the signal appended at the back.
pub open spec fn broadcast_spec(feeds: Seq<Seq<Signal>>, signal: Signal) -> Seq<Seq<Signal>> {
    feeds.map_values(|f: Seq<Signal>| f.push(signal))
}

impl ChangeFeeds {
    /// No connections yet.
    pub fn new() -> (r: Self)
        ensures
            r@.len() == 0,
    {
        let r = ChangeFeeds { feeds: Vec::new() };
        proof {
            assert(r@ =~= Seq::<Seq<Signal>>::empty());
        }
        r
    }

    /// A new connection subscribes right after taking its snapshot: it
    /// gets the next free feed slot, initially empty.
    pub fn subscribe(&mut self) -> (w: usize)
        ensures
            w == old(self)@.len(),
            final(self)@ == old(self)@.push(Seq::<Signal>::empty()),
    {
        let w = self.feeds.len();
        let ghost pre = self@;
        self.feeds.push(Vec::new());
        proof {
            assert(self@ =~= pre.push(Seq::<Signal>::empty()));
        }
        w
    }

    /// Fan one registry mutation out: appended to every feed, so no
    /// connection misses it and none sees it out of order.
    pub fn broadcast(&mut self, signal: Signal)
        ensures
            final(self)@ == broadcast_spec(old(self)@, signal),
    {
        let n = self.feeds.len();
        let mut i: usize = 0;
        while i < n
            invariant
                n == self.feeds@.len(),
                i <= n,
                old(self).feeds@.len() == n,
                forall|w: int|
                    0 <= w < i ==> (#[trigger] self.feeds@[w])@ == old(self).feeds@[w]@.push(
                        signal,
                    ),
                forall|w: int| i <= w < n ==> #[trigger] self.feeds@[w] == old(self).feeds@[w],
            decreases n - i,
        {
            let ghost pre = self.feeds@;
            let feed = &mut self.feeds[i];
            feed.push(signal);
            proof {
                assert(self.feeds@ =~= pre.update(i as int, self.feeds@[i as int]));
            }
            i = i + 1;
        }
        proof {
            assert forall|w: int| 0 <= w < n implies self@[w] == broadcast_spec(
                old(self)@,
                signal,
            )[w] by {
                assert(self@[w] == self.feeds@[w]@);
                assert(old(self)@[w] == old(self).feeds@[w]@);
            }
            assert(self@ =~= broadcast_spec(old(self)@, signal));
        }
    }

    /// Take the next pending signal of one connection's feed, in arrival
    /// order; `None` when the feed is drained.
    pub fn take(&mut self, w: usize) -> (r: Option<Signal>)
        requires
            w < old(self)@.len(),
        ensures
            final(self)@.len() == old(self)@.len(),
            forall|v: int| 0 <= v < old(self)@.len() && v != w ==> final(self)@[v] == old(self)@[v],
            old(self)@[w as int].len() == 0 ==> r is None && final(self)@[w as int] == old(self)@[w as int],
            old(self)@[w as int].len() > 0 ==> r == Some(old(self)@[w as int][0]) && final(self)@[w as int] == old(self)@[w as int].drop_first(),
    {
        let feed = &mut self.feeds[w];
        if feed.len() == 0 {
            proof {
                assert(self@ =~= old(self)@);
            }
            return None;
        }
        let signal = feed.remove(0);
        proof {
            assert(self@[w as int] =~= old(self)@[w as int].drop_first());
        }
        Some(signal)
    }
}

/// Broadcast order is arrival order: after two registry mutations, every
/// feed that was live for both holds them back to back, first mutation
/// first; a connection draining its feed therefore observes every
/// mutation after its snapshot in the order the registry observed them.
pub proof fn lemma_broadcast_order(feeds: Seq<Seq<Signal>>, first: Signal, second: Signal)
    ensures
        forall|w: int|
            0 <= w < feeds.len() ==> broadcast_spec(broadcast_spec(feeds, first), second)[w]
                == feeds[w] + seq![first, second],
{
    assert forall|w: int|
        0 <= w < feeds.len() implies broadcast_spec(broadcast_spec(feeds, first), second)[w]
        == feeds[w] + seq![first, second] by {
        assert(feeds[w].push(first).push(second) =~= feeds[w] + seq![first, second]);
    }
}

/// The signals a snapshot announces: one `Start` per registry entry, in
/// registry order.
pub open spec fn snapshot_spec(s: Seq<(u32, u16)>) -> Seq<Signal> {
    s.map_values(|e: (u32, u16)| Signal::Start { id: e.0, port: e.1 })
}

/// Registry snapshot completeness: a connection greeted from registry
/// state `s` observes exactly one `Start` per registered channel — every
/// registered `(id, port)` is announced, every announcement is of a
/// registered channel, and no id is announced twice. (Mutations after the
/// snapshot reach the connection in arrival order through its FIFO feed.)
pub proof fn lemma_snapshot_completeness(s: Seq<(u32, u16)>)
    requires
        wf_channels(s),
    ensures
        snapshot_spec(s).len() == s.len(),
        forall|id: u32, port: u16|
            lookup(s, id) == Some(port) ==> exists|i: int|
                0 <= i < s.len() && #[trigger] snapshot_spec(s)[i] == (Signal::Start { id, port }),
        forall|i: int|
            0 <= i < s.len() ==> lookup(s, (#[trigger] s[i]).0) == Some(s[i].1) && snapshot_spec(
                s,
            )[i] == (Signal::Start { id: s[i].0, port: s[i].1 }),
        forall|i: int, j: int|
            0 <= i < s.len() && 0 <= j < s.len() && i != j ==> (#[trigger] snapshot_spec(s)[i])->Start_id
                != (#[trigger] snapshot_spec(s)[j])->Start_id,
{
    assert forall|id: u32, port: u16| lookup(s, id) == Some(port) implies exists|i: int|
        0 <= i < s.len() && #[trigger] snapshot_spec(s)[i] == (Signal::Start { id, port }) by {
        lemma_lookup_index(s, id);
        let j = choose|j: int| 0 <= j < s.len() && #[trigger] s[j] == (id, port);
        assert(snapshot_spec(s)[j] == (Signal::Start { id, port }));
    }
    assert forall|i: int| 0 <= i < s.len() implies lookup(s, (#[trigger] s[i]).0) == Some(
        s[i].1,
    ) by {
        lemma_lookup_found(s, i);
    }
}

/// In a well-formed registry, lookup of the id at any index finds exactly
/// that index's port.
pub proof fn lemma_lookup_found(s: Seq<(u32, u16)>, i: int)
    requires
        wf_channels(s),
        0 <= i < s.len(),
    ensures
        lookup(s, s[i].0) == Some(s[i].1),
    decreases s.len(),
{
    if i == 0 {
    } else {
        assert(s[0].0 != s[i].0);
        assert(wf_channels(s.drop_first())) by {
            assert(forall|k: int|
                0 <= k < s.drop_first().len() ==> #[trigger] s.drop_first()[k] == s[k + 1]);
        }
        lemma_lookup_found(s.drop_first(), i - 1);
        assert(s.drop_first()[i - 1] == s[i]);
    }
}

} // verus!
