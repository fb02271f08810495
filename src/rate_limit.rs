use vstd::prelude::*;

verus! {

/// The admission timestamps of `h` still inside the window ending at `now`:
/// those not older than `now - window`.
pub open spec fn recent(h: Seq<u64>, now: u64, window: u64) -> Seq<u64>
    decreases h.len(),
{
    if h.len() == 0 {
        h
    } else {
        let rest = recent(h.drop_last(), now, window);
        if now <= h.last() + window {
            rest.push(h.last())
        } else {
            rest
        }
    }
}

/// One admission decision on a client's history `h`: the decision, and the
/// history afterwards.
pub open spec fn admit_step(h: Seq<u64>, now: u64, max_requests: usize, window: u64) -> (bool, Seq<
    u64,
>) {
    let kept = recent(h, now, window);
    if kept.len() < max_requests {
        (true, kept.push(now))
    } else {
        (false, kept)
    }
}

/// How many stamps of `h` fall in the window `[lo, lo + window]`.
pub open spec fn count_in(h: Seq<u64>, lo: int, window: u64) -> nat
    decreases h.len(),
{
    if h.len() == 0 {
        0
    } else {
        count_in(h.drop_last(), lo, window) + if lo <= h.last() && h.last() <= lo + window {
            1nat
        } else {
            0nat
        }
    }
}

/// No window of length `window` holds more than `max_requests` stamps of `h`.
pub open spec fn bounded(h: Seq<u64>, max_requests: usize, window: u64) -> bool {
    forall|lo: int| #[trigger] count_in(h, lo, window) <= max_requests
}

/// The recent request timestamps of one client.
struct ClientWindow {
    client_id: String,
    stamps: Vec<u64>,
}

/// A sliding-window admission gate, keyed by client identity.
///
/// Each client may be admitted at most `max_requests` times within any
/// `window` milliseconds.
pub struct RateLimiter {
    clients: Vec<ClientWindow>,
    max_requests: usize,
    window: u64,
}

/// No two windows belong to the same client.
spec fn clients_unique(s: Seq<ClientWindow>) -> bool {
    forall|i: int, j: int|
        0 <= i < s.len() && 0 <= j < s.len() && i != j ==> (#[trigger] s[i]).client_id@ != (
        #[trigger] s[j]).client_id@
}

spec fn has_client(s: Seq<ClientWindow>, c: Seq<char>) -> bool {
    exists|i: int| 0 <= i < s.len() && (#[trigger] s[i]).client_id@ == c
}

spec fn client_position(s: Seq<ClientWindow>, c: Seq<char>) -> int {
    choose|i: int| 0 <= i < s.len() && (#[trigger] s[i]).client_id@ == c
}

proof fn lemma_client_at(s: Seq<ClientWindow>, k: int)
    requires
        clients_unique(s),
        0 <= k < s.len(),
    ensures
        has_client(s, s[k].client_id@),
        client_position(s, s[k].client_id@) == k,
{
    let c = s[k].client_id@;
    assert(has_client(s, c));
    let j = client_position(s, c);
    assert(s[j].client_id@ == c);
}

impl RateLimiter {
    /// The store's invariant: one window per client.
    pub closed spec fn wf(&self) -> bool {
        &&& clients_unique(self.clients@)
        &&& forall|i: int|
            0 <= i < self.clients@.len() ==> bounded(
                #[trigger] self.clients@[i].stamps@,
                self.max_requests,
                self.window,
            )
    }

    /// The admitted-request timestamps recorded for `client`.
    pub closed spec fn history(&self, client: Seq<char>) -> Seq<u64> {
        if has_client(self.clients@, client) {
            self.clients@[client_position(self.clients@, client)].stamps@
        } else {
            Seq::empty()
        }
    }

    pub closed spec fn limit(&self) -> usize {
        self.max_requests
    }

    pub closed spec fn window_length(&self) -> u64 {
        self.window
    }

    /// A gate admitting `max_requests` requests per client within any
    /// `window` milliseconds.
    pub fn new(max_requests: usize, window: u64) -> (r: RateLimiter)
        ensures
            r.wf(),
            r.limit() == max_requests,
            r.window_length() == window,
            forall|c: Seq<char>| r.history(c) == Seq::<u64>::empty(),
    {
        RateLimiter { clients: Vec::new(), max_requests, window }
    }

    pub fn max_requests(&self) -> (r: usize)
        ensures
            r == self.limit(),
    {
        self.max_requests
    }

    pub fn window(&self) -> (r: u64)
        ensures
            r == self.window_length(),
    {
        self.window
    }

    fn index_of(&self, client: &String) -> (r: Option<usize>)
        requires
            self.wf(),
        ensures
            match r {
                Some(k) => k < self.clients@.len() && self.clients@[k as int].client_id@
                    == client@ && client_position(self.clients@, client@) == k,
                None => !has_client(self.clients@, client@),
            },
    {
        let mut i: usize = 0;
        while i < self.clients.len()
            invariant
                self.wf(),
                i <= self.clients@.len(),
                forall|j: int|
                    0 <= j < i ==> (#[trigger] self.clients@[j]).client_id@ != client@,
            decreases self.clients@.len() - i,
        {
            if self.clients[i].client_id.eq(client) {
                proof {
                    lemma_client_at(self.clients@, i as int);
                }
                return Some(i);
            }
            i = i + 1;
        }
        None
    }

    /// Decides one request of `client` at `now` (milliseconds).
    ///
    /// Forgets the client's timestamps older than `now - window`, then admits
    /// (records `now` and answers `true`) only if fewer than `max_requests`
    /// remain; otherwise answers `false` and records nothing.
    pub fn check_rate_limit(&mut self, client: &String, now: u64) -> (r: bool)
        requires
            old(self).wf(),
        ensures
            final(self).wf(),
            final(self).limit() == old(self).limit(),
            final(self).window_length() == old(self).window_length(),
            (r, final(self).history(client@)) == admit_step(
                old(self).history(client@),
                now,
                old(self).limit(),
                old(self).window_length(),
            ),
            forall|d: Seq<char>| d != client@ ==> final(self).history(d) == old(self).history(d),
    {
        let k = match self.index_of(client) {
            Some(k) => k,
            None => {
                let ghost before = self.clients@;
                self.clients.push(ClientWindow { client_id: client.clone(), stamps: Vec::new() });
                proof {
                    assert forall|i: int, j: int|
                        0 <= i < self.clients@.len() && 0 <= j < self.clients@.len() && i
                            != j implies (#[trigger] self.clients@[i]).client_id@ != (
                    #[trigger] self.clients@[j]).client_id@ by {
                        if i < before.len() && j < before.len() {
                        } else if i < before.len() {
                            assert(!has_client(before, client@));
                            assert(self.clients@[i] == before[i]);
                        } else if j < before.len() {
                            assert(self.clients@[j] == before[j]);
                        }
                    }
                    lemma_client_at(self.clients@, before.len() as int);
                    assert forall|i: int| 0 <= i < self.clients@.len() implies bounded(
                        #[trigger] self.clients@[i].stamps@,
                        self.max_requests,
                        self.window,
                    ) by {
                        if i < before.len() {
                            assert(self.clients@[i] == before[i]);
                        } else {
                            assert(self.clients@[i].stamps@ =~= Seq::<u64>::empty());
                        }
                    }
                    assert forall|d: Seq<char>| d != client@ implies has_client(
                        self.clients@,
                        d,
                    ) == has_client(before, d) by {
                        if has_client(self.clients@, d) {
                            let i = choose|i: int|
                                0 <= i < self.clients@.len() && (
                                #[trigger] self.clients@[i]).client_id@ == d;
                            assert(i < before.len());
                            assert(self.clients@[i] == before[i]);
                        }
                        if has_client(before, d) {
                            let i = choose|i: int|
                                0 <= i < before.len() && (#[trigger] before[i]).client_id@ == d;
                            assert(self.clients@[i] == before[i]);
                        }
                    }
                    assert forall|d: Seq<char>| d != client@ && has_client(before, d) implies (
                    #[trigger] client_position(self.clients@, d)) == client_position(before, d) by {
                        let p = client_position(before, d);
                        lemma_client_at(before, p);
                        assert(self.clients@[p] == before[p]);
                        lemma_client_at(self.clients@, p);
                    }
                }
                self.clients.len() - 1
            },
        };
        let ghost h = self.clients@[k as int].stamps@;
        let mut kept: Vec<u64> = Vec::new();
        let mut i: usize = 0;
        while i < self.clients[k].stamps.len()
            invariant
                k < self.clients@.len(),
                h == self.clients@[k as int].stamps@,
                i <= h.len(),
                kept@ == recent(h.take(i as int), now, self.window),
            decreases h.len() - i,
        {
            proof {
                assert(h.take(i + 1).drop_last() =~= h.take(i as int));
            }
            let t = self.clients[k].stamps[i];
            if t >= now || now - t <= self.window {
                kept.push(t);
            }
            i = i + 1;
        }
        proof {
            assert(h.take(i as int) =~= h);
        }
        let admitted = kept.len() < self.max_requests;
        if admitted {
            kept.push(now);
        }
        let ghost before = self.clients@;
        proof {
            lemma_step_keeps_bound(h, now, self.max_requests, self.window);
        }
        let id = self.clients[k].client_id.clone();
        self.clients.set(k, ClientWindow { client_id: id, stamps: kept });
        proof {
            assert forall|i: int| 0 <= i < self.clients@.len() implies bounded(
                #[trigger] self.clients@[i].stamps@,
                self.max_requests,
                self.window,
            ) by {
                if i != k {
                    assert(self.clients@[i] == before[i]);
                }
            }
            assert forall|i: int, j: int|
                0 <= i < self.clients@.len() && 0 <= j < self.clients@.len() && i != j implies (
            #[trigger] self.clients@[i]).client_id@ != (#[trigger] self.clients@[j]).client_id@ by {
                assert(before[i].client_id@ != before[j].client_id@);
            }
            lemma_client_at(self.clients@, k as int);
            assert forall|d: Seq<char>| d != client@ implies self.history(d) == old(self).history(
                d,
            ) by {
                assert(has_client(self.clients@, d) == has_client(before, d)) by {
                    if has_client(self.clients@, d) {
                        let i = choose|i: int|
                            0 <= i < self.clients@.len() && (#[trigger] self.clients@[i]).client_id@
                                == d;
                        assert(before[i].client_id@ == d);
                    }
                    if has_client(before, d) {
                        let i = choose|i: int|
                            0 <= i < before.len() && (#[trigger] before[i]).client_id@ == d;
                        assert(self.clients@[i].client_id@ == d);
                    }
                }
                if has_client(before, d) {
                    let p = client_position(before, d);
                    lemma_client_at(before, p);
                    lemma_client_at(self.clients@, p);
                }
            }
        }
        admitted
    }
}

/// The decisions on requests at the times `ts`, one after the other,
/// starting from the history `h`.
pub open spec fn decisions(h: Seq<u64>, ts: Seq<u64>, max_requests: usize, window: u64) -> Seq<bool>
    decreases ts.len(),
{
    if ts.len() == 0 {
        Seq::empty()
    } else {
        let (ok, next) = admit_step(h, ts[0], max_requests, window);
        seq![ok] + decisions(next, ts.drop_first(), max_requests, window)
    }
}

/// Nothing in `h` is pruned at `now` when every stamp is recent enough.
proof fn lemma_recent_keeps_all(h: Seq<u64>, now: u64, window: u64)
    requires
        forall|i: int| 0 <= i < h.len() ==> now <= #[trigger] h[i] + window,
    ensures
        recent(h, now, window) == h,
    decreases h.len(),
{
    if h.len() > 0 {
        lemma_recent_keeps_all(h.drop_last(), now, window);
        assert(h.drop_last().push(h.last()) =~= h);
    }
}

/// Everything in `h` is pruned at `now` when every stamp is too old.
proof fn lemma_recent_drops_all(h: Seq<u64>, now: u64, window: u64)
    requires
        forall|i: int| 0 <= i < h.len() ==> #[trigger] h[i] + window < now,
    ensures
        recent(h, now, window).len() == 0,
    decreases h.len(),
{
    if h.len() > 0 {
        lemma_recent_drops_all(h.drop_last(), now, window);
    }
}

proof fn lemma_decisions_from(h: Seq<u64>, ts: Seq<u64>, max_requests: usize, window: u64, base: u64)
    requires
        forall|i: int| 0 <= i < h.len() ==> base <= #[trigger] h[i],
        forall|i: int| 0 <= i < ts.len() ==> base <= #[trigger] ts[i] && ts[i] <= base + window,
    ensures
        decisions(h, ts, max_requests, window).len() == ts.len(),
        forall|i: int|
            0 <= i < ts.len() ==> #[trigger] decisions(h, ts, max_requests, window)[i] == (h.len()
                + i < max_requests),
    decreases ts.len(),
{
    if ts.len() > 0 {
        let now = ts[0];
        assert forall|i: int| 0 <= i < h.len() implies now <= #[trigger] h[i] + window by {}
        lemma_recent_keeps_all(h, now, window);
        let (ok, next) = admit_step(h, now, max_requests, window);
        let tail = ts.drop_first();
        assert forall|i: int| 0 <= i < tail.len() implies base <= #[trigger] tail[i] && tail[i]
            <= base + window by {
            assert(tail[i] == ts[i + 1]);
        }
        assert forall|i: int| 0 <= i < next.len() implies base <= #[trigger] next[i] by {
            if ok && i == h.len() {
            } else {
                assert(next[i] == h[i]);
            }
        }
        lemma_decisions_from(next, tail, max_requests, window, base);
        let d = decisions(h, ts, max_requests, window);
        assert forall|i: int| 0 <= i < ts.len() implies #[trigger] d[i] == (h.len() + i
            < max_requests) by {
            if i > 0 {
                assert(d[i] == decisions(next, tail, max_requests, window)[i - 1]);
            }
        }
    }
}

/// Within one window a client is admitted exactly `max_requests` times:
/// requests at times that all lie within `window` of the first, on a client
/// with no history, are admitted up to the limit and refused after it.
pub proof fn lemma_limit_within_window(ts: Seq<u64>, max_requests: usize, window: u64)
    requires
        ts.len() > 0,
        forall|i: int| 0 <= i < ts.len() ==> ts[0] <= #[trigger] ts[i] && ts[i] <= ts[0] + window,
    ensures
        decisions(Seq::empty(), ts, max_requests, window).len() == ts.len(),
        forall|i: int|
            0 <= i < ts.len() ==> #[trigger] decisions(Seq::empty(), ts, max_requests, window)[i]
                == (i < max_requests),
{
    lemma_decisions_from(Seq::empty(), ts, max_requests, window, ts[0]);
}

/// Once the whole recorded history has left the window, a client is
/// admitted again (unless the limit is zero), and only the new request is
/// remembered.
pub proof fn lemma_window_recovers(h: Seq<u64>, now: u64, max_requests: usize, window: u64)
    requires
        max_requests > 0,
        forall|i: int| 0 <= i < h.len() ==> #[trigger] h[i] + window < now,
    ensures
        admit_step(h, now, max_requests, window) == (true, seq![now]),
{
    lemma_recent_drops_all(h, now, window);
    assert(recent(h, now, window).push(now) =~= seq![now]);
}

/// A window holds no more stamps than the history has.
proof fn lemma_count_le_len(h: Seq<u64>, lo: int, window: u64)
    ensures
        count_in(h, lo, window) <= h.len(),
    decreases h.len(),
{
    if h.len() > 0 {
        lemma_count_le_len(h.drop_last(), lo, window);
    }
}

/// Pruning never adds stamps to a window.
proof fn lemma_recent_count_le(h: Seq<u64>, now: u64, window: u64, lo: int)
    ensures
        count_in(recent(h, now, window), lo, window) <= count_in(h, lo, window),
    decreases h.len(),
{
    if h.len() > 0 {
        lemma_recent_count_le(h.drop_last(), now, window, lo);
        let rest = recent(h.drop_last(), now, window);
        assert(rest.push(h.last()).drop_last() =~= rest);
    }
}

/// One decision keeps every window of a client's history within the limit.
proof fn lemma_step_keeps_bound(h: Seq<u64>, now: u64, max_requests: usize, window: u64)
    requires
        bounded(h, max_requests, window),
    ensures
        bounded(admit_step(h, now, max_requests, window).1, max_requests, window),
{
    let kept = recent(h, now, window);
    let next = admit_step(h, now, max_requests, window).1;
    assert forall|lo: int| #[trigger] count_in(next, lo, window) <= max_requests by {
        lemma_recent_count_le(h, now, window, lo);
        assert(count_in(h, lo, window) <= max_requests);
        if kept.len() < max_requests {
            assert(kept.push(now).drop_last() =~= kept);
            lemma_count_le_len(kept, lo, window);
        }
    }
}

impl RateLimiter {
    /// Whatever requests came before, at any time and in any order, no window
    /// of `window_length()` milliseconds holds more than `limit()` admitted
    /// requests of one client.
    pub proof fn lemma_admissions_bounded(&self, client: Seq<char>, lo: int)
        requires
            self.wf(),
        ensures
            count_in(self.history(client), lo, self.window_length()) <= self.limit(),
    {
        if has_client(self.clients@, client) {
            let p = client_position(self.clients@, client);
            assert(bounded(self.clients@[p].stamps@, self.max_requests, self.window));
        }
    }
}

} // verus!
