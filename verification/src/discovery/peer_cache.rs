//! The peers a discovery service has seen, each with the time it was last
//! seen: found by identifier, filtered by protocol and age, and expired.
use vstd::prelude::*;
use crate::discovery::interface::{PeerInfo, PeerView};
use crate::text::{contains_text, has_substring};

verus! {

/// A peer record with the time it was last seen (microseconds).
pub type PeerEntry = (PeerView, u64);

/// The entries as values.
pub open spec fn entry_views(v: Seq<(PeerInfo, u64)>) -> Seq<PeerEntry> {
    v.map_values(|e: (PeerInfo, u64)| (e.0@, e.1))
}

/// The records of some peers as values.
pub open spec fn peer_views(v: Seq<PeerInfo>) -> Seq<PeerView> {
    v.map_values(|p: PeerInfo| p@)
}

/// No two entries are for the same peer.
pub open spec fn unique_ids(s: Seq<PeerEntry>) -> bool {
    forall|i: int, j: int| 0 <= i < j < s.len() ==> s[i].0.id != s[j].0.id
}

/// Where the entry for `id` is, searching from `i`; -1 when there is none.
pub open spec fn peer_index(s: Seq<PeerEntry>, id: Seq<u8>, i: int) -> int
    decreases s.len() - i,
{
    if i < 0 || i >= s.len() {
        -1
    } else if s[i].0.id == id {
        i
    } else {
        peer_index(s, id, i + 1)
    }
}

/// The entries after recording `e`: it replaces the entry of the same
/// peer, else comes last.
pub open spec fn recorded(s: Seq<PeerEntry>, e: PeerEntry) -> Seq<PeerEntry> {
    let i = peer_index(s, e.0.id, 0);
    if i >= 0 {
        s.update(i, e)
    } else {
        s.push(e)
    }
}

/// The entry of a peer.
pub open spec fn peer_lookup(s: Seq<PeerEntry>, id: Seq<u8>) -> Option<PeerEntry> {
    let i = peer_index(s, id, 0);
    if i >= 0 {
        Some(s[i])
    } else {
        None
    }
}

/// Microseconds from `seen` to `now`; none when `now` is earlier.
pub open spec fn elapsed_us(seen: u64, now: u64) -> int {
    if now >= seen {
        now - seen
    } else {
        0
    }
}

/// Seen less than `expiration` seconds before `now`.
pub open spec fn seen_within(e: PeerEntry, now: u64, expiration: u64) -> bool {
    elapsed_us(e.1, now) < expiration * 1_000_000
}

/// Seen more than `expiration` seconds before `now`.
pub open spec fn stale(e: PeerEntry, now: u64, expiration: u64) -> bool {
    elapsed_us(e.1, now) > expiration * 1_000_000
}

/// A peer matches a criterion when the criterion is empty or one of its
/// protocols contains it.
pub open spec fn matches_criteria(p: PeerView, criteria: Seq<char>) -> bool {
    criteria.len() == 0 || exists|k: int| 0 <= k < p.protocols.len() && has_substring(#[trigger] p.protocols[k], criteria)
}

/// The entries among the first `k` that satisfy `keep`, in order.
pub open spec fn kept_entries(s: Seq<PeerEntry>, keep: spec_fn(PeerEntry) -> bool, k: int) -> Seq<PeerEntry>
    decreases k,
{
    if k <= 0 {
        Seq::empty()
    } else if keep(s[k - 1]) {
        kept_entries(s, keep, k - 1).push(s[k - 1])
    } else {
        kept_entries(s, keep, k - 1)
    }
}

/// The entries not seen more than `expiration` seconds before `now`, in
/// order.
pub open spec fn recent_entries(s: Seq<PeerEntry>, now: u64, expiration: u64) -> Seq<PeerEntry> {
    kept_entries(s, |e: PeerEntry| !stale(e, now, expiration), s.len() as int)
}

/// The identifiers of the entries seen more than `expiration` seconds
/// before `now`, in order.
pub open spec fn stale_ids(s: Seq<PeerEntry>, now: u64, expiration: u64) -> Seq<Seq<u8>> {
    entry_ids(kept_entries(s, |e: PeerEntry| stale(e, now, expiration), s.len() as int))
}

/// The peers of some entries.
pub open spec fn entry_peers(s: Seq<PeerEntry>) -> Seq<PeerView> {
    s.map_values(|e: PeerEntry| e.0)
}

/// The identifiers of some entries.
pub open spec fn entry_ids(s: Seq<PeerEntry>) -> Seq<Seq<u8>> {
    s.map_values(|e: PeerEntry| e.0.id)
}

/// Where `peer_index` stops when it finds nothing before `i`.
proof fn lemma_peer_index_skip(s: Seq<PeerEntry>, id: Seq<u8>, i: int)
    requires
        0 <= i <= s.len(),
        forall|j: int| 0 <= j < i ==> s[j].0.id != id,
    ensures
        peer_index(s, id, 0) == peer_index(s, id, i),
    decreases i,
{
    if i > 0 {
        lemma_peer_index_skip(s, id, i - 1);
    }
}

/// What `peer_index` finds.
proof fn lemma_peer_index_found(s: Seq<PeerEntry>, id: Seq<u8>, i: int)
    requires
        0 <= i,
    ensures
        peer_index(s, id, i) == -1 || (i <= peer_index(s, id, i) < s.len() && s[peer_index(s, id, i)].0.id
            == id),
        peer_index(s, id, i) == -1 ==> forall|j: int| i <= j < s.len() ==> s[j].0.id != id,
    decreases s.len() - i,
{
    if i < s.len() && s[i].0.id != id {
        lemma_peer_index_found(s, id, i + 1);
    }
}

/// Keeping entries never makes a list with two entries of one peer.
proof fn lemma_kept_unique(s: Seq<PeerEntry>, keep: spec_fn(PeerEntry) -> bool, k: int)
    requires
        0 <= k <= s.len(),
        unique_ids(s),
    ensures
        unique_ids(kept_entries(s, keep, k)),
        forall|x: int| 0 <= x < kept_entries(s, keep, k).len() ==> exists|y: int| 0 <= y < k && #[trigger] kept_entries(s, keep, k)[x] == s[y],
    decreases k,
{
    if k > 0 {
        lemma_kept_unique(s, keep, k - 1);
        let prev = kept_entries(s, keep, k - 1);
        if keep(s[k - 1]) {
            assert forall|x: int| 0 <= x < prev.len() implies prev[x].0.id != s[k - 1].0.id by {
                let y = choose|y: int| 0 <= y < k - 1 && prev[x] == s[y];
            }
            let cur = kept_entries(s, keep, k);
            assert forall|x: int| 0 <= x < cur.len() implies exists|y: int| 0 <= y < k && #[trigger] cur[x] == s[y] by {
                if x < prev.len() {
                    let y = choose|y: int| 0 <= y < k - 1 && prev[x] == s[y];
                    assert(cur[x] == s[y]);
                } else {
                    assert(cur[x] == s[k - 1]);
                }
            }
        }
    }
}

/// The peers a discovery service has seen, each with the time it was last
/// seen (microseconds); one entry per peer.
pub struct PeerCache {
    entries: Vec<(PeerInfo, u64)>,
}

impl PeerCache {
    /// The entries, in the order the peers were first recorded.
    pub closed spec fn peer_list(&self) -> Seq<PeerEntry> {
        entry_views(self.entries@)
    }

    /// One entry per peer.
    pub open spec fn well_formed(&self) -> bool {
        unique_ids(self.peer_list())
    }

    /// No peers.
    pub fn new() -> (r: Self)
        ensures
            r.peer_list() == Seq::<PeerEntry>::empty(),
            r.well_formed(),
    {
        let r = PeerCache { entries: Vec::new() };
        assert(r.peer_list() =~= Seq::<PeerEntry>::empty());
        r
    }

    /// The number of peers.
    pub fn len(&self) -> (r: usize)
        ensures
            r == self.peer_list().len(),
    {
        self.entries.len()
    }

    /// Where the entry of a peer is.
    fn find(&self, id: &[u8]) -> (r: Option<usize>)
        ensures
            match r {
                Some(i) => i == peer_index(self.peer_list(), id@, 0) && i < self.peer_list().len(),
                None => peer_index(self.peer_list(), id@, 0) == -1,
            },
    {
        let ghost s = self.peer_list();
        let mut i: usize = 0;
        while i < self.entries.len()
            invariant
                i <= self.entries@.len(),
                s == self.peer_list(),
                peer_index(s, id@, 0) == peer_index(s, id@, i as int),
            decreases self.entries@.len() - i,
        {
            if crate::crypto::bytes_equal(self.entries[i].0.id.as_slice(), id) {
                return Some(i);
            }
            i = i + 1;
        }
        None
    }

    /// Record a peer seen at `now`: its entry is replaced, or added last.
    pub fn insert(&mut self, info: PeerInfo, now: u64)
        requires
            old(self).well_formed(),
        ensures
            final(self).well_formed(),
            final(self).peer_list() == recorded(old(self).peer_list(), (info@, now)),
    {
        let ghost s = self.peer_list();
        let ghost e = (info@, now);
        proof {
            lemma_peer_index_found(s, info@.id, 0);
        }
        match self.find(info.id.as_slice()) {
            Some(i) => {
                self.entries.set(i, (info, now));
                assert(self.peer_list() =~= s.update(i as int, e));
            },
            None => {
                self.entries.push((info, now));
                assert(self.peer_list() =~= s.push(e));
            },
        }
    }

    /// Whether a peer has an entry.
    pub fn contains(&self, id: &[u8]) -> (r: bool)
        ensures
            r == (peer_index(self.peer_list(), id@, 0) >= 0),
    {
        self.find(id).is_some()
    }

    /// Drop the entry of a peer; whether it had one.
    pub fn remove(&mut self, id: &[u8]) -> (r: bool)
        requires
            old(self).well_formed(),
        ensures
            final(self).well_formed(),
            r == (peer_index(old(self).peer_list(), id@, 0) >= 0),
            final(self).peer_list() == if r {
                old(self).peer_list().remove(peer_index(old(self).peer_list(), id@, 0))
            } else {
                old(self).peer_list()
            },
    {
        let ghost s = self.peer_list();
        match self.find(id) {
            Some(i) => {
                self.entries.remove(i);
                proof {
                    let t = self.peer_list();
                    assert(t =~= s.remove(i as int));
                    assert forall|x: int, y: int| 0 <= x < y < t.len() implies t[x].0.id != t[y].0.id by {
                        let xs = if x < i { x } else { x + 1 };
                        let ys = if y < i { y } else { y + 1 };
                        assert(t[x] == s[xs]);
                        assert(t[y] == s[ys]);
                    }
                }
                true
            },
            None => false,
        }
    }

    /// Forget every peer.
    pub fn clear(&mut self)
        ensures
            final(self).well_formed(),
            final(self).peer_list() == Seq::<PeerEntry>::empty(),
    {
        self.entries = Vec::new();
        assert(self.peer_list() =~= Seq::<PeerEntry>::empty());
    }

    /// The records of all peers, in order.
    pub fn all(&self) -> (r: Vec<PeerInfo>)
        ensures
            peer_views(r@) == entry_peers(self.peer_list()),
    {
        let mut out: Vec<PeerInfo> = Vec::new();
        let mut i: usize = 0;
        while i < self.entries.len()
            invariant
                i <= self.entries@.len(),
                peer_views(out@) == entry_peers(self.peer_list()).subrange(0, i as int),
            decreases self.entries@.len() - i,
        {
            let ghost before = peer_views(out@);
            let p = self.entries[i].0.duplicate();
            out.push(p);
            assert(peer_views(out@) =~= before.push(p@));
            i = i + 1;
            assert(peer_views(out@) =~= entry_peers(self.peer_list()).subrange(0, i as int));
        }
        assert(peer_views(out@) =~= entry_peers(self.peer_list()));
        out
    }

    /// The record of a peer.
    pub fn lookup(&self, id: &[u8]) -> (r: Option<PeerInfo>)
        ensures
            match peer_lookup(self.peer_list(), id@) {
                Some(e) => r matches Some(p) && p@ == e.0,
                None => r is None,
            },
    {
        match self.find(id) {
            Some(i) => Some(self.entries[i].0.duplicate()),
            None => None,
        }
    }

    /// The records of the peers whose entries satisfy `keep`, in order.
    fn collect(&self, Ghost(keep_fn): Ghost<spec_fn(PeerEntry) -> bool>, criteria: &str, now: u64, expiration: u64, check_age: bool) -> (r: Vec<PeerInfo>)
        requires
            forall|e: PeerEntry| #[trigger] keep_fn(e) == ((!check_age || seen_within(e, now, expiration)) && matches_criteria(e.0, criteria@)),
        ensures
            peer_views(r@) == entry_peers(kept_entries(self.peer_list(), keep_fn, self.peer_list().len() as int)),
    {
        let ghost s = self.peer_list();
        let limit: u128 = expiration as u128 * 1_000_000;
        let mut out: Vec<PeerInfo> = Vec::new();
        let mut i: usize = 0;
        while i < self.entries.len()
            invariant
                i <= self.entries@.len(),
                s == self.peer_list(),
                s.len() == self.entries@.len(),
                limit == expiration * 1_000_000,
                forall|e: PeerEntry| #[trigger] keep_fn(e) == ((!check_age || seen_within(e, now, expiration)) && matches_criteria(e.0, criteria@)),
                peer_views(out@) == entry_peers(kept_entries(s, keep_fn, i as int)),
            decreases self.entries@.len() - i,
        {
            let seen = self.entries[i].1;
            let elapsed: u128 = if now >= seen {
                (now - seen) as u128
            } else {
                0
            };
            let fresh = !check_age || elapsed < limit;
            let mut matched = criteria.is_empty();
            let protocols = &self.entries[i].0.protocols;
            let mut k: usize = 0;
            while !matched && k < protocols.len()
                invariant
                    k <= protocols@.len(),
                    matched == (criteria@.len() == 0 || exists|m: int| 0 <= m < k && has_substring(#[trigger] protocols@[m]@, criteria@)),
                decreases protocols@.len() - k,
            {
                if contains_text(protocols[k].as_str(), criteria) {
                    matched = true;
                }
                k = k + 1;
            }
            let ghost e = s[i as int];
            proof {
                assert(e.0.protocols == crate::discovery::interface::text_views(protocols@));
                if matched {
                    if criteria@.len() != 0 {
                        let m = choose|m: int| 0 <= m < k && has_substring(#[trigger] protocols@[m]@, criteria@);
                        assert(e.0.protocols[m] == protocols@[m]@);
                    }
                } else {
                    assert forall|m: int| 0 <= m < e.0.protocols.len() implies !has_substring(#[trigger] e.0.protocols[m], criteria@) by {
                        assert(e.0.protocols[m] == protocols@[m]@);
                    }
                }
                assert(matched == matches_criteria(e.0, criteria@));
                assert(fresh == (!check_age || seen_within(e, now, expiration)));
            }
            if fresh && matched {
                let p = self.entries[i].0.duplicate();
                let ghost before = peer_views(out@);
                out.push(p);
                assert(peer_views(out@) =~= before.push(p@));
            }
            i = i + 1;
            proof {
                assert(entry_peers(kept_entries(s, keep_fn, i as int)) =~= if keep_fn(e) {
                    entry_peers(kept_entries(s, keep_fn, i - 1)).push(e.0)
                } else {
                    entry_peers(kept_entries(s, keep_fn, i - 1))
                });
            }
        }
        out
    }

    /// The records of the peers matching a criterion: any peer when it is
    /// empty, else those with a protocol containing it.
    pub fn matching(&self, criteria: &str) -> (r: Vec<PeerInfo>)
        ensures
            peer_views(r@) == entry_peers(
                kept_entries(
                    self.peer_list(),
                    |e: PeerEntry| matches_criteria(e.0, criteria@),
                    self.peer_list().len() as int,
                ),
            ),
    {
        let ghost keep = |e: PeerEntry| matches_criteria(e.0, criteria@);
        let r = self.collect(Ghost(keep), criteria, 0, 0, false);
        r
    }

    /// The records of the peers seen less than `expiration` seconds before
    /// `now` that match a criterion.
    pub fn fresh_matching(&self, criteria: &str, now: u64, expiration: u64) -> (r: Vec<PeerInfo>)
        ensures
            peer_views(r@) == entry_peers(
                kept_entries(
                    self.peer_list(),
                    |e: PeerEntry| seen_within(e, now, expiration) && matches_criteria(e.0, criteria@),
                    self.peer_list().len() as int,
                ),
            ),
    {
        let ghost keep = |e: PeerEntry| seen_within(e, now, expiration) && matches_criteria(e.0, criteria@);
        self.collect(Ghost(keep), criteria, now, expiration, true)
    }

    /// The records of the peers seen less than `expiration` seconds before
    /// `now`.
    pub fn fresh(&self, now: u64, expiration: u64) -> (r: Vec<PeerInfo>)
        ensures
            peer_views(r@) == entry_peers(
                kept_entries(
                    self.peer_list(),
                    |e: PeerEntry| seen_within(e, now, expiration),
                    self.peer_list().len() as int,
                ),
            ),
    {
        let ghost keep = |e: PeerEntry| seen_within(e, now, expiration) && matches_criteria(e.0, ""@);
        let r = self.collect(Ghost(keep), "", now, expiration, true);
        proof {
            reveal_strlit("");
            let keep2 = |e: PeerEntry| seen_within(e, now, expiration);
            assert(keep =~= keep2);
        }
        r
    }

    /// Drop the peers seen more than `expiration` seconds before `now`;
    /// their identifiers come back, in order.
    pub fn expire(&mut self, now: u64, expiration: u64) -> (r: Vec<Vec<u8>>)
        requires
            old(self).well_formed(),
        ensures
            final(self).well_formed(),
            final(self).peer_list() == recent_entries(old(self).peer_list(), now, expiration),
            r@.map_values(|id: Vec<u8>| id@) == stale_ids(old(self).peer_list(), now, expiration),
    {
        let ghost s = self.peer_list();
        let ghost keep = |e: PeerEntry| !stale(e, now, expiration);
        let ghost drop = |e: PeerEntry| stale(e, now, expiration);
        let limit: u128 = expiration as u128 * 1_000_000;
        let mut kept: Vec<(PeerInfo, u64)> = Vec::new();
        let mut removed: Vec<Vec<u8>> = Vec::new();
        let n = self.entries.len();
        let mut i: usize = 0;
        while i < n
            invariant
                i <= n,
                n == s.len(),
                s == self.peer_list(),
                limit == expiration * 1_000_000,
                keep == (|e: PeerEntry| !stale(e, now, expiration)),
                drop == (|e: PeerEntry| stale(e, now, expiration)),
                entry_views(kept@) == kept_entries(s, keep, i as int),
                removed@.map_values(|id: Vec<u8>| id@) == entry_ids(kept_entries(s, drop, i as int)),
            decreases n - i,
        {
            let ghost ev = s[i as int];
            let seen = self.entries[i].1;
            let elapsed: u128 = if now >= seen {
                (now - seen) as u128
            } else {
                0
            };
            proof {
                assert(ev.1 == seen);
                assert(drop(ev) == (elapsed > limit));
                assert(keep(ev) == !(elapsed > limit));
            }
            if elapsed > limit {
                let ghost before = removed@.map_values(|id: Vec<u8>| id@);
                let id = crate::bytes_be::copy_range(self.entries[i].0.id.as_slice(), 0, self.entries[i].0.id.len());
                assert(id@ =~= ev.0.id);
                removed.push(id);
                assert(removed@.map_values(|id: Vec<u8>| id@) =~= before.push(ev.0.id));
            } else {
                let ghost before = entry_views(kept@);
                let e = (self.entries[i].0.duplicate(), seen);
                kept.push(e);
                assert(entry_views(kept@) =~= before.push(ev));
            }
            i = i + 1;
            proof {
                assert(entry_ids(kept_entries(s, drop, i as int)) =~= if drop(ev) {
                    entry_ids(kept_entries(s, drop, i - 1)).push(ev.0.id)
                } else {
                    entry_ids(kept_entries(s, drop, i - 1))
                });
                assert(kept_entries(s, keep, i as int) == if keep(ev) {
                    kept_entries(s, keep, i - 1).push(ev)
                } else {
                    kept_entries(s, keep, i - 1)
                });
            }
        }
        self.entries = kept;
        proof {
            lemma_kept_unique(s, keep, s.len() as int);
        }
        removed
    }
}

/// Recording a peer and looking it up gives back the record and time just
/// recorded; no two entries are ever for the same peer.
pub proof fn lemma_recorded_then_found(s: Seq<PeerEntry>, e: PeerEntry)
    requires
        unique_ids(s),
    ensures
        peer_lookup(recorded(s, e), e.0.id) == Some(e),
        unique_ids(recorded(s, e)),
{
    lemma_peer_index_found(s, e.0.id, 0);
    let i = peer_index(s, e.0.id, 0);
    let t = recorded(s, e);
    if i >= 0 {
        lemma_peer_index_skip(t, e.0.id, i);
    } else {
        lemma_peer_index_skip(t, e.0.id, s.len() as int);
    }
}

/// After expiring, every peer left was seen no more than `expiration`
/// seconds before `now`, and expiring again removes nothing.
pub proof fn lemma_expire_keeps_recent(s: Seq<PeerEntry>, now: u64, expiration: u64)
    ensures
        forall|x: int| 0 <= x < recent_entries(s, now, expiration).len() ==> !stale(
            #[trigger] recent_entries(s, now, expiration)[x],
            now,
            expiration,
        ),
        recent_entries(recent_entries(s, now, expiration), now, expiration) == recent_entries(s, now, expiration),
{
    let keep = |e: PeerEntry| !stale(e, now, expiration);
    lemma_kept_all(s, keep, s.len() as int);
    let t = recent_entries(s, now, expiration);
    lemma_kept_all(t, keep, t.len() as int);
    lemma_kept_keeps_all(t, keep, t.len() as int);
}

/// Keeping the entries that all pass a test keeps them all.
proof fn lemma_kept_keeps_all(s: Seq<PeerEntry>, keep: spec_fn(PeerEntry) -> bool, k: int)
    requires
        0 <= k <= s.len(),
        forall|x: int| 0 <= x < s.len() ==> keep(#[trigger] s[x]),
    ensures
        kept_entries(s, keep, k) == s.subrange(0, k),
    decreases k,
{
    if k > 0 {
        lemma_kept_keeps_all(s, keep, k - 1);
        assert(s.subrange(0, k) =~= s.subrange(0, k - 1).push(s[k - 1]));
    } else {
        assert(s.subrange(0, 0) =~= Seq::<PeerEntry>::empty());
    }
}

/// Every entry kept satisfies the test it was kept by.
proof fn lemma_kept_all(s: Seq<PeerEntry>, keep: spec_fn(PeerEntry) -> bool, k: int)
    ensures
        forall|x: int| 0 <= x < kept_entries(s, keep, k).len() ==> keep(#[trigger] kept_entries(s, keep, k)[x]),
    decreases k,
{
    if k > 0 {
        lemma_kept_all(s, keep, k - 1);
        let prev = kept_entries(s, keep, k - 1);
        let cur = kept_entries(s, keep, k);
        assert forall|x: int| 0 <= x < cur.len() implies keep(#[trigger] cur[x]) by {
            if keep(s[k - 1]) && x == prev.len() {
                assert(cur[x] == s[k - 1]);
            } else {
                assert(cur[x] == prev[x]);
            }
        }
    }
}

} // verus!
