//! The moderation state of a node: which peers are blocked, which are
//! whitelisted, and which streams are flagged.
//!
//! A peer is allowed when it is not blocked and, in whitelist-only mode,
//! it is whitelisted. Lists exported by one node can be imported by
//! another, merging them into its state.
use vstd::prelude::*;
use crate::clock::now_unix;
use crate::moderation::config::ModerationConfig;
use crate::moderation::types::{
    block_views, copy_opt, flag_views, opt_chars, texts, BlockEntry, BlockView, FlagEntry, FlagReason,
    FlagView, ModerationList,
};
use crate::text::same_text;

verus! {

/// Whether no two entries are for the same peer.
pub open spec fn unique_peers(s: Seq<BlockView>) -> bool {
    forall|i: int, j: int| 0 <= i < j < s.len() ==> s[i].peer_id != s[j].peer_id
}

/// Whether some entry is for the peer `p`.
pub open spec fn lists_peer(s: Seq<BlockView>, p: Seq<char>) -> bool {
    exists|i: int| 0 <= i < s.len() && s[i].peer_id == p
}

/// The entries as a map from peer to entry.
pub open spec fn peer_map(s: Seq<BlockView>) -> Map<Seq<char>, BlockView> {
    Map::new(
        |p: Seq<char>| lists_peer(s, p),
        |p: Seq<char>| s[choose|i: int| 0 <= i < s.len() && s[i].peer_id == p],
    )
}

/// Whether a peer may connect: it is not blocked and, in whitelist-only
/// mode, it is whitelisted.
pub open spec fn peer_allowed(
    blocked: Map<Seq<char>, BlockView>,
    whitelisted: Set<Seq<char>>,
    whitelist_only: bool,
    p: Seq<char>,
) -> bool {
    !blocked.dom().contains(p) && (!whitelist_only || whitelisted.contains(p))
}

/// The flags among the first `k` that are not for the stream `s`.
pub open spec fn flags_without(f: Seq<FlagView>, s: Seq<char>, k: int) -> Seq<FlagView>
    decreases k,
{
    if k <= 0 {
        Seq::empty()
    } else if f[k - 1].stream_id == s {
        flags_without(f, s, k - 1)
    } else {
        flags_without(f, s, k - 1).push(f[k - 1])
    }
}

/// Whether some flag is for the stream `s`.
pub open spec fn has_flag(f: Seq<FlagView>, s: Seq<char>) -> bool {
    exists|i: int| 0 <= i < f.len() && f[i].stream_id == s
}

/// A map after the entries of `list` are put in, one after the other, each
/// replacing the entry for its peer.
pub open spec fn merged(m: Map<Seq<char>, BlockView>, list: Seq<BlockView>, k: int) -> Map<Seq<char>, BlockView>
    decreases k,
{
    if k <= 0 {
        m
    } else {
        merged(m, list, k - 1).insert(list[k - 1].peer_id, list[k - 1])
    }
}

/// The entry that blocking `p` for `reason` at time `t` makes.
pub open spec fn block_view(p: Seq<char>, reason: Option<Seq<char>>, t: u64) -> BlockView {
    BlockView { peer_id: p, reason, blocked_at: t }
}

/// Adding an entry for a peer not listed adds it to the map.
proof fn lemma_peer_map_push(s: Seq<BlockView>, e: BlockView)
    requires
        unique_peers(s),
        !lists_peer(s, e.peer_id),
    ensures
        unique_peers(s.push(e)),
        peer_map(s.push(e)) == peer_map(s).insert(e.peer_id, e),
{
    let t = s.push(e);
    assert forall|p: Seq<char>| #[trigger] lists_peer(t, p) == (lists_peer(s, p) || p == e.peer_id) by {
        if lists_peer(s, p) {
            let i = choose|i: int| 0 <= i < s.len() && s[i].peer_id == p;
            assert(t[i].peer_id == p);
        }
        if p == e.peer_id {
            assert(t[s.len() as int].peer_id == p);
        }
        if lists_peer(t, p) && p != e.peer_id {
            let i = choose|i: int| 0 <= i < t.len() && t[i].peer_id == p;
            assert(s[i].peer_id == p);
        }
    }
    assert forall|p: Seq<char>| #[trigger] lists_peer(t, p) implies peer_map(t)[p] == peer_map(
        s,
    ).insert(e.peer_id, e)[p] by {
        let i = choose|i: int| 0 <= i < t.len() && t[i].peer_id == p;
        if p == e.peer_id {
            assert(i == s.len());
        } else {
            let j = choose|j: int| 0 <= j < s.len() && s[j].peer_id == p;
            assert(t[j].peer_id == p);
            assert(i == j);
        }
    }
    assert(peer_map(t) =~= peer_map(s).insert(e.peer_id, e));
}

/// Replacing the entry of a listed peer replaces it in the map.
proof fn lemma_peer_map_update(s: Seq<BlockView>, i: int, e: BlockView)
    requires
        unique_peers(s),
        0 <= i < s.len(),
        s[i].peer_id == e.peer_id,
    ensures
        unique_peers(s.update(i, e)),
        peer_map(s.update(i, e)) == peer_map(s).insert(e.peer_id, e),
{
    let t = s.update(i, e);
    assert forall|p: Seq<char>| #[trigger] lists_peer(t, p) == lists_peer(s, p) by {
        if lists_peer(s, p) {
            let j = choose|j: int| 0 <= j < s.len() && s[j].peer_id == p;
            assert(t[j].peer_id == p);
        }
        if lists_peer(t, p) {
            let j = choose|j: int| 0 <= j < t.len() && t[j].peer_id == p;
            assert(s[j].peer_id == p);
        }
    }
    assert(lists_peer(s, e.peer_id));
    assert forall|p: Seq<char>| #[trigger] lists_peer(t, p) implies peer_map(t)[p] == peer_map(
        s,
    ).insert(e.peer_id, e)[p] by {
        let j = choose|j: int| 0 <= j < t.len() && t[j].peer_id == p;
        if p == e.peer_id {
            assert(j == i);
        } else {
            let k = choose|k: int| 0 <= k < s.len() && s[k].peer_id == p;
            assert(t[k].peer_id == p);
            assert(j == k);
        }
    }
    assert(peer_map(t) =~= peer_map(s).insert(e.peer_id, e));
}

/// Removing the entry of a listed peer removes it from the map.
proof fn lemma_peer_map_remove(s: Seq<BlockView>, i: int)
    requires
        unique_peers(s),
        0 <= i < s.len(),
    ensures
        unique_peers(s.remove(i)),
        peer_map(s.remove(i)) == peer_map(s).remove(s[i].peer_id),
{
    let t = s.remove(i);
    let q = s[i].peer_id;
    assert forall|a: int, b: int| 0 <= a < b < t.len() implies t[a].peer_id != t[b].peer_id by {
        let a2 = if a < i { a } else { a + 1 };
        let b2 = if b < i { b } else { b + 1 };
        assert(t[a] == s[a2] && t[b] == s[b2]);
    }
    assert forall|p: Seq<char>| #[trigger] lists_peer(t, p) == (lists_peer(s, p) && p != q) by {
        if lists_peer(s, p) && p != q {
            let j = choose|j: int| 0 <= j < s.len() && s[j].peer_id == p;
            if j < i {
                assert(t[j].peer_id == p);
            } else {
                assert(t[j - 1].peer_id == p);
            }
        }
        if lists_peer(t, p) {
            let j = choose|j: int| 0 <= j < t.len() && t[j].peer_id == p;
            let j2 = if j < i { j } else { j + 1 };
            assert(s[j2].peer_id == p);
        }
    }
    assert forall|p: Seq<char>| #[trigger] lists_peer(t, p) implies peer_map(t)[p] == peer_map(s)[p] by {
        let j = choose|j: int| 0 <= j < t.len() && t[j].peer_id == p;
        let j2 = if j < i { j } else { j + 1 };
        assert(s[j2].peer_id == p);
        let k = choose|k: int| 0 <= k < s.len() && s[k].peer_id == p;
        assert(k == j2);
    }
    assert(peer_map(t) =~= peer_map(s).remove(q));
}

/// The flags without those for `s`, and how many those were.
proof fn lemma_flags_without_len(f: Seq<FlagView>, s: Seq<char>, k: int)
    requires
        0 <= k <= f.len(),
    ensures
        flags_without(f, s, k).len() <= k,
        flags_without(f, s, k).len() < k <==> exists|i: int| 0 <= i < k && f[i].stream_id == s,
        forall|i: int| 0 <= i < flags_without(f, s, k).len() ==> #[trigger] flags_without(f, s, k)[i].stream_id != s,
    decreases k,
{
    if k > 0 {
        lemma_flags_without_len(f, s, k - 1);
        if f[k - 1].stream_id != s && flags_without(f, s, k - 1).len() < k - 1 {
            let i = choose|i: int| 0 <= i < k - 1 && f[i].stream_id == s;
            assert(0 <= i < k && f[i].stream_id == s);
        }
    }
}

/// Importing an exported list into an empty state gives back the state that
/// was exported: the same blocked peers, whitelist and flags.
pub proof fn lemma_export_import_roundtrip(blocked: Seq<BlockView>, whitelisted: Seq<Seq<char>>, flags: Seq<FlagView>)
    requires
        unique_peers(blocked),
    ensures
        merged(Map::empty(), blocked, blocked.len() as int) == peer_map(blocked),
        Set::<Seq<char>>::empty() + whitelisted.to_set() == whitelisted.to_set(),
        Seq::<FlagView>::empty() + flags == flags,
{
    lemma_merged_prefix(blocked, blocked.len() as int);
    assert(blocked.take(blocked.len() as int) =~= blocked);
    assert(Set::<Seq<char>>::empty() + whitelisted.to_set() =~= whitelisted.to_set());
    assert(Seq::<FlagView>::empty() + flags =~= flags);
}

proof fn lemma_merged_prefix(list: Seq<BlockView>, k: int)
    requires
        unique_peers(list),
        0 <= k <= list.len(),
    ensures
        unique_peers(list.take(k)),
        merged(Map::empty(), list, k) == peer_map(list.take(k)),
    decreases k,
{
    if k == 0 {
        assert(peer_map(list.take(0)) =~= Map::<Seq<char>, BlockView>::empty());
    } else {
        lemma_merged_prefix(list, k - 1);
        let prev = list.take(k - 1);
        assert(list.take(k) =~= prev.push(list[k - 1]));
        if lists_peer(prev, list[k - 1].peer_id) {
            let i = choose|i: int| 0 <= i < prev.len() && prev[i].peer_id == list[k - 1].peer_id;
            assert(list[i].peer_id == list[k - 1].peer_id);
        }
        lemma_peer_map_push(prev, list[k - 1]);
    }
}

/// A blocked peer is never allowed, whitelisted or not.
pub proof fn lemma_blocked_peer_denied(
    blocked: Map<Seq<char>, BlockView>,
    whitelisted: Set<Seq<char>>,
    whitelist_only: bool,
    p: Seq<char>,
    e: BlockView,
)
    ensures
        !peer_allowed(blocked.insert(p, e), whitelisted, whitelist_only, p),
{
}

/// Unblocking a peer right after blocking it leaves the blocked peers as
/// they were before, when it was not blocked then.
pub proof fn lemma_block_then_unblock(blocked: Map<Seq<char>, BlockView>, p: Seq<char>, e: BlockView)
    requires
        !blocked.dom().contains(p),
    ensures
        blocked.insert(p, e).dom().contains(p),
        blocked.insert(p, e).remove(p) == blocked,
{
    assert(blocked.insert(p, e).remove(p) =~= blocked);
}

/// A peer that is not blocked is allowed once whitelisted, in either mode.
pub proof fn lemma_whitelisted_peer_allowed(
    blocked: Map<Seq<char>, BlockView>,
    whitelisted: Set<Seq<char>>,
    whitelist_only: bool,
    p: Seq<char>,
)
    requires
        !blocked.dom().contains(p),
    ensures
        peer_allowed(blocked, whitelisted.insert(p), whitelist_only, p),
{
}

/// Unflagging a stream right after flagging it leaves no flag for it, and
/// the other streams' flags as they were.
pub proof fn lemma_flag_then_unflag(f: Seq<FlagView>, g: FlagView)
    ensures
        flags_without(f.push(g), g.stream_id, f.len() + 1int) == flags_without(f, g.stream_id, f.len() as int),
        has_flag(f.push(g), g.stream_id),
        !has_flag(flags_without(f.push(g), g.stream_id, f.len() + 1int), g.stream_id),
{
    let s = g.stream_id;
    let t = f.push(g);
    lemma_flags_without_prefix(f, g, f.len() as int);
    assert(t[f.len() as int].stream_id == s);
    lemma_flags_without_len(t, s, t.len() as int);
    let w = flags_without(t, s, t.len() as int);
    if has_flag(w, s) {
        let j = choose|j: int| 0 <= j < w.len() && w[j].stream_id == s;
        assert(w[j].stream_id != s);
    }
}

proof fn lemma_flags_without_prefix(f: Seq<FlagView>, g: FlagView, k: int)
    requires
        0 <= k <= f.len(),
    ensures
        flags_without(f.push(g), g.stream_id, k) == flags_without(f, g.stream_id, k),
    decreases k,
{
    if k > 0 {
        lemma_flags_without_prefix(f, g, k - 1);
        assert(f.push(g)[k - 1] == f[k - 1]);
    }
}

/// The moderation state of a node.
pub struct ModerationManager {
    config: ModerationConfig,
    blocked_peers: Vec<BlockEntry>,
    whitelist: Vec<String>,
    flags: Vec<FlagEntry>,
}

impl ModerationManager {
    /// The blocked peers, by peer.
    pub closed spec fn blocked(&self) -> Map<Seq<char>, BlockView> {
        peer_map(block_views(self.blocked_peers@))
    }

    /// The whitelisted peers.
    pub closed spec fn whitelisted(&self) -> Set<Seq<char>> {
        texts(self.whitelist@).to_set()
    }

    /// The flags, in the order they were made.
    pub closed spec fn flag_list(&self) -> Seq<FlagView> {
        flag_views(self.flags@)
    }

    /// Whether only whitelisted peers may connect.
    pub closed spec fn whitelist_only(&self) -> bool {
        self.config.whitelist_only
    }

    /// The settings.
    pub closed spec fn settings(&self) -> ModerationConfig {
        self.config
    }

    /// The inner consistency of the state: one entry per blocked peer, each
    /// whitelisted peer once.
    pub closed spec fn well_formed(&self) -> bool {
        &&& unique_peers(block_views(self.blocked_peers@))
        &&& texts(self.whitelist@).no_duplicates()
    }

    /// A state with nothing blocked, whitelisted or flagged.
    pub fn new(config: ModerationConfig) -> (r: Self)
        ensures
            r.well_formed(),
            r.blocked() == Map::<Seq<char>, BlockView>::empty(),
            r.whitelisted() == Set::<Seq<char>>::empty(),
            r.flag_list() == Seq::<FlagView>::empty(),
            r.settings() == config,
            r.whitelist_only() == config.whitelist_only,
    {
        let r = ModerationManager {
            config,
            blocked_peers: Vec::new(),
            whitelist: Vec::new(),
            flags: Vec::new(),
        };
        assert(r.blocked() =~= Map::<Seq<char>, BlockView>::empty());
        assert(r.whitelisted() =~= Set::<Seq<char>>::empty());
        assert(r.flag_list() =~= Seq::<FlagView>::empty());
        r
    }

    /// The settings.
    pub fn config(&self) -> (r: &ModerationConfig)
        ensures
            *r == self.settings(),
    {
        &self.config
    }

    /// Where the entry of peer `p` stands, if it is blocked.
    fn find_blocked(&self, p: &str) -> (r: Option<usize>)
        ensures
            match r {
                Some(i) => i < self.blocked_peers@.len() && self.blocked_peers@[i as int].peer_id@ == p@,
                None => !lists_peer(block_views(self.blocked_peers@), p@),
            },
    {
        let mut i: usize = 0;
        while i < self.blocked_peers.len()
            invariant
                i <= self.blocked_peers@.len(),
                forall|j: int| 0 <= j < i ==> self.blocked_peers@[j].peer_id@ != p@,
            decreases self.blocked_peers@.len() - i,
        {
            if same_text(self.blocked_peers[i].peer_id.as_str(), p) {
                return Some(i);
            }
            i = i + 1;
        }
        proof {
            if lists_peer(block_views(self.blocked_peers@), p@) {
                let j = choose|j: int|
                    0 <= j < block_views(self.blocked_peers@).len() && block_views(self.blocked_peers@)[j].peer_id
                        == p@;
                assert(self.blocked_peers@[j].peer_id@ == p@);
            }
        }
        None
    }

    /// Block peer `p` for `reason` at time `now` (seconds since the Unix
    /// epoch), replacing an earlier entry for it.
    pub fn block_peer_at(&mut self, peer_id: &str, reason: Option<String>, now: u64)
        requires
            old(self).well_formed(),
        ensures
            final(self).well_formed(),
            final(self).blocked() == old(self).blocked().insert(
                peer_id@,
                block_view(peer_id@, opt_chars(reason), now),
            ),
            final(self).whitelisted() == old(self).whitelisted(),
            final(self).flag_list() == old(self).flag_list(),
            final(self).settings() == old(self).settings(),
    {
        let entry = BlockEntry { peer_id: String::from_str(peer_id), reason, blocked_at: now };
        let ghost e = entry@;
        assert(e == block_view(peer_id@, opt_chars(reason), now));
        let ghost before = block_views(self.blocked_peers@);
        match self.find_blocked(peer_id) {
            Some(i) => {
                self.blocked_peers.set(i, entry);
                proof {
                    assert(block_views(self.blocked_peers@) =~= before.update(i as int, e));
                    lemma_peer_map_update(before, i as int, e);
                }
            },
            None => {
                self.blocked_peers.push(entry);
                proof {
                    assert(block_views(self.blocked_peers@) =~= before.push(e));
                    lemma_peer_map_push(before, e);
                }
            },
        }
    }

    /// Block peer `p` for `reason`, now.
    pub fn block_peer(&mut self, peer_id: &str, reason: Option<String>)
        requires
            old(self).well_formed(),
        ensures
            final(self).well_formed(),
            exists|t: u64| final(self).blocked() == old(self).blocked().insert(
                peer_id@,
                #[trigger] block_view(peer_id@, opt_chars(reason), t),
            ),
            final(self).whitelisted() == old(self).whitelisted(),
            final(self).flag_list() == old(self).flag_list(),
            final(self).settings() == old(self).settings(),
    {
        let now = now_unix();
        self.block_peer_at(peer_id, reason, now);
    }

    /// Unblock peer `p`; whether it was blocked.
    pub fn unblock_peer(&mut self, peer_id: &str) -> (r: bool)
        requires
            old(self).well_formed(),
        ensures
            final(self).well_formed(),
            r == old(self).blocked().dom().contains(peer_id@),
            final(self).blocked() == old(self).blocked().remove(peer_id@),
            final(self).whitelisted() == old(self).whitelisted(),
            final(self).flag_list() == old(self).flag_list(),
            final(self).settings() == old(self).settings(),
    {
        let ghost before = block_views(self.blocked_peers@);
        match self.find_blocked(peer_id) {
            Some(i) => {
                self.blocked_peers.remove(i);
                proof {
                    assert(block_views(self.blocked_peers@) =~= before.remove(i as int));
                    lemma_peer_map_remove(before, i as int);
                    assert(before[i as int].peer_id == peer_id@);
                    assert(lists_peer(before, peer_id@));
                }
                true
            },
            None => {
                assert(old(self).blocked().remove(peer_id@) =~= old(self).blocked());
                false
            },
        }
    }

    /// Whether peer `p` may connect: it is not blocked and, in
    /// whitelist-only mode, it is whitelisted.
    pub fn is_peer_allowed(&self, peer_id: &str) -> (r: bool)
        ensures
            r == peer_allowed(self.blocked(), self.whitelisted(), self.whitelist_only(), peer_id@),
    {
        match self.find_blocked(peer_id) {
            Some(i) => {
                assert(block_views(self.blocked_peers@)[i as int].peer_id == peer_id@);
                return false;
            },
            None => {},
        }
        if self.config.whitelist_only {
            return self.find_whitelisted(peer_id).is_some();
        }
        true
    }

    /// The blocked peers, one entry each.
    pub fn blocked_peers(&self) -> (r: Vec<BlockEntry>)
        requires
            self.well_formed(),
        ensures
            unique_peers(block_views(r@)),
            peer_map(block_views(r@)) == self.blocked(),
    {
        let mut r: Vec<BlockEntry> = Vec::new();
        let mut i: usize = 0;
        while i < self.blocked_peers.len()
            invariant
                i <= self.blocked_peers@.len(),
                block_views(r@) == block_views(self.blocked_peers@).subrange(0, i as int),
            decreases self.blocked_peers@.len() - i,
        {
            let e = self.blocked_peers[i].duplicate();
            let ghost before = block_views(r@);
            r.push(e);
            assert(block_views(r@) =~= before.push(e@));
            i = i + 1;
            assert(block_views(r@) =~= block_views(self.blocked_peers@).subrange(0, i as int));
        }
        assert(block_views(r@) =~= block_views(self.blocked_peers@));
        r
    }

    /// Where peer `p` stands in the whitelist, if it is there.
    fn find_whitelisted(&self, p: &str) -> (r: Option<usize>)
        ensures
            match r {
                Some(i) => i < self.whitelist@.len() && self.whitelist@[i as int]@ == p@,
                None => !self.whitelisted().contains(p@),
            },
            r is Some <==> self.whitelisted().contains(p@),
    {
        let mut i: usize = 0;
        while i < self.whitelist.len()
            invariant
                i <= self.whitelist@.len(),
                forall|j: int| 0 <= j < i ==> self.whitelist@[j]@ != p@,
            decreases self.whitelist@.len() - i,
        {
            if same_text(self.whitelist[i].as_str(), p) {
                assert(texts(self.whitelist@)[i as int] == p@);
                return Some(i);
            }
            i = i + 1;
        }
        proof {
            if texts(self.whitelist@).contains(p@) {
                let j = choose|j: int| 0 <= j < texts(self.whitelist@).len() && texts(self.whitelist@)[j] == p@;
                assert(self.whitelist@[j]@ == p@);
            }
        }
        None
    }

    /// Whitelist peer `p`.
    pub fn whitelist_peer(&mut self, peer_id: &str)
        requires
            old(self).well_formed(),
        ensures
            final(self).well_formed(),
            final(self).whitelisted() == old(self).whitelisted().insert(peer_id@),
            final(self).blocked() == old(self).blocked(),
            final(self).flag_list() == old(self).flag_list(),
            final(self).settings() == old(self).settings(),
    {
        if self.find_whitelisted(peer_id).is_none() {
            let ghost before = texts(self.whitelist@);
            self.whitelist.push(String::from_str(peer_id));
            proof {
                assert(texts(self.whitelist@) =~= before.push(peer_id@));
                before.lemma_push_to_set_commute(peer_id@);
            }
        } else {
            assert(old(self).whitelisted().insert(peer_id@) =~= old(self).whitelisted());
        }
    }

    /// Take peer `p` off the whitelist; whether it was on it.
    pub fn remove_whitelist(&mut self, peer_id: &str) -> (r: bool)
        requires
            old(self).well_formed(),
        ensures
            final(self).well_formed(),
            r == old(self).whitelisted().contains(peer_id@),
            final(self).whitelisted() == old(self).whitelisted().remove(peer_id@),
            final(self).blocked() == old(self).blocked(),
            final(self).flag_list() == old(self).flag_list(),
            final(self).settings() == old(self).settings(),
    {
        match self.find_whitelisted(peer_id) {
            Some(i) => {
                let ghost before = texts(self.whitelist@);
                self.whitelist.remove(i);
                proof {
                    let after = texts(self.whitelist@);
                    assert(after =~= before.remove(i as int));
                    assert(before[i as int] == peer_id@);
                    assert forall|a: int, b: int| 0 <= a < b < after.len() implies after[a] != after[b] by {
                        let a2 = if a < i { a } else { a + 1 };
                        let b2 = if b < i { b } else { b + 1 };
                        assert(after[a] == before[a2] && after[b] == before[b2]);
                    }
                    assert forall|x: Seq<char>| after.contains(x) == (before.contains(x) && x != peer_id@) by {
                        if after.contains(x) {
                            let j = choose|j: int| 0 <= j < after.len() && after[j] == x;
                            let j2 = if j < i { j } else { j + 1 };
                            assert(before[j2] == x);
                            assert(j2 != i);
                            assert(before[j2] != before[i as int]);
                        }
                        if before.contains(x) && x != peer_id@ {
                            let j = choose|j: int| 0 <= j < before.len() && before[j] == x;
                            assert(j != i);
                            if j < i {
                                assert(after[j] == x);
                            } else {
                                assert(after[j - 1] == x);
                            }
                        }
                    }
                    assert(after.to_set() =~= before.to_set().remove(peer_id@));
                }
                true
            },
            None => {
                assert(old(self).whitelisted().remove(peer_id@) =~= old(self).whitelisted());
                false
            },
        }
    }

    /// Flag stream `s` at time `now` (seconds since the Unix epoch).
    pub fn flag_stream_at(
        &mut self,
        stream_id: &str,
        reason: FlagReason,
        details: Option<String>,
        reporter: Option<String>,
        now: u64,
    )
        requires
            old(self).well_formed(),
        ensures
            final(self).well_formed(),
            final(self).flag_list() == old(self).flag_list().push(
                FlagView {
                    stream_id: stream_id@,
                    reason: reason@,
                    details: opt_chars(details),
                    reporter: opt_chars(reporter),
                    flagged_at: now,
                },
            ),
            final(self).blocked() == old(self).blocked(),
            final(self).whitelisted() == old(self).whitelisted(),
            final(self).settings() == old(self).settings(),
    {
        let entry = FlagEntry { stream_id: String::from_str(stream_id), reason, details, reporter, flagged_at: now };
        let ghost before = flag_views(self.flags@);
        self.flags.push(entry);
        assert(flag_views(self.flags@) =~= before.push(entry@));
    }

    /// Flag stream `s`, now.
    pub fn flag_stream(
        &mut self,
        stream_id: &str,
        reason: FlagReason,
        details: Option<String>,
        reporter: Option<String>,
    )
        requires
            old(self).well_formed(),
        ensures
            final(self).well_formed(),
            final(self).flag_list().len() == old(self).flag_list().len() + 1,
            final(self).flag_list().subrange(0, old(self).flag_list().len() as int) == old(self).flag_list(),
            ({
                let f = final(self).flag_list().last();
                &&& f.stream_id == stream_id@
                &&& f.reason == reason@
                &&& f.details == opt_chars(details)
                &&& f.reporter == opt_chars(reporter)
            }),
            final(self).blocked() == old(self).blocked(),
            final(self).whitelisted() == old(self).whitelisted(),
            final(self).settings() == old(self).settings(),
    {
        let now = now_unix();
        let ghost r = reason@;
        let ghost d = opt_chars(details);
        let ghost p = opt_chars(reporter);
        self.flag_stream_at(stream_id, reason, details, reporter, now);
        assert(final(self).flag_list().subrange(0, old(self).flag_list().len() as int) =~= old(self).flag_list());
    }

    /// Remove all flags for stream `s`; how many there were.
    pub fn unflag_stream(&mut self, stream_id: &str) -> (r: usize)
        requires
            old(self).well_formed(),
        ensures
            final(self).well_formed(),
            final(self).flag_list() == flags_without(old(self).flag_list(), stream_id@, old(self).flag_list().len() as int),
            r == old(self).flag_list().len() - final(self).flag_list().len(),
            r > 0 <==> has_flag(old(self).flag_list(), stream_id@),
            !has_flag(final(self).flag_list(), stream_id@),
            final(self).blocked() == old(self).blocked(),
            final(self).whitelisted() == old(self).whitelisted(),
            final(self).settings() == old(self).settings(),
    {
        let before = self.flags.len();
        let ghost fv = flag_views(self.flags@);
        let mut kept: Vec<FlagEntry> = Vec::new();
        let mut i: usize = 0;
        while i < self.flags.len()
            invariant
                i <= self.flags@.len(),
                fv == flag_views(self.flags@),
                flag_views(kept@) == flags_without(fv, stream_id@, i as int),
                kept@.len() <= i,
            decreases self.flags@.len() - i,
        {
            proof {
                lemma_flags_without_len(fv, stream_id@, i as int);
            }
            if !same_text(self.flags[i].stream_id.as_str(), stream_id) {
                let ghost k0 = flag_views(kept@);
                kept.push(self.flags[i].duplicate());
                assert(flag_views(kept@) =~= k0.push(fv[i as int]));
            }
            i = i + 1;
        }
        proof {
            lemma_flags_without_len(fv, stream_id@, fv.len() as int);
        }
        self.flags = kept;
        let removed = before - self.flags.len();
        proof {
            let after = flag_views(self.flags@);
            if has_flag(after, stream_id@) {
                let j = choose|j: int| 0 <= j < after.len() && after[j].stream_id == stream_id@;
                assert(flags_without(fv, stream_id@, fv.len() as int)[j].stream_id != stream_id@);
            }
        }
        removed
    }

    /// The flags, in the order they were made.
    pub fn flagged_streams(&self) -> (r: Vec<FlagEntry>)
        ensures
            flag_views(r@) == self.flag_list(),
    {
        let mut r: Vec<FlagEntry> = Vec::new();
        let mut i: usize = 0;
        while i < self.flags.len()
            invariant
                i <= self.flags@.len(),
                flag_views(r@) == flag_views(self.flags@).subrange(0, i as int),
            decreases self.flags@.len() - i,
        {
            let f = self.flags[i].duplicate();
            let ghost before = flag_views(r@);
            r.push(f);
            assert(flag_views(r@) =~= before.push(f@));
            i = i + 1;
            assert(flag_views(r@) =~= flag_views(self.flags@).subrange(0, i as int));
        }
        assert(flag_views(r@) =~= flag_views(self.flags@));
        r
    }

    /// Whether stream `s` is flagged.
    pub fn is_stream_flagged(&self, stream_id: &str) -> (r: bool)
        ensures
            r == has_flag(self.flag_list(), stream_id@),
    {
        let mut i: usize = 0;
        while i < self.flags.len()
            invariant
                i <= self.flags@.len(),
                forall|j: int| 0 <= j < i ==> self.flags@[j].stream_id@ != stream_id@,
            decreases self.flags@.len() - i,
        {
            if same_text(self.flags[i].stream_id.as_str(), stream_id) {
                assert(flag_views(self.flags@)[i as int].stream_id == stream_id@);
                return true;
            }
            i = i + 1;
        }
        proof {
            if has_flag(self.flag_list(), stream_id@) {
                let j = choose|j: int| 0 <= j < self.flag_list().len() && self.flag_list()[j].stream_id == stream_id@;
                assert(self.flags@[j].stream_id@ == stream_id@);
            }
        }
        false
    }

    /// Merge a shared list into the state: its blocked peers replace the
    /// entries for the same peers, its whitelisted peers are added, its
    /// flags are added after the present ones.
    pub fn import_list(&mut self, list: ModerationList)
        requires
            old(self).well_formed(),
        ensures
            final(self).well_formed(),
            final(self).blocked() == merged(
                old(self).blocked(),
                block_views(list.blocked_peers@),
                list.blocked_peers@.len() as int,
            ),
            final(self).whitelisted() == old(self).whitelisted() + texts(list.whitelisted_peers@).to_set(),
            final(self).flag_list() == old(self).flag_list() + flag_views(list.flagged_streams@),
            final(self).settings() == old(self).settings(),
    {
        let ghost lb = block_views(list.blocked_peers@);
        let mut i: usize = 0;
        while i < list.blocked_peers.len()
            invariant
                i <= list.blocked_peers@.len(),
                lb == block_views(list.blocked_peers@),
                self.well_formed(),
                self.blocked() == merged(old(self).blocked(), lb, i as int),
                self.whitelisted() == old(self).whitelisted(),
                self.flag_list() == old(self).flag_list(),
                self.settings() == old(self).settings(),
            decreases list.blocked_peers@.len() - i,
        {
            let e = list.blocked_peers[i].duplicate();
            self.put_entry(e);
            i = i + 1;
        }
        let ghost lw = texts(list.whitelisted_peers@);
        let mut j: usize = 0;
        while j < list.whitelisted_peers.len()
            invariant
                j <= list.whitelisted_peers@.len(),
                lw == texts(list.whitelisted_peers@),
                self.well_formed(),
                self.blocked() == merged(old(self).blocked(), lb, lb.len() as int),
                self.whitelisted() == old(self).whitelisted() + lw.subrange(0, j as int).to_set(),
                self.flag_list() == old(self).flag_list(),
                self.settings() == old(self).settings(),
            decreases list.whitelisted_peers@.len() - j,
        {
            let ghost w0 = self.whitelisted();
            self.whitelist_peer(list.whitelisted_peers[j].as_str());
            proof {
                assert(lw.subrange(0, j + 1) =~= lw.subrange(0, j as int).push(lw[j as int]));
                lw.subrange(0, j as int).lemma_push_to_set_commute(lw[j as int]);
                assert(self.whitelisted() =~= old(self).whitelisted() + lw.subrange(0, j + 1).to_set());
            }
            j = j + 1;
        }
        assert(lw.subrange(0, lw.len() as int) =~= lw);
        let mut k: usize = 0;
        let ghost lf = flag_views(list.flagged_streams@);
        while k < list.flagged_streams.len()
            invariant
                k <= list.flagged_streams@.len(),
                lf == flag_views(list.flagged_streams@),
                self.well_formed(),
                self.blocked() == merged(old(self).blocked(), lb, lb.len() as int),
                self.whitelisted() == old(self).whitelisted() + lw.to_set(),
                self.flag_list() == old(self).flag_list() + lf.subrange(0, k as int),
                self.settings() == old(self).settings(),
            decreases list.flagged_streams@.len() - k,
        {
            let f = list.flagged_streams[k].duplicate();
            let ghost before = flag_views(self.flags@);
            self.flags.push(f);
            proof {
                assert(flag_views(self.flags@) =~= before.push(lf[k as int]));
                assert(lf.subrange(0, k + 1) =~= lf.subrange(0, k as int).push(lf[k as int]));
                assert(old(self).flag_list() + lf.subrange(0, k + 1) =~= (old(self).flag_list() + lf.subrange(
                    0,
                    k as int,
                )).push(lf[k as int]));
            }
            k = k + 1;
        }
        assert(lf.subrange(0, lf.len() as int) =~= lf);
    }

    /// Put an entry in, replacing the entry for the same peer.
    fn put_entry(&mut self, e: BlockEntry)
        requires
            old(self).well_formed(),
        ensures
            final(self).well_formed(),
            final(self).blocked() == old(self).blocked().insert(e@.peer_id, e@),
            final(self).whitelisted() == old(self).whitelisted(),
            final(self).flag_list() == old(self).flag_list(),
            final(self).settings() == old(self).settings(),
    {
        let ghost ev = e@;
        let ghost before = block_views(self.blocked_peers@);
        match self.find_blocked(e.peer_id.as_str()) {
            Some(i) => {
                self.blocked_peers.set(i, e);
                proof {
                    assert(block_views(self.blocked_peers@) =~= before.update(i as int, ev));
                    lemma_peer_map_update(before, i as int, ev);
                }
            },
            None => {
                self.blocked_peers.push(e);
                proof {
                    assert(block_views(self.blocked_peers@) =~= before.push(ev));
                    lemma_peer_map_push(before, ev);
                }
            },
        }
    }

    /// The state as a list to share, made at time `now`: version 1, no node
    /// named, one entry per blocked peer, each whitelisted peer once, the
    /// flags in order.
    pub fn export_list_at(&self, now: u64) -> (r: ModerationList)
        requires
            self.well_formed(),
        ensures
            r.version == 1,
            r.node_id is None,
            r.created_at == now,
            unique_peers(block_views(r.blocked_peers@)),
            peer_map(block_views(r.blocked_peers@)) == self.blocked(),
            texts(r.whitelisted_peers@).no_duplicates(),
            texts(r.whitelisted_peers@).to_set() == self.whitelisted(),
            flag_views(r.flagged_streams@) == self.flag_list(),
    {
        let blocked = self.blocked_peers();
        let mut whitelisted: Vec<String> = Vec::new();
        let mut i: usize = 0;
        while i < self.whitelist.len()
            invariant
                i <= self.whitelist@.len(),
                texts(whitelisted@) == texts(self.whitelist@).subrange(0, i as int),
            decreases self.whitelist@.len() - i,
        {
            let w = self.whitelist[i].clone();
            let ghost before = texts(whitelisted@);
            whitelisted.push(w);
            assert(texts(whitelisted@) =~= before.push(w@));
            i = i + 1;
            assert(texts(whitelisted@) =~= texts(self.whitelist@).subrange(0, i as int));
        }
        assert(texts(whitelisted@) =~= texts(self.whitelist@));
        ModerationList {
            version: 1,
            node_id: None,
            created_at: now,
            blocked_peers: blocked,
            whitelisted_peers: whitelisted,
            flagged_streams: self.flagged_streams(),
        }
    }

    /// The state as a list to share, made now.
    pub fn export_list(&self) -> (r: ModerationList)
        requires
            self.well_formed(),
        ensures
            r.version == 1,
            r.node_id is None,
            unique_peers(block_views(r.blocked_peers@)),
            peer_map(block_views(r.blocked_peers@)) == self.blocked(),
            texts(r.whitelisted_peers@).no_duplicates(),
            texts(r.whitelisted_peers@).to_set() == self.whitelisted(),
            flag_views(r.flagged_streams@) == self.flag_list(),
    {
        let now = now_unix();
        self.export_list_at(now)
    }
}

} // verus!
