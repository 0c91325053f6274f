//! Entries of the moderation state and the list format shared between
//! nodes.
use vstd::prelude::*;

verus! {

/// The text of an optional string.
pub open spec fn opt_chars(o: Option<String>) -> Option<Seq<char>> {
    match o {
        Some(s) => Some(s@),
        None => None,
    }
}

/// A copy of an optional string.
pub fn copy_opt(o: &Option<String>) -> (r: Option<String>)
    ensures
        opt_chars(r) == opt_chars(*o),
{
    match o {
        Some(s) => Some(s.clone()),
        None => None,
    }
}

/// A blocked peer.
#[derive(Debug, Clone)]
pub struct BlockEntry {
    /// The peer that is blocked.
    pub peer_id: String,
    /// Why it was blocked.
    pub reason: Option<String>,
    /// When it was blocked (seconds since the Unix epoch).
    pub blocked_at: u64,
}

/// A blocked peer as values.
pub struct BlockView {
    pub peer_id: Seq<char>,
    pub reason: Option<Seq<char>>,
    pub blocked_at: u64,
}

impl View for BlockEntry {
    type V = BlockView;

    open spec fn view(&self) -> BlockView {
        BlockView { peer_id: self.peer_id@, reason: opt_chars(self.reason), blocked_at: self.blocked_at }
    }
}

impl BlockEntry {
    /// A copy of the entry.
    pub fn duplicate(&self) -> (r: Self)
        ensures
            r@ == self@,
    {
        BlockEntry { peer_id: self.peer_id.clone(), reason: copy_opt(&self.reason), blocked_at: self.blocked_at }
    }
}

/// Why a stream was flagged.
#[derive(Debug, Clone)]
pub enum FlagReason {
    /// Unsolicited or repeated content.
    Spam,
    /// Content against community standards.
    Inappropriate,
    /// Content that infringes copyright.
    Copyright,
    /// Harassment or abuse.
    Abuse,
    /// Another reason, described.
    Other(String),
}

/// A reason as values.
pub enum ReasonView {
    Spam,
    Inappropriate,
    Copyright,
    Abuse,
    Other(Seq<char>),
}

impl View for FlagReason {
    type V = ReasonView;

    open spec fn view(&self) -> ReasonView {
        match self {
            FlagReason::Spam => ReasonView::Spam,
            FlagReason::Inappropriate => ReasonView::Inappropriate,
            FlagReason::Copyright => ReasonView::Copyright,
            FlagReason::Abuse => ReasonView::Abuse,
            FlagReason::Other(s) => ReasonView::Other(s@),
        }
    }
}

/// The text of a reason.
pub open spec fn reason_text(r: ReasonView) -> Seq<char> {
    match r {
        ReasonView::Spam => "Spam"@,
        ReasonView::Inappropriate => "Inappropriate"@,
        ReasonView::Copyright => "Copyright"@,
        ReasonView::Abuse => "Abuse"@,
        ReasonView::Other(s) => "Other: "@ + s,
    }
}

impl FlagReason {
    /// A copy of the reason.
    pub fn duplicate(&self) -> (r: Self)
        ensures
            r@ == self@,
    {
        match self {
            FlagReason::Spam => FlagReason::Spam,
            FlagReason::Inappropriate => FlagReason::Inappropriate,
            FlagReason::Copyright => FlagReason::Copyright,
            FlagReason::Abuse => FlagReason::Abuse,
            FlagReason::Other(s) => FlagReason::Other(s.clone()),
        }
    }

    /// The text of the reason.
    pub fn to_string(&self) -> (r: String)
        ensures
            r@ == reason_text(self@),
    {
        match self {
            FlagReason::Spam => String::from_str("Spam"),
            FlagReason::Inappropriate => String::from_str("Inappropriate"),
            FlagReason::Copyright => String::from_str("Copyright"),
            FlagReason::Abuse => String::from_str("Abuse"),
            FlagReason::Other(s) => {
                let mut t = String::from_str("Other: ");
                t.append(s.as_str());
                t
            },
        }
    }
}

/// A flagged stream.
#[derive(Debug, Clone)]
pub struct FlagEntry {
    /// The stream that was flagged.
    pub stream_id: String,
    /// Why.
    pub reason: FlagReason,
    /// More about the flag.
    pub details: Option<String>,
    /// Who reported it.
    pub reporter: Option<String>,
    /// When it was flagged (seconds since the Unix epoch).
    pub flagged_at: u64,
}

/// A flag as values.
pub struct FlagView {
    pub stream_id: Seq<char>,
    pub reason: ReasonView,
    pub details: Option<Seq<char>>,
    pub reporter: Option<Seq<char>>,
    pub flagged_at: u64,
}

impl View for FlagEntry {
    type V = FlagView;

    open spec fn view(&self) -> FlagView {
        FlagView {
            stream_id: self.stream_id@,
            reason: self.reason@,
            details: opt_chars(self.details),
            reporter: opt_chars(self.reporter),
            flagged_at: self.flagged_at,
        }
    }
}

impl FlagEntry {
    /// A copy of the entry.
    pub fn duplicate(&self) -> (r: Self)
        ensures
            r@ == self@,
    {
        FlagEntry {
            stream_id: self.stream_id.clone(),
            reason: self.reason.duplicate(),
            details: copy_opt(&self.details),
            reporter: copy_opt(&self.reporter),
            flagged_at: self.flagged_at,
        }
    }
}

/// The views of some blocked peers.
pub open spec fn block_views(v: Seq<BlockEntry>) -> Seq<BlockView> {
    v.map_values(|e: BlockEntry| e@)
}

/// The views of some flags.
pub open spec fn flag_views(v: Seq<FlagEntry>) -> Seq<FlagView> {
    v.map_values(|e: FlagEntry| e@)
}

/// The texts of some strings.
pub open spec fn texts(v: Seq<String>) -> Seq<Seq<char>> {
    v.map_values(|s: String| s@)
}

/// A moderation list to share between nodes.
#[derive(Debug, Clone)]
pub struct ModerationList {
    /// Version of the list format.
    pub version: u32,
    /// Node that made the list.
    pub node_id: Option<String>,
    /// When the list was made (seconds since the Unix epoch).
    pub created_at: u64,
    /// Blocked peers.
    pub blocked_peers: Vec<BlockEntry>,
    /// Whitelisted peers.
    pub whitelisted_peers: Vec<String>,
    /// Flagged streams.
    pub flagged_streams: Vec<FlagEntry>,
}

impl Default for ModerationList {
    fn default() -> (r: Self)
        ensures
            r.version == 1,
            r.node_id is None,
            r.created_at == 0,
            r.blocked_peers@.len() == 0,
            r.whitelisted_peers@.len() == 0,
            r.flagged_streams@.len() == 0,
    {
        ModerationList {
            version: 1,
            node_id: None,
            created_at: 0,
            blocked_peers: Vec::new(),
            whitelisted_peers: Vec::new(),
            flagged_streams: Vec::new(),
        }
    }
}

} // verus!
