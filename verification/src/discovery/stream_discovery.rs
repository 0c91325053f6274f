//! Announcements of live streams, as publishers send them to the network.
//!
//! An announcement names the stream, its title, its publisher and its
//! codecs, and expires `ttl_secs` seconds after it was made.
use vstd::prelude::*;
use crate::clock::now_unix;
use crate::text::{contains_text, decimal, has_substring, push_decimal, same_text};

verus! {

/// Topic that announcements are published on.
pub const STREAM_ANNOUNCE_TOPIC: &'static str = "obn/streams/announce";

/// How long an announcement lives by default (seconds).
pub const DEFAULT_ANNOUNCEMENT_TTL_SECS: u64 = 300;

/// A stream announced to the network.
#[derive(Debug, Clone)]
pub struct StreamAnnouncement {
    /// Identifier of the stream.
    pub stream_id: String,
    /// Title of the stream.
    pub title: String,
    /// Identifier of the publishing peer.
    pub publisher_id: Vec<u8>,
    /// Video codec (such as `h264`).
    pub video_codec: Option<String>,
    /// Audio codec (such as `aac`).
    pub audio_codec: Option<String>,
    /// Video width in pixels.
    pub video_width: Option<u32>,
    /// Video height in pixels.
    pub video_height: Option<u32>,
    /// When the stream started (seconds since the Unix epoch).
    pub started_at: u64,
    /// When the announcement was made (seconds since the Unix epoch).
    pub announced_at: u64,
    /// How long the announcement lives (seconds).
    pub ttl_secs: u64,
    /// Further key-value pairs.
    pub metadata: Vec<(String, String)>,
}

/// The key-value pairs as texts.
pub open spec fn meta_texts(m: Seq<(String, String)>) -> Seq<(Seq<char>, Seq<char>)> {
    m.map_values(|kv: (String, String)| (kv.0@, kv.1@))
}

/// Where the first pair with key `k` stands, from `j` on.
pub open spec fn key_at(m: Seq<(Seq<char>, Seq<char>)>, k: Seq<char>, j: int) -> Option<int>
    decreases m.len() - j,
{
    if j < 0 || j >= m.len() {
        None
    } else if m[j].0 == k {
        Some(j)
    } else {
        key_at(m, k, j + 1)
    }
}

/// A pair found by [`key_at`] is in range and has the key.
proof fn lemma_key_at(m: Seq<(Seq<char>, Seq<char>)>, k: Seq<char>, j: int)
    ensures
        key_at(m, k, j) matches Some(i) ==> j <= i < m.len() && m[i].0 == k,
    decreases m.len() - j,
{
    if 0 <= j < m.len() && m[j].0 != k {
        lemma_key_at(m, k, j + 1);
    }
}

/// The pairs after setting key `k` to `v`: the first pair with that key
/// gets the value, else the pair is added.
pub open spec fn meta_set(m: Seq<(Seq<char>, Seq<char>)>, k: Seq<char>, v: Seq<char>) -> Seq<
    (Seq<char>, Seq<char>),
> {
    match key_at(m, k, 0) {
        Some(i) => m.update(i, (k, v)),
        None => m.push((k, v)),
    }
}

/// The text of an optional string.
pub open spec fn opt_text(o: Option<String>) -> Option<Seq<char>> {
    match o {
        Some(s) => Some(s@),
        None => None,
    }
}

/// The codecs part of a summary.
pub open spec fn codec_info(video: Option<Seq<char>>, audio: Option<Seq<char>>) -> Seq<char> {
    match (video, audio) {
        (Some(v), Some(a)) => v + "/"@ + a,
        (Some(v), None) => v + "/none"@,
        (None, Some(a)) => "none/"@ + a,
        (None, None) => "unknown"@,
    }
}

/// The resolution part of a summary.
pub open spec fn resolution_info(width: Option<u32>, height: Option<u32>) -> Seq<char> {
    match (width, height) {
        (Some(w), Some(h)) => decimal(w as nat) + "x"@ + decimal(h as nat),
        _ => "unknown"@,
    }
}

/// An announcement as values.
pub struct AnnView {
    pub stream_id: Seq<char>,
    pub title: Seq<char>,
    pub publisher_id: Seq<u8>,
    pub video_codec: Option<Seq<char>>,
    pub audio_codec: Option<Seq<char>>,
    pub video_width: Option<u32>,
    pub video_height: Option<u32>,
    pub started_at: u64,
    pub announced_at: u64,
    pub ttl_secs: u64,
    pub metadata: Seq<(Seq<char>, Seq<char>)>,
}

impl View for StreamAnnouncement {
    type V = AnnView;

    open spec fn view(&self) -> AnnView {
        AnnView {
            stream_id: self.stream_id@,
            title: self.title@,
            publisher_id: self.publisher_id@,
            video_codec: opt_text(self.video_codec),
            audio_codec: opt_text(self.audio_codec),
            video_width: self.video_width,
            video_height: self.video_height,
            started_at: self.started_at,
            announced_at: self.announced_at,
            ttl_secs: self.ttl_secs,
            metadata: meta_texts(self.metadata@),
        }
    }
}

/// A copy of an optional string.
fn copy_opt_text(o: &Option<String>) -> (r: Option<String>)
    ensures
        opt_text(r) == opt_text(*o),
{
    match o {
        Some(s) => Some(s.clone()),
        None => None,
    }
}

impl StreamAnnouncement {
    /// An announcement of stream `stream_id` by `publisher_id`, made at
    /// time `now` (seconds since the Unix epoch), with no codecs, the default
    /// lifetime and no further pairs.
    pub fn new_at(stream_id: String, title: String, publisher_id: &[u8], now: u64) -> (r: Self)
        ensures
            r.stream_id == stream_id,
            r.title == title,
            r.publisher_id@ == publisher_id@,
            r.video_codec is None,
            r.audio_codec is None,
            r.video_width is None,
            r.video_height is None,
            r.started_at == now,
            r.announced_at == now,
            r.ttl_secs == DEFAULT_ANNOUNCEMENT_TTL_SECS,
            r.metadata@.len() == 0,
    {
        StreamAnnouncement {
            stream_id,
            title,
            publisher_id: crate::bytes_be::copy_range(publisher_id, 0, publisher_id.len()),
            video_codec: None,
            audio_codec: None,
            video_width: None,
            video_height: None,
            started_at: now,
            announced_at: now,
            ttl_secs: DEFAULT_ANNOUNCEMENT_TTL_SECS,
            metadata: Vec::new(),
        }
    }

    /// An announcement made now.
    pub fn new(stream_id: String, title: String, publisher_id: &[u8]) -> (r: Self)
        ensures
            r.stream_id == stream_id,
            r.title == title,
            r.publisher_id@ == publisher_id@,
            r.video_codec is None,
            r.audio_codec is None,
            r.video_width is None,
            r.video_height is None,
            r.started_at == r.announced_at,
            r.ttl_secs == DEFAULT_ANNOUNCEMENT_TTL_SECS,
            r.metadata@.len() == 0,
    {
        let now = now_unix();
        Self::new_at(stream_id, title, publisher_id, now)
    }

    /// A copy of the announcement.
    pub fn duplicate(&self) -> (r: Self)
        ensures
            r@ == self@,
    {
        let mut metadata: Vec<(String, String)> = Vec::new();
        let mut i: usize = 0;
        while i < self.metadata.len()
            invariant
                i <= self.metadata@.len(),
                meta_texts(metadata@) == meta_texts(self.metadata@).subrange(0, i as int),
            decreases self.metadata@.len() - i,
        {
            let ghost before = meta_texts(metadata@);
            let kv = (self.metadata[i].0.clone(), self.metadata[i].1.clone());
            metadata.push(kv);
            assert(meta_texts(metadata@) =~= before.push((kv.0@, kv.1@)));
            i = i + 1;
            assert(meta_texts(metadata@) =~= meta_texts(self.metadata@).subrange(0, i as int));
        }
        assert(meta_texts(metadata@) =~= meta_texts(self.metadata@));
        let publisher_id = crate::bytes_be::copy_range(self.publisher_id.as_slice(), 0, self.publisher_id.len());
        assert(publisher_id@ =~= self.publisher_id@);
        StreamAnnouncement {
            stream_id: self.stream_id.clone(),
            title: self.title.clone(),
            publisher_id,
            video_codec: copy_opt_text(&self.video_codec),
            audio_codec: copy_opt_text(&self.audio_codec),
            video_width: self.video_width,
            video_height: self.video_height,
            started_at: self.started_at,
            announced_at: self.announced_at,
            ttl_secs: self.ttl_secs,
            metadata,
        }
    }

    /// The announcement with video codec and size.
    pub fn with_video(self, codec: &str, width: u32, height: u32) -> (r: Self)
        ensures
            r.video_codec matches Some(c) && c@ == codec@,
            r.video_width == Some(width),
            r.video_height == Some(height),
            r.stream_id == self.stream_id,
            r.title == self.title,
            r.publisher_id == self.publisher_id,
            r.audio_codec == self.audio_codec,
            r.started_at == self.started_at,
            r.announced_at == self.announced_at,
            r.ttl_secs == self.ttl_secs,
            r.metadata == self.metadata,
    {
        let mut s = self;
        s.video_codec = Some(String::from_str(codec));
        s.video_width = Some(width);
        s.video_height = Some(height);
        s
    }

    /// The announcement with audio codec.
    pub fn with_audio(self, codec: &str) -> (r: Self)
        ensures
            r.audio_codec matches Some(c) && c@ == codec@,
            r.stream_id == self.stream_id,
            r.title == self.title,
            r.publisher_id == self.publisher_id,
            r.video_codec == self.video_codec,
            r.video_width == self.video_width,
            r.video_height == self.video_height,
            r.started_at == self.started_at,
            r.announced_at == self.announced_at,
            r.ttl_secs == self.ttl_secs,
            r.metadata == self.metadata,
    {
        let mut s = self;
        s.audio_codec = Some(String::from_str(codec));
        s
    }

    /// The announcement with `key` set to `value`.
    pub fn with_metadata(self, key: &str, value: &str) -> (r: Self)
        ensures
            meta_texts(r.metadata@) == meta_set(meta_texts(self.metadata@), key@, value@),
            r.stream_id == self.stream_id,
            r.title == self.title,
            r.publisher_id == self.publisher_id,
            r.video_codec == self.video_codec,
            r.audio_codec == self.audio_codec,
            r.video_width == self.video_width,
            r.video_height == self.video_height,
            r.started_at == self.started_at,
            r.announced_at == self.announced_at,
            r.ttl_secs == self.ttl_secs,
    {
        let mut s = self;
        let ghost m = meta_texts(s.metadata@);
        let pair = (String::from_str(key), String::from_str(value));
        match s.find_key(key) {
            Some(i) => {
                s.metadata.set(i, pair);
                assert(meta_texts(s.metadata@) =~= m.update(i as int, (key@, value@)));
            },
            None => {
                s.metadata.push(pair);
                assert(meta_texts(s.metadata@) =~= m.push((key@, value@)));
            },
        }
        s
    }

    /// Where the first pair with key `key` stands.
    fn find_key(&self, key: &str) -> (r: Option<usize>)
        ensures
            match r {
                Some(i) => i < self.metadata@.len() && key_at(meta_texts(self.metadata@), key@, 0) == Some(i as int),
                None => key_at(meta_texts(self.metadata@), key@, 0) is None,
            },
    {
        let ghost m = meta_texts(self.metadata@);
        let mut i: usize = 0;
        while i < self.metadata.len()
            invariant
                i <= self.metadata@.len(),
                m == meta_texts(self.metadata@),
                key_at(m, key@, 0) == key_at(m, key@, i as int),
            decreases self.metadata@.len() - i,
        {
            if same_text(self.metadata[i].0.as_str(), key) {
                assert(m[i as int].0 == key@);
                return Some(i);
            }
            i = i + 1;
        }
        None
    }

    /// The value of key `key`, from the first pair with that key.
    pub fn get_metadata(&self, key: &str) -> (r: Option<&String>)
        ensures
            match key_at(meta_texts(self.metadata@), key@, 0) {
                Some(i) => r matches Some(v) && v@ == meta_texts(self.metadata@)[i].1,
                None => r is None,
            },
    {
        match self.find_key(key) {
            Some(i) => {
                assert(meta_texts(self.metadata@)[i as int].1 == self.metadata@[i as int].1@);
                Some(&self.metadata[i].1)
            },
            None => None,
        }
    }

    /// Whether the announcement has expired at time `now`: more than
    /// `ttl_secs` seconds after it was made.
    pub fn is_expired_at(&self, now: u64) -> (r: bool)
        requires
            self.announced_at + self.ttl_secs <= u64::MAX,
        ensures
            r == (now > self.announced_at + self.ttl_secs),
    {
        now > self.announced_at + self.ttl_secs
    }

    /// Whether the announcement has expired now: the clock is read and
    /// handed to [`Self::is_expired_at`].
    pub fn is_expired(&self) -> (r: bool)
        requires
            self.announced_at + self.ttl_secs <= u64::MAX,
        ensures
            r ==> self.announced_at + self.ttl_secs < u64::MAX / 1_000_000,
    {
        let now = now_unix();
        self.is_expired_at(now)
    }

    /// A line describing the stream: `title [WxH] (video/audio)`.
    pub fn summary(&self) -> (r: String)
        ensures
            r@ == self.title@ + " ["@ + resolution_info(self.video_width, self.video_height) + "] ("@
                + codec_info(opt_text(self.video_codec), opt_text(self.audio_codec)) + ")"@,
    {
        let mut s = String::new();
        s.append(self.title.as_str());
        s.append(" [");
        match (self.video_width, self.video_height) {
            (Some(w), Some(h)) => {
                push_decimal(&mut s, w as u64);
                s.append("x");
                push_decimal(&mut s, h as u64);
            },
            _ => {
                s.append("unknown");
            },
        }
        s.append("] (");
        match (&self.video_codec, &self.audio_codec) {
            (Some(v), Some(a)) => {
                s.append(v.as_str());
                s.append("/");
                s.append(a.as_str());
            },
            (Some(v), None) => {
                s.append(v.as_str());
                s.append("/none");
            },
            (None, Some(a)) => {
                s.append("none/");
                s.append(a.as_str());
            },
            (None, None) => {
                s.append("unknown");
            },
        }
        s.append(")");
        assert(s@ =~= self.title@ + " ["@ + resolution_info(self.video_width, self.video_height) + "] ("@
            + codec_info(opt_text(self.video_codec), opt_text(self.audio_codec)) + ")"@);
        s
    }
}

/// Whether an announcement has not expired at time `now`.
pub open spec fn fresh(a: AnnView, now: u64) -> bool {
    !(now > a.announced_at + a.ttl_secs)
}

/// Whether no two announcements are for the same stream.
pub open spec fn unique_streams(s: Seq<AnnView>) -> bool {
    forall|i: int, j: int| 0 <= i < j < s.len() ==> s[i].stream_id != s[j].stream_id
}

/// Whether some announcement is for stream `id`.
pub open spec fn lists_stream(s: Seq<AnnView>, id: Seq<char>) -> bool {
    exists|i: int| 0 <= i < s.len() && s[i].stream_id == id
}

/// The announcements as a map from stream to announcement.
pub open spec fn stream_map(s: Seq<AnnView>) -> Map<Seq<char>, AnnView> {
    Map::new(
        |id: Seq<char>| lists_stream(s, id),
        |id: Seq<char>| s[choose|i: int| 0 <= i < s.len() && s[i].stream_id == id],
    )
}

/// The announcements among the first `k` that satisfy `keep`, in order.
pub open spec fn kept(s: Seq<AnnView>, keep: spec_fn(AnnView) -> bool, k: int) -> Seq<AnnView>
    decreases k,
{
    if k <= 0 {
        Seq::empty()
    } else if keep(s[k - 1]) {
        kept(s, keep, k - 1).push(s[k - 1])
    } else {
        kept(s, keep, k - 1)
    }
}

/// The entries of a map that satisfy `keep`.
pub open spec fn map_kept(m: Map<Seq<char>, AnnView>, keep: spec_fn(AnnView) -> bool) -> Map<
    Seq<char>,
    AnnView,
> {
    Map::new(|id: Seq<char>| m.dom().contains(id) && keep(m[id]), |id: Seq<char>| m[id])
}

/// Where an announcement kept comes from in the list.
proof fn lemma_kept_origin(s: Seq<AnnView>, keep: spec_fn(AnnView) -> bool, k: int, x: int) -> (y: int)
    requires
        0 <= k <= s.len(),
        0 <= x < kept(s, keep, k).len(),
    ensures
        0 <= y < k,
        kept(s, keep, k)[x] == s[y],
        keep(s[y]),
    decreases k,
{
    if k <= 0 {
        0
    } else {
        let p = kept(s, keep, k - 1);
        if keep(s[k - 1]) && x == p.len() {
            k - 1
        } else {
            lemma_kept_origin(s, keep, k - 1, x)
        }
    }
}

/// An announcement that satisfies `keep` is kept.
proof fn lemma_kept_listed(s: Seq<AnnView>, keep: spec_fn(AnnView) -> bool, k: int, y: int)
    requires
        0 <= y < k <= s.len(),
        keep(s[y]),
    ensures
        lists_stream(kept(s, keep, k), s[y].stream_id),
    decreases k,
{
    let p = kept(s, keep, k - 1);
    if y == k - 1 {
        assert(kept(s, keep, k)[p.len() as int] == s[y]);
    } else {
        lemma_kept_listed(s, keep, k - 1, y);
        let x = choose|x: int| 0 <= x < p.len() && p[x].stream_id == s[y].stream_id;
        assert(kept(s, keep, k)[x] == p[x]);
    }
}

/// Keeping some announcements of a list with one per stream keeps one per
/// stream.
proof fn lemma_kept_unique(s: Seq<AnnView>, keep: spec_fn(AnnView) -> bool, k: int)
    requires
        unique_streams(s),
        0 <= k <= s.len(),
    ensures
        unique_streams(kept(s, keep, k)),
    decreases k,
{
    if k > 0 {
        lemma_kept_unique(s, keep, k - 1);
        let p = kept(s, keep, k - 1);
        if keep(s[k - 1]) {
            let t = p.push(s[k - 1]);
            assert(kept(s, keep, k) == t);
            assert forall|a: int, b: int| 0 <= a < b < t.len() implies t[a].stream_id != t[b].stream_id by {
                if b == p.len() {
                    let y = lemma_kept_origin(s, keep, k - 1, a);
                    assert(s[y].stream_id != s[k - 1].stream_id);
                }
            }
        }
    }
}

/// The map of the announcements kept is the map of the list with only the
/// entries kept.
proof fn lemma_kept_map(s: Seq<AnnView>, keep: spec_fn(AnnView) -> bool)
    requires
        unique_streams(s),
    ensures
        unique_streams(kept(s, keep, s.len() as int)),
        stream_map(kept(s, keep, s.len() as int)) == map_kept(stream_map(s), keep),
{
    let t = kept(s, keep, s.len() as int);
    lemma_kept_unique(s, keep, s.len() as int);
    let m = stream_map(s);
    assert forall|id: Seq<char>| #[trigger] lists_stream(t, id) == (m.dom().contains(id) && keep(m[id])) by {
        if lists_stream(t, id) {
            let x = choose|x: int| 0 <= x < t.len() && t[x].stream_id == id;
            let y = lemma_kept_origin(s, keep, s.len() as int, x);
            assert(lists_stream(s, id));
            let z = choose|z: int| 0 <= z < s.len() && s[z].stream_id == id;
            assert(z == y);
        }
        if m.dom().contains(id) && keep(m[id]) {
            let z = choose|z: int| 0 <= z < s.len() && s[z].stream_id == id;
            lemma_kept_listed(s, keep, s.len() as int, z);
        }
    }
    assert forall|id: Seq<char>| #[trigger] lists_stream(t, id) implies stream_map(t)[id] == m[id] by {
        let x = choose|x: int| 0 <= x < t.len() && t[x].stream_id == id;
        let y = lemma_kept_origin(s, keep, s.len() as int, x);
        assert(lists_stream(s, id));
        let z = choose|z: int| 0 <= z < s.len() && s[z].stream_id == id;
        assert(z == y);
    }
    assert(stream_map(t) =~= map_kept(m, keep));
}

/// Adding an announcement for a stream not listed adds it to the map.
proof fn lemma_stream_map_push(s: Seq<AnnView>, e: AnnView)
    requires
        unique_streams(s),
        !lists_stream(s, e.stream_id),
    ensures
        unique_streams(s.push(e)),
        stream_map(s.push(e)) == stream_map(s).insert(e.stream_id, e),
{
    let t = s.push(e);
    assert forall|p: Seq<char>| #[trigger] lists_stream(t, p) == (lists_stream(s, p) || p == e.stream_id) by {
        if lists_stream(s, p) {
            let i = choose|i: int| 0 <= i < s.len() && s[i].stream_id == p;
            assert(t[i].stream_id == p);
        }
        if p == e.stream_id {
            assert(t[s.len() as int].stream_id == p);
        }
        if lists_stream(t, p) && p != e.stream_id {
            let i = choose|i: int| 0 <= i < t.len() && t[i].stream_id == p;
            assert(s[i].stream_id == p);
        }
    }
    assert forall|p: Seq<char>| #[trigger] lists_stream(t, p) implies stream_map(t)[p] == stream_map(
        s,
    ).insert(e.stream_id, e)[p] by {
        let i = choose|i: int| 0 <= i < t.len() && t[i].stream_id == p;
        if p == e.stream_id {
            assert(i == s.len());
        } else {
            let j = choose|j: int| 0 <= j < s.len() && s[j].stream_id == p;
            assert(t[j].stream_id == p);
            assert(i == j);
        }
    }
    assert(stream_map(t) =~= stream_map(s).insert(e.stream_id, e));
}

/// The announcements of the cache after setting `e`: replaced when its
/// stream is listed, else added.
pub open spec fn not_stream(id: Seq<char>) -> spec_fn(AnnView) -> bool {
    |a: AnnView| a.stream_id != id
}

/// Number of announcements among the first `k` not expired at `now`.
pub open spec fn fresh_count(s: Seq<AnnView>, now: u64, k: int) -> nat
    decreases k,
{
    if k <= 0 {
        0
    } else if fresh(s[k - 1], now) {
        fresh_count(s, now, k - 1) + 1
    } else {
        fresh_count(s, now, k - 1)
    }
}

/// The text that `str::to_lowercase` makes of some text.
pub uninterp spec fn lowercase(s: Seq<char>) -> Seq<char>;

/// Calls `str::to_lowercase`: the result is named by [`lowercase`].
#[verifier::external_body]
pub(crate) fn to_lowercase(s: &str) -> (r: String)
    ensures
        r@ == lowercase(s@),
{
    s.to_lowercase()
}

/// The views of some announcements.
pub open spec fn ann_views(v: Seq<StreamAnnouncement>) -> Seq<AnnView> {
    v.map_values(|a: StreamAnnouncement| a@)
}

/// Whether the lifetime of an announcement can be added to its time.
pub open spec fn ttl_fits(a: AnnView) -> bool {
    a.announced_at + a.ttl_secs <= u64::MAX
}

/// The announcements of the streams known to this node, with expiry,
/// and the streams this node announces itself.
pub struct StreamDiscovery {
    streams: Vec<StreamAnnouncement>,
    config: StreamDiscoveryConfig,
    is_running: bool,
    own_streams: Vec<StreamAnnouncement>,
}

impl StreamDiscovery {
    /// The announcements kept, by stream.
    pub closed spec fn cached(&self) -> Map<Seq<char>, AnnView> {
        stream_map(ann_views(self.streams@))
    }

    /// Number of announcements kept (one per stream).
    pub closed spec fn cached_count(&self) -> nat {
        self.streams@.len()
    }

    /// Number of announcements kept that have not expired at `now`.
    pub closed spec fn fresh_total(&self, now: u64) -> nat {
        fresh_count(ann_views(self.streams@), now, self.streams@.len() as int)
    }

    /// The streams this node announces, in the order they were announced.
    pub closed spec fn own(&self) -> Seq<AnnView> {
        ann_views(self.own_streams@)
    }

    /// The settings.
    pub closed spec fn settings(&self) -> StreamDiscoveryConfig {
        self.config
    }

    /// Whether the service runs.
    pub closed spec fn running(&self) -> bool {
        self.is_running
    }

    /// The inner consistency of the state: one announcement per stream,
    /// each with a lifetime that can be added to its time.
    pub closed spec fn well_formed(&self) -> bool {
        &&& unique_streams(ann_views(self.streams@))
        &&& forall|i: int| 0 <= i < self.streams@.len() ==> ttl_fits(#[trigger] self.streams@[i]@)
    }

    /// A service that knows no stream and is not running.
    pub fn new(config: StreamDiscoveryConfig) -> (r: Self)
        ensures
            r.well_formed(),
            r.cached() == Map::<Seq<char>, AnnView>::empty(),
            r.cached_count() == 0,
            r.own() == Seq::<AnnView>::empty(),
            r.settings() == config,
            !r.running(),
    {
        let r = StreamDiscovery { streams: Vec::new(), config, is_running: false, own_streams: Vec::new() };
        assert(r.cached() =~= Map::<Seq<char>, AnnView>::empty());
        assert(r.own() =~= Seq::<AnnView>::empty());
        r
    }

    /// Where the announcement of stream `id` stands in the cache.
    fn find_cached(&self, id: &str) -> (r: Option<usize>)
        ensures
            match r {
                Some(i) => i < self.streams@.len() && self.streams@[i as int].stream_id@ == id@,
                None => !lists_stream(ann_views(self.streams@), id@),
            },
    {
        let mut i: usize = 0;
        while i < self.streams.len()
            invariant
                i <= self.streams@.len(),
                forall|j: int| 0 <= j < i ==> self.streams@[j].stream_id@ != id@,
            decreases self.streams@.len() - i,
        {
            if same_text(self.streams[i].stream_id.as_str(), id) {
                return Some(i);
            }
            i = i + 1;
        }
        proof {
            if lists_stream(ann_views(self.streams@), id@) {
                let j = choose|j: int| 0 <= j < ann_views(self.streams@).len() && ann_views(self.streams@)[j].stream_id == id@;
                assert(self.streams@[j].stream_id@ == id@);
            }
        }
        None
    }

    /// Put an announcement in the cache, replacing the one of its stream.
    fn cache_insert(&mut self, a: StreamAnnouncement)
        requires
            old(self).well_formed(),
            ttl_fits(a@),
        ensures
            final(self).well_formed(),
            final(self).cached() == old(self).cached().insert(a@.stream_id, a@),
            final(self).cached_count() == old(self).cached_count() + if lists_stream(
                ann_views(old(self).streams@),
                a@.stream_id,
            ) {
                0int
            } else {
                1int
            },
            final(self).own() == old(self).own(),
            final(self).settings() == old(self).settings(),
            final(self).running() == old(self).running(),
    {
        let ghost av = a@;
        let ghost before = ann_views(self.streams@);
        match self.find_cached(a.stream_id.as_str()) {
            Some(i) => {
                self.streams.set(i, a);
                proof {
                    let t = ann_views(self.streams@);
                    assert(t =~= before.update(i as int, av));
                    assert(before[i as int].stream_id == av.stream_id);
                    assert(lists_stream(before, av.stream_id));
                    assert forall|x: int, y: int| 0 <= x < y < t.len() implies t[x].stream_id != t[y].stream_id by {
                        assert(t[x].stream_id == before[x].stream_id);
                        assert(t[y].stream_id == before[y].stream_id);
                    }
                    assert forall|p: Seq<char>| #[trigger] lists_stream(t, p) == lists_stream(before, p) by {
                        if lists_stream(before, p) {
                            let j = choose|j: int| 0 <= j < before.len() && before[j].stream_id == p;
                            assert(t[j].stream_id == p);
                        }
                        if lists_stream(t, p) {
                            let j = choose|j: int| 0 <= j < t.len() && t[j].stream_id == p;
                            assert(before[j].stream_id == p);
                        }
                    }
                    assert forall|p: Seq<char>| #[trigger] lists_stream(t, p) implies stream_map(t)[p] == stream_map(
                        before,
                    ).insert(av.stream_id, av)[p] by {
                        let j = choose|j: int| 0 <= j < t.len() && t[j].stream_id == p;
                        if p == av.stream_id {
                            assert(t[i as int].stream_id == p);
                            assert(j == i);
                        } else {
                            let k = choose|k: int| 0 <= k < before.len() && before[k].stream_id == p;
                            assert(t[k].stream_id == p);
                            assert(j == k);
                        }
                    }
                    assert(stream_map(t) =~= stream_map(before).insert(av.stream_id, av));
                }
            },
            None => {
                self.streams.push(a);
                proof {
                    assert(ann_views(self.streams@) =~= before.push(av));
                    lemma_stream_map_push(before, av);
                }
            },
        }
    }

    /// Keep only the cached announcements that satisfy `keep`.
    fn cache_keep(&mut self, now: u64)
        requires
            old(self).well_formed(),
        ensures
            final(self).well_formed(),
            final(self).cached() == fresh_part(old(self).cached(), now),
            final(self).cached_count() == old(self).fresh_total(now),
            final(self).own() == old(self).own(),
            final(self).settings() == old(self).settings(),
            final(self).running() == old(self).running(),
    {
        let ghost keep = |a: AnnView| fresh(a, now);
        let ghost s = ann_views(self.streams@);
        let mut out: Vec<StreamAnnouncement> = Vec::new();
        let mut i: usize = 0;
        while i < self.streams.len()
            invariant
                i <= self.streams@.len(),
                s == ann_views(self.streams@),
                keep == (|a: AnnView| fresh(a, now)),
                ann_views(out@) == kept(s, keep, i as int),
                out@.len() == fresh_count(s, now, i as int),
                forall|j: int| 0 <= j < self.streams@.len() ==> ttl_fits(#[trigger] self.streams@[j]@),
                forall|j: int| 0 <= j < out@.len() ==> ttl_fits(#[trigger] out@[j]@),
            decreases self.streams@.len() - i,
        {
            assert(ttl_fits(self.streams@[i as int]@));
            if !self.streams[i].is_expired_at(now) {
                let ghost before = ann_views(out@);
                let d = self.streams[i].duplicate();
                out.push(d);
                assert(ann_views(out@) =~= before.push(s[i as int]));
            }
            i = i + 1;
        }
        proof {
            lemma_kept_map(s, keep);
        }
        self.streams = out;
    }

    /// Record a stream this node announces: it replaces an earlier
    /// announcement of the same stream among the node's own and in the
    /// cache.
    pub fn announce_stream(&mut self, announcement: StreamAnnouncement)
        requires
            old(self).well_formed(),
            ttl_fits(announcement@),
        ensures
            final(self).well_formed(),
            final(self).own() == kept(
                old(self).own(),
                not_stream(announcement@.stream_id),
                old(self).own().len() as int,
            ).push(announcement@),
            final(self).cached() == old(self).cached().insert(announcement@.stream_id, announcement@),
            final(self).settings() == old(self).settings(),
            final(self).running() == old(self).running(),
    {
        let ghost av = announcement@;
        self.drop_own(announcement.stream_id.as_str());
        let copy = announcement.duplicate();
        let ghost before = ann_views(self.own_streams@);
        self.own_streams.push(copy);
        assert(ann_views(self.own_streams@) =~= before.push(av));
        self.cache_insert(announcement);
    }

    /// Drop the node's own announcements of stream `id`.
    fn drop_own(&mut self, id: &str)
        requires
            old(self).well_formed(),
        ensures
            final(self).well_formed(),
            final(self).own() == kept(old(self).own(), not_stream(id@), old(self).own().len() as int),
            final(self).cached() == old(self).cached(),
            final(self).cached_count() == old(self).cached_count(),
            final(self).settings() == old(self).settings(),
            final(self).running() == old(self).running(),
    {
        let ghost s = ann_views(self.own_streams@);
        let ghost keep = not_stream(id@);
        let mut out: Vec<StreamAnnouncement> = Vec::new();
        let mut i: usize = 0;
        while i < self.own_streams.len()
            invariant
                i <= self.own_streams@.len(),
                s == ann_views(self.own_streams@),
                keep == not_stream(id@),
                ann_views(out@) == kept(s, keep, i as int),
            decreases self.own_streams@.len() - i,
        {
            if !same_text(self.own_streams[i].stream_id.as_str(), id) {
                let ghost before = ann_views(out@);
                let d = self.own_streams[i].duplicate();
                out.push(d);
                assert(ann_views(out@) =~= before.push(s[i as int]));
            }
            i = i + 1;
        }
        self.own_streams = out;
    }

    /// Forget stream `id`: among the node's own and in the cache.
    pub fn remove_stream(&mut self, id: &str)
        requires
            old(self).well_formed(),
        ensures
            final(self).well_formed(),
            final(self).own() == kept(old(self).own(), not_stream(id@), old(self).own().len() as int),
            final(self).cached() == old(self).cached().remove(id@),
            final(self).settings() == old(self).settings(),
            final(self).running() == old(self).running(),
    {
        self.drop_own(id);
        let ghost before = ann_views(self.streams@);
        let ghost sv = self.streams@;
        match self.find_cached(id) {
            Some(i) => {
                self.streams.remove(i);
                proof {
                    let t = ann_views(self.streams@);
                    assert(t =~= before.remove(i as int));
                    assert(before[i as int].stream_id == id@);
                    assert forall|a: int, b: int| 0 <= a < b < t.len() implies t[a].stream_id != t[b].stream_id by {
                        let a2 = if a < i { a } else { a + 1 };
                        let b2 = if b < i { b } else { b + 1 };
                        assert(t[a] == before[a2] && t[b] == before[b2]);
                    }
                    assert forall|p: Seq<char>| #[trigger] lists_stream(t, p) == (lists_stream(before, p) && p != id@) by {
                        if lists_stream(before, p) && p != id@ {
                            let j = choose|j: int| 0 <= j < before.len() && before[j].stream_id == p;
                            if j < i {
                                assert(t[j].stream_id == p);
                            } else {
                                assert(t[j - 1].stream_id == p);
                            }
                        }
                        if lists_stream(t, p) {
                            let j = choose|j: int| 0 <= j < t.len() && t[j].stream_id == p;
                            let j2 = if j < i { j } else { j + 1 };
                            assert(before[j2].stream_id == p);
                        }
                    }
                    assert forall|p: Seq<char>| #[trigger] lists_stream(t, p) implies stream_map(t)[p] == stream_map(before)[p] by {
                        let j = choose|j: int| 0 <= j < t.len() && t[j].stream_id == p;
                        let j2 = if j < i { j } else { j + 1 };
                        assert(before[j2].stream_id == p);
                        let k = choose|k: int| 0 <= k < before.len() && before[k].stream_id == p;
                        assert(k == j2);
                    }
                    assert(stream_map(t) =~= stream_map(before).remove(id@));
                    assert forall|j: int| 0 <= j < self.streams@.len() implies ttl_fits(#[trigger] self.streams@[j]@) by {
                        let j2 = if j < i { j } else { j + 1 };
                        assert(self.streams@[j] == sv[j2]);
                        assert(ttl_fits(sv[j2]@));
                    }
                }
            },
            None => {
                assert(old(self).cached().remove(id@) =~= old(self).cached());
            },
        }
    }

    /// Take in an announcement received at time `now`: an expired one is
    /// ignored (`None`); otherwise, when the cache is full the expired
    /// announcements are dropped first, then the announcement is cached if
    /// there is room, and it is returned.
    pub fn process_announcement_at(&mut self, announcement: StreamAnnouncement, now: u64) -> (r: Option<
        StreamAnnouncement,
    >)
        requires
            old(self).well_formed(),
            ttl_fits(announcement@),
        ensures
            final(self).well_formed(),
            final(self).own() == old(self).own(),
            final(self).settings() == old(self).settings(),
            final(self).running() == old(self).running(),
            !fresh(announcement@, now) ==> r is None && final(self).cached() == old(self).cached()
                && final(self).cached_count() == old(self).cached_count(),
            fresh(announcement@, now) ==> (r matches Some(a) && a@ == announcement@),
            fresh(announcement@, now) ==> {
                let full = old(self).cached_count() >= old(self).settings().max_cached_streams;
                let m = if full {
                    fresh_part(old(self).cached(), now)
                } else {
                    old(self).cached()
                };
                let n = if full {
                    old(self).fresh_total(now)
                } else {
                    old(self).cached_count()
                };
                if n < old(self).settings().max_cached_streams {
                    final(self).cached() == m.insert(announcement@.stream_id, announcement@)
                } else {
                    final(self).cached() == m
                }
            },
    {
        if announcement.is_expired_at(now) {
            return None;
        }
        if self.streams.len() >= self.config.max_cached_streams {
            self.cache_keep(now);
        }
        let result = announcement.duplicate();
        if self.streams.len() < self.config.max_cached_streams {
            self.cache_insert(announcement);
        }
        Some(result)
    }

    /// The announcements kept that have not expired at time `now`, one
    /// per stream.
    pub fn list_streams_at(&self, now: u64) -> (r: Vec<StreamAnnouncement>)
        requires
            self.well_formed(),
        ensures
            unique_streams(ann_views(r@)),
            stream_map(ann_views(r@)) == fresh_part(self.cached(), now),
    {
        self.select(now, None, None)
    }

    /// The announcements kept that have not expired at `now` and satisfy
    /// the publisher and title conditions given.
    fn select(&self, now: u64, publisher: Option<&[u8]>, query: Option<&str>) -> (r: Vec<StreamAnnouncement>)
        requires
            self.well_formed(),
        ensures
            unique_streams(ann_views(r@)),
            stream_map(ann_views(r@)) == map_kept(
                self.cached(),
                |a: AnnView| selected(a, now, match publisher {
                    Some(p) => Some(p@),
                    None => None,
                }, match query {
                    Some(q) => Some(lowercase(q@)),
                    None => None,
                }),
            ),
    {
        let ghost pv: Option<Seq<u8>> = match publisher {
            Some(p) => Some(p@),
            None => None,
        };
        let lowered: Option<String> = match query {
            Some(q) => Some(to_lowercase(q)),
            None => None,
        };
        let ghost qv: Option<Seq<char>> = match query {
            Some(q) => Some(lowercase(q@)),
            None => None,
        };
        let ghost keep = |a: AnnView| selected(a, now, pv, qv);
        let ghost s = ann_views(self.streams@);
        let mut out: Vec<StreamAnnouncement> = Vec::new();
        let mut i: usize = 0;
        while i < self.streams.len()
            invariant
                i <= self.streams@.len(),
                s == ann_views(self.streams@),
                keep == (|a: AnnView| selected(a, now, pv, qv)),
                pv == match publisher {
                    Some(p) => Some(p@),
                    None => None::<Seq<u8>>,
                },
                qv == match lowered {
                    Some(l) => Some(l@),
                    None => None::<Seq<char>>,
                },
                ann_views(out@) == kept(s, keep, i as int),
                forall|j: int| 0 <= j < self.streams@.len() ==> ttl_fits(#[trigger] self.streams@[j]@),
            decreases self.streams@.len() - i,
        {
            let a = &self.streams[i];
            assert(ttl_fits(s[i as int]));
            let mut ok = !a.is_expired_at(now);
            match publisher {
                Some(p) => {
                    ok = ok && crate::crypto::bytes_equal(a.publisher_id.as_slice(), p);
                },
                None => {},
            }
            match &lowered {
                Some(l) => {
                    if ok {
                        let title = to_lowercase(a.title.as_str());
                        ok = contains_text(title.as_str(), l.as_str());
                    }
                },
                None => {},
            }
            assert(ok == selected(s[i as int], now, pv, qv));
            if ok {
                let ghost before = ann_views(out@);
                let d = a.duplicate();
                out.push(d);
                assert(ann_views(out@) =~= before.push(s[i as int]));
            }
            i = i + 1;
        }
        proof {
            lemma_kept_map(s, keep);
        }
        out
    }

    /// The announcement of stream `id`, when it is kept and has not expired
    /// at time `now`.
    pub fn get_stream_at(&self, id: &str, now: u64) -> (r: Option<StreamAnnouncement>)
        requires
            self.well_formed(),
        ensures
            match r {
                Some(a) => self.cached().dom().contains(id@) && self.cached()[id@] == a@ && fresh(a@, now),
                None => !self.cached().dom().contains(id@) || !fresh(self.cached()[id@], now),
            },
    {
        match self.find_cached(id) {
            Some(i) => {
                let ghost s = ann_views(self.streams@);
                proof {
                    assert(s[i as int].stream_id == id@);
                    assert(lists_stream(s, id@));
                    let k = choose|k: int| 0 <= k < s.len() && s[k].stream_id == id@;
                    assert(k == i);
                    assert(ttl_fits(self.streams@[i as int]@));
                }
                if self.streams[i].is_expired_at(now) {
                    None
                } else {
                    Some(self.streams[i].duplicate())
                }
            },
            None => None,
        }
    }

    /// The announcements of publisher `publisher_id` that have not expired
    /// at time `now`, one per stream.
    pub fn get_streams_by_publisher_at(&self, publisher_id: &[u8], now: u64) -> (r: Vec<StreamAnnouncement>)
        requires
            self.well_formed(),
        ensures
            unique_streams(ann_views(r@)),
            stream_map(ann_views(r@)) == map_kept(
                self.cached(),
                |a: AnnView| fresh(a, now) && a.publisher_id == publisher_id@,
            ),
    {
        let r = self.select(now, Some(publisher_id), None);
        proof {
            assert(map_kept(self.cached(), |a: AnnView| selected(a, now, Some(publisher_id@), None)) =~= map_kept(
                self.cached(),
                |a: AnnView| fresh(a, now) && a.publisher_id == publisher_id@,
            ));
        }
        r
    }

    /// The announcements whose title contains `query`, compared in lower
    /// case, that have not expired at time `now`, one per stream.
    pub fn search_streams_at(&self, query: &str, now: u64) -> (r: Vec<StreamAnnouncement>)
        requires
            self.well_formed(),
        ensures
            unique_streams(ann_views(r@)),
            stream_map(ann_views(r@)) == map_kept(
                self.cached(),
                |a: AnnView| fresh(a, now) && has_substring(lowercase(a.title), lowercase(query@)),
            ),
    {
        let r = self.select(now, None, Some(query));
        proof {
            assert(map_kept(self.cached(), |a: AnnView| selected(a, now, None, Some(lowercase(query@)))) =~= map_kept(
                self.cached(),
                |a: AnnView| fresh(a, now) && has_substring(lowercase(a.title), lowercase(query@)),
            ));
        }
        r
    }

    /// Drop the announcements that have expired at time `now`.
    pub fn cleanup_expired_at(&mut self, now: u64)
        requires
            old(self).well_formed(),
        ensures
            final(self).well_formed(),
            final(self).cached() == fresh_part(old(self).cached(), now),
            final(self).cached_count() == old(self).fresh_total(now),
            final(self).own() == old(self).own(),
            final(self).settings() == old(self).settings(),
            final(self).running() == old(self).running(),
    {
        self.cache_keep(now);
    }

    /// Number of announcements kept that have not expired at time `now`.
    pub fn stream_count_at(&self, now: u64) -> (r: usize)
        requires
            self.well_formed(),
        ensures
            r == self.fresh_total(now),
    {
        let ghost s = ann_views(self.streams@);
        let mut n: usize = 0;
        let mut i: usize = 0;
        while i < self.streams.len()
            invariant
                i <= self.streams@.len(),
                s == ann_views(self.streams@),
                n == fresh_count(s, now, i as int),
                n <= i,
                forall|j: int| 0 <= j < self.streams@.len() ==> ttl_fits(#[trigger] self.streams@[j]@),
            decreases self.streams@.len() - i,
        {
            assert(ttl_fits(s[i as int]));
            if !self.streams[i].is_expired_at(now) {
                n = n + 1;
            }
            i = i + 1;
        }
        n
    }

    /// The node's own announcements made again at time `now`.
    pub fn reannouncements_at(&self, now: u64) -> (r: Vec<StreamAnnouncement>)
        ensures
            r@.len() == self.own().len(),
            forall|i: int| 0 <= i < r@.len() ==> #[trigger] r@[i]@ == (AnnView { announced_at: now, ..self.own()[i] }),
    {
        let mut r: Vec<StreamAnnouncement> = Vec::new();
        let mut i: usize = 0;
        while i < self.own_streams.len()
            invariant
                i <= self.own_streams@.len(),
                r@.len() == i,
                forall|j: int| 0 <= j < i ==> #[trigger] r@[j]@ == (AnnView { announced_at: now, ..ann_views(self.own_streams@)[j] }),
            decreases self.own_streams@.len() - i,
        {
            let mut a = self.own_streams[i].duplicate();
            a.announced_at = now;
            r.push(a);
            i = i + 1;
        }
        r
    }

    /// Mark the service as running.
    pub fn start(&mut self)
        ensures
            final(self).running(),
            final(self).cached() == old(self).cached(),
            final(self).cached_count() == old(self).cached_count(),
            final(self).own() == old(self).own(),
            final(self).settings() == old(self).settings(),
            final(self).well_formed() == old(self).well_formed(),
    {
        self.is_running = true;
    }

    /// Mark the service as stopped.
    pub fn stop(&mut self)
        ensures
            !final(self).running(),
            final(self).cached() == old(self).cached(),
            final(self).cached_count() == old(self).cached_count(),
            final(self).own() == old(self).own(),
            final(self).settings() == old(self).settings(),
            final(self).well_formed() == old(self).well_formed(),
    {
        self.is_running = false;
    }

    /// Whether the service runs.
    pub fn is_running(&self) -> (r: bool)
        ensures
            r == self.running(),
    {
        self.is_running
    }
}

/// The entries of a map that have not expired at time `now`.
pub open spec fn fresh_part(m: Map<Seq<char>, AnnView>, now: u64) -> Map<Seq<char>, AnnView> {
    map_kept(m, |a: AnnView| fresh(a, now))
}

/// After dropping the expired announcements, every announcement left is
/// fresh, and dropping them again changes nothing.
pub proof fn lemma_cleanup_keeps_fresh(m: Map<Seq<char>, AnnView>, now: u64)
    ensures
        forall|id: Seq<char>| #[trigger] fresh_part(m, now).dom().contains(id) ==> fresh(fresh_part(m, now)[id], now),
        fresh_part(fresh_part(m, now), now) == fresh_part(m, now),
{
    assert(fresh_part(fresh_part(m, now), now) =~= fresh_part(m, now));
}

/// A fresh announcement cached is found again, as it was, while it stays
/// fresh; a removed stream is no longer found.
pub proof fn lemma_cached_then_found(m: Map<Seq<char>, AnnView>, a: AnnView, now: u64)
    requires
        fresh(a, now),
    ensures
        fresh_part(m.insert(a.stream_id, a), now).dom().contains(a.stream_id),
        fresh_part(m.insert(a.stream_id, a), now)[a.stream_id] == a,
        !m.insert(a.stream_id, a).remove(a.stream_id).dom().contains(a.stream_id),
{
}

/// Whether an announcement is chosen: not expired at `now`, from the
/// publisher when one is given, with a lower-case title containing the
/// lower-case query when one is given.
pub open spec fn selected(a: AnnView, now: u64, publisher: Option<Seq<u8>>, query: Option<Seq<char>>) -> bool {
    &&& fresh(a, now)
    &&& match publisher {
        Some(p) => a.publisher_id == p,
        None => true,
    }
    &&& match query {
        Some(q) => has_substring(lowercase(a.title), q),
        None => true,
    }
}

/// Settings of stream discovery.
#[derive(Debug, Clone)]
pub struct StreamDiscoveryConfig {
    /// How often to announce our streams again (seconds).
    pub announce_interval_secs: u64,
    /// Most announcements kept.
    pub max_cached_streams: usize,
    /// How often to drop expired announcements (seconds).
    pub cleanup_interval_secs: u64,
}

impl Default for StreamDiscoveryConfig {
    fn default() -> (r: Self)
        ensures
            r.announce_interval_secs == 60,
            r.max_cached_streams == 1000,
            r.cleanup_interval_secs == 30,
    {
        StreamDiscoveryConfig { announce_interval_secs: 60, max_cached_streams: 1000, cleanup_interval_secs: 30 }
    }
}

} // verus!
