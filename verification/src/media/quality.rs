//! Quality adaptation of a media stream: the quality levels, the recent
//! downloads that bandwidth is measured from, and the switching of the
//! quality by the buffer level.
use vstd::prelude::*;
use crate::clock::unix_time_micros;

verus! {

/// Quality level of a stream, from lowest to highest.
#[derive(Debug, Clone, Copy, PartialEq, Eq, PartialOrd, Ord, Structural)]
pub enum QualityLevel {
    /// Lowest quality (such as 240p).
    Low,
    /// Medium quality (such as 480p).
    Medium,
    /// High quality (such as 720p).
    High,
    /// Highest quality (such as 1080p or 4K).
    Highest,
}

/// The place of a level in the order from lowest to highest.
pub open spec fn rank(q: QualityLevel) -> int {
    match q {
        QualityLevel::Low => 0,
        QualityLevel::Medium => 1,
        QualityLevel::High => 2,
        QualityLevel::Highest => 3,
    }
}

impl QualityLevel {
    /// The place of the level in the order from lowest to highest.
    pub fn rank(&self) -> (r: u8)
        ensures
            r == rank(*self),
    {
        match self {
            QualityLevel::Low => 0,
            QualityLevel::Medium => 1,
            QualityLevel::High => 2,
            QualityLevel::Highest => 3,
        }
    }
}

/// The higher of two levels.
pub open spec fn higher(a: QualityLevel, b: QualityLevel) -> QualityLevel {
    if rank(a) >= rank(b) {
        a
    } else {
        b
    }
}

/// The lower of two levels.
pub open spec fn lower(a: QualityLevel, b: QualityLevel) -> QualityLevel {
    if rank(a) <= rank(b) {
        a
    } else {
        b
    }
}

/// Settings of quality adaptation.
#[derive(Debug, Clone, Copy)]
pub struct QualityConfig {
    /// Lowest level to use.
    pub min_quality: QualityLevel,
    /// Highest level to use.
    pub max_quality: QualityLevel,
    /// Buffer level above which the quality may go up (milliseconds).
    pub up_switch_buffer_ms: u64,
    /// Buffer level below which the quality may go down (milliseconds).
    pub down_switch_buffer_ms: u64,
    /// Number of downloads to measure bandwidth over.
    pub bandwidth_window_size: usize,
}

impl Default for QualityConfig {
    fn default() -> (r: Self)
        ensures
            r.min_quality == QualityLevel::Low,
            r.max_quality == QualityLevel::Highest,
            r.up_switch_buffer_ms == 10_000,
            r.down_switch_buffer_ms == 5_000,
            r.bandwidth_window_size == 10,
    {
        QualityConfig {
            min_quality: QualityLevel::Low,
            max_quality: QualityLevel::Highest,
            up_switch_buffer_ms: 10_000,
            down_switch_buffer_ms: 5_000,
            bandwidth_window_size: 10,
        }
    }
}

/// How far back downloads count (microseconds).
pub const BANDWIDTH_WINDOW_US: u64 = 60_000_000;

/// The downloads left after dropping, from the front, those made before
/// `start`.
pub open spec fn drop_before(s: Seq<(u64, u64)>, start: u64) -> Seq<(u64, u64)>
    decreases s.len(),
{
    if s.len() > 0 && s[0].0 < start {
        drop_before(s.drop_first(), start)
    } else {
        s
    }
}

/// Where the window of a download made at `now` starts: a minute before,
/// or at `now` when that is before the clock's start.
pub open spec fn window_start(now: u64) -> u64 {
    if now >= BANDWIDTH_WINDOW_US {
        (now - BANDWIDTH_WINDOW_US) as u64
    } else {
        now
    }
}

/// Total size of some downloads.
pub open spec fn total_size(s: Seq<(u64, u64)>) -> int
    decreases s.len(),
{
    if s.len() == 0 {
        0
    } else {
        total_size(s.drop_last()) + s.last().1
    }
}

/// Earliest time of some downloads.
pub open spec fn earliest(s: Seq<(u64, u64)>) -> u64
    decreases s.len(),
{
    if s.len() <= 1 {
        s[0].0
    } else if s.last().0 < earliest(s.drop_last()) {
        s.last().0
    } else {
        earliest(s.drop_last())
    }
}

/// Latest time of some downloads.
pub open spec fn latest(s: Seq<(u64, u64)>) -> u64
    decreases s.len(),
{
    if s.len() <= 1 {
        s[0].0
    } else if s.last().0 > latest(s.drop_last()) {
        s.last().0
    } else {
        latest(s.drop_last())
    }
}

/// The downloads of the last minute, measured for bandwidth.
pub struct BandwidthMonitor {
    config: QualityConfig,
    samples: Vec<(u64, u64)>,
}

impl BandwidthMonitor {
    /// The downloads kept: time (microseconds) and size (bytes) of each, in
    /// the order they were recorded.
    pub closed spec fn sample_list(&self) -> Seq<(u64, u64)> {
        self.samples@
    }

    /// The settings the monitor was made with.
    pub closed spec fn settings(&self) -> QualityConfig {
        self.config
    }

    /// A monitor with some settings and no downloads.
    pub fn new(config: QualityConfig) -> (r: Self)
        ensures
            r.sample_list().len() == 0,
            r.settings() == config,
    {
        BandwidthMonitor { config, samples: Vec::new() }
    }

    /// Record a download of `size` bytes at time `now` (microseconds), then
    /// drop from the front the downloads made more than a minute before.
    pub fn record_download_at(&mut self, size: u64, now: u64)
        ensures
            final(self).sample_list() == drop_before(old(self).sample_list().push((now, size)), window_start(now)),
    {
        self.samples.push((now, size));
        let start: u64 = if now >= BANDWIDTH_WINDOW_US {
            now - BANDWIDTH_WINDOW_US
        } else {
            now
        };
        let ghost all = self.samples@;
        assert(all.subrange(0, all.len() as int) =~= all);
        let mut first: usize = 0;
        while first < self.samples.len() && self.samples[first].0 < start
            invariant
                all == self.samples@,
                first <= all.len(),
                drop_before(all, start) == drop_before(all.subrange(first as int, all.len() as int), start),
            decreases all.len() - first,
        {
            let ghost rest = all.subrange(first as int, all.len() as int);
            assert(rest.drop_first() =~= all.subrange(first + 1, all.len() as int));
            first = first + 1;
        }
        assert(drop_before(all, start) == all.subrange(first as int, all.len() as int));
        let mut kept: Vec<(u64, u64)> = Vec::new();
        let mut i: usize = first;
        while i < self.samples.len()
            invariant
                all == self.samples@,
                first <= i <= all.len(),
                kept@ == all.subrange(first as int, i as int),
            decreases all.len() - i,
        {
            kept.push(self.samples[i]);
            i = i + 1;
            assert(kept@ =~= all.subrange(first as int, i as int));
        }
        self.samples = kept;
    }

    /// Record a download of `size` bytes now.
    pub fn record_download(&mut self, size: u64)
        ensures
            exists|now: u64| final(self).sample_list() == drop_before(
                old(self).sample_list().push((now, size)),
                #[trigger] window_start(now),
            ),
    {
        let now = unix_time_micros();
        self.record_download_at(size, now);
    }

    /// The total size of the downloads kept and the time between the
    /// earliest and the latest, when at least two are kept; what bandwidth
    /// is measured from.
    pub fn window_totals(&self) -> (r: Option<(u64, u64)>)
        requires
            total_size(self.sample_list()) <= u64::MAX,
        ensures
            self.sample_list().len() < 2 ==> r is None,
            self.sample_list().len() >= 2 ==> r == Some(
                (
                    total_size(self.sample_list()) as u64,
                    (latest(self.sample_list()) - earliest(self.sample_list())) as u64,
                ),
            ),
    {
        if self.samples.len() < 2 {
            return None;
        }
        let ghost s = self.samples@;
        let mut total: u64 = self.samples[0].1;
        let mut min_time: u64 = self.samples[0].0;
        let mut max_time: u64 = self.samples[0].0;
        proof {
            lemma_total_prefix(s, 1);
            assert(s.subrange(0, 1).drop_last() =~= Seq::<(u64, u64)>::empty());
            assert(total_size(Seq::<(u64, u64)>::empty()) == 0);
            assert(s.subrange(0, 1).last() == s[0]);
            assert(total_size(s.subrange(0, 1)) == s[0].1);
        }
        let mut i: usize = 1;
        while i < self.samples.len()
            invariant
                s == self.samples@,
                1 <= i <= s.len(),
                total_size(s) <= u64::MAX,
                total == total_size(s.subrange(0, i as int)),
                min_time == earliest(s.subrange(0, i as int)),
                max_time == latest(s.subrange(0, i as int)),
                min_time <= max_time,
            decreases s.len() - i,
        {
            proof {
                lemma_total_prefix(s, i + 1);
                assert(s.subrange(0, i + 1).drop_last() =~= s.subrange(0, i as int));
            }
            let (t, size) = self.samples[i];
            total = total + size;
            if t < min_time {
                min_time = t;
            }
            if t > max_time {
                max_time = t;
            }
            i = i + 1;
        }
        assert(s.subrange(0, s.len() as int) =~= s);
        Some((total, max_time - min_time))
    }

    /// Whether the total size of the downloads kept fits in 64 bits, as
    /// [`Self::window_totals`] needs.
    pub fn window_fits(&self) -> (r: bool)
        ensures
            r == (total_size(self.sample_list()) <= u64::MAX),
    {
        let ghost s = self.samples@;
        let mut total: u128 = 0;
        let mut i: usize = 0;
        while i < self.samples.len()
            invariant
                s == self.samples@,
                i <= s.len(),
                total == total_size(s.subrange(0, i as int)),
                total <= u64::MAX,
            decreases s.len() - i,
        {
            proof {
                assert(s.subrange(0, i + 1).drop_last() =~= s.subrange(0, i as int));
                lemma_total_prefix(s, i + 1);
            }
            total = total + self.samples[i].1 as u128;
            if total > u64::MAX as u128 {
                proof {
                    lemma_total_prefix(s, i + 1);
                }
                return false;
            }
            i = i + 1;
        }
        assert(s.subrange(0, s.len() as int) =~= s);
        true
    }

    /// The quality recommended under the present conditions: medium.
    pub fn recommended_quality(&self) -> (r: QualityLevel)
        ensures
            r == QualityLevel::Medium,
    {
        QualityLevel::Medium
    }
}

/// The total of a prefix of downloads is at most the whole total.
proof fn lemma_total_prefix(s: Seq<(u64, u64)>, k: int)
    requires
        0 <= k <= s.len(),
    ensures
        total_size(s.subrange(0, k)) <= total_size(s),
        total_size(s.subrange(0, k)) >= 0,
    decreases s.len(),
{
    if s.len() > 0 {
        if k == s.len() {
            assert(s.subrange(0, k) =~= s);
            lemma_total_nonneg(s);
        } else {
            lemma_total_prefix(s.drop_last(), k);
            assert(s.drop_last().subrange(0, k) =~= s.subrange(0, k));
        }
    }
}

proof fn lemma_total_nonneg(s: Seq<(u64, u64)>)
    ensures
        total_size(s) >= 0,
    decreases s.len(),
{
    if s.len() > 0 {
        lemma_total_nonneg(s.drop_last());
    }
}

/// The quality after a buffer-level update: with a buffer above the
/// up-switch level the higher of the current and target levels, below the
/// down-switch level the lower of them, else the current level.
pub open spec fn switched(current: QualityLevel, target: QualityLevel, config: QualityConfig, buffer_ms: u64) -> QualityLevel {
    if buffer_ms > config.up_switch_buffer_ms {
        higher(current, target)
    } else if buffer_ms < config.down_switch_buffer_ms {
        lower(current, target)
    } else {
        current
    }
}

/// Adapts the quality of a stream to its buffer level.
pub struct QualityManager {
    bandwidth_monitor: BandwidthMonitor,
    current_quality: QualityLevel,
    target_quality: QualityLevel,
    config: QualityConfig,
}

impl QualityManager {
    /// The quality in use.
    pub closed spec fn current(&self) -> QualityLevel {
        self.current_quality
    }

    /// The quality aimed at.
    pub closed spec fn target(&self) -> QualityLevel {
        self.target_quality
    }

    /// The settings.
    pub closed spec fn settings(&self) -> QualityConfig {
        self.config
    }

    /// The downloads kept for bandwidth measurement.
    pub closed spec fn downloads(&self) -> Seq<(u64, u64)> {
        self.bandwidth_monitor.sample_list()
    }

    /// A manager starting at the lowest configured level.
    pub fn new(config: QualityConfig) -> (r: Self)
        ensures
            r.current() == config.min_quality,
            r.target() == config.min_quality,
            r.settings() == config,
            r.downloads().len() == 0,
    {
        QualityManager {
            bandwidth_monitor: BandwidthMonitor::new(config),
            current_quality: config.min_quality,
            target_quality: config.min_quality,
            config,
        }
    }

    /// Update the quality for a buffer holding `buffer_level_ms`
    /// milliseconds: the target becomes the recommended level, and the
    /// quality switches up with a healthy buffer or down with a low one.
    /// The new level when it changed, else `None`.
    pub fn update_quality(&mut self, buffer_level_ms: u64) -> (r: Option<QualityLevel>)
        ensures
            final(self).target() == QualityLevel::Medium,
            final(self).current() == switched(old(self).current(), QualityLevel::Medium, old(self).settings(), buffer_level_ms),
            r == if final(self).current() != old(self).current() {
                Some(final(self).current())
            } else {
                None::<QualityLevel>
            },
            final(self).settings() == old(self).settings(),
            final(self).downloads() == old(self).downloads(),
    {
        self.target_quality = self.bandwidth_monitor.recommended_quality();
        if buffer_level_ms > self.config.up_switch_buffer_ms {
            let new_quality = if self.current_quality.rank() >= self.target_quality.rank() {
                self.current_quality
            } else {
                self.target_quality
            };
            if new_quality != self.current_quality {
                self.current_quality = new_quality;
                return Some(self.current_quality);
            }
        } else if buffer_level_ms < self.config.down_switch_buffer_ms {
            let new_quality = if self.current_quality.rank() <= self.target_quality.rank() {
                self.current_quality
            } else {
                self.target_quality
            };
            if new_quality != self.current_quality {
                self.current_quality = new_quality;
                return Some(self.current_quality);
            }
        }
        None
    }

    /// The quality in use.
    pub fn current_quality(&self) -> (r: QualityLevel)
        ensures
            r == self.current(),
    {
        self.current_quality
    }

    /// The quality aimed at.
    pub fn target_quality(&self) -> (r: QualityLevel)
        ensures
            r == self.target(),
    {
        self.target_quality
    }

    /// Record a download of `size` bytes now, for bandwidth measurement.
    pub fn record_download(&mut self, size: u64)
        ensures
            exists|now: u64| final(self).downloads() == drop_before(
                old(self).downloads().push((now, size)),
                #[trigger] window_start(now),
            ),
            final(self).current() == old(self).current(),
            final(self).target() == old(self).target(),
            final(self).settings() == old(self).settings(),
    {
        self.bandwidth_monitor.record_download(size);
    }
}

/// With a buffer above the up-switch level the quality never goes down;
/// below the down-switch level it never goes up; in between it stays.
pub proof fn lemma_switch_direction(current: QualityLevel, target: QualityLevel, config: QualityConfig, buffer_ms: u64)
    ensures
        buffer_ms > config.up_switch_buffer_ms ==> rank(switched(current, target, config, buffer_ms)) >= rank(current),
        buffer_ms < config.down_switch_buffer_ms && buffer_ms <= config.up_switch_buffer_ms ==> rank(
            switched(current, target, config, buffer_ms),
        ) <= rank(current),
        config.down_switch_buffer_ms <= buffer_ms <= config.up_switch_buffer_ms ==> switched(
            current,
            target,
            config,
            buffer_ms,
        ) == current,
        switched(current, target, config, buffer_ms) == current || switched(current, target, config, buffer_ms)
            == target,
{
}

} // verus!
