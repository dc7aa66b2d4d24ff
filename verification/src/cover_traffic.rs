//! Cover traffic at a governed rate, and cover traffic that follows the
//! share of real traffic.
//!
//! Rates and ratios are held as whole numbers: a rate in packets per 1000
//! seconds, a ratio in thousandths. A draw `d` of 64 random bits counts as the
//! fraction `d / (2^64 - 1)`. Every decision is taken by a function that
//! receives the clock's reading and the draw as arguments; the functions that
//! fetch them only pass them on.

use crate::aead::{sealable, TAG_LEN};
use crate::clock::now_millis;
use crate::entropy::{random_bytes, random_u64};
use crate::packet::{encrypt_error_text, TaiorPacket};
use vstd::prelude::*;
use vstd::string::StringExecFns;

verus! {

/// What can go wrong with cover traffic.
#[derive(Debug)]
pub enum CoverTrafficError {
    /// A decoy could not be sealed; the text is the packet's error.
    GenerationError(String),
    /// There is no circuit to send a decoy over. Never produced by the
    /// functions of this module.
    NoCircuit,
}

impl CoverTrafficError {
    /// The message of the error.
    pub open spec fn message_text(&self) -> Seq<char> {
        match self {
            CoverTrafficError::GenerationError(text) => "Error generando paquete cover: "@ + text@,
            CoverTrafficError::NoCircuit => "Circuito no disponible"@,
        }
    }

    /// The message of the error.
    pub fn message(&self) -> (s: String)
        ensures
            s@ == self.message_text(),
    {
        match self {
            CoverTrafficError::GenerationError(text) => String::from_str(
                "Error generando paquete cover: ",
            ).concat(text.as_str()),
            CoverTrafficError::NoCircuit => String::from_str("Circuito no disponible"),
        }
    }
}

/// The time to live of a decoy made by `wrap_in_packet`.
pub const COVER_TTL: u8 = 3;

/// Length of the window over which real and cover traffic are counted, in
/// milliseconds.
pub const WINDOW_MS: u64 = 60000;

/// The settings of rate-governed cover traffic.
#[derive(Debug, Clone, Copy)]
pub struct CoverTrafficConfig {
    pub enabled: bool,
    /// The rate of decoys, in packets per 1000 seconds.
    pub packets_per_kilosecond: u64,
    /// The smallest decoy payload, in bytes.
    pub min_size: usize,
    /// The bound of the decoy payloads, in bytes: payloads stay below it,
    /// unless it equals `min_size`.
    pub max_size: usize,
    /// The widest jitter of the interval between decoys, in milliseconds.
    pub jitter_ms: u64,
}

impl CoverTrafficConfig {
    /// The sizes form a range.
    pub open spec fn wf(&self) -> bool {
        self.min_size <= self.max_size
    }

    /// Whether the settings let any decoy be sent.
    pub open spec fn active(&self) -> bool {
        self.enabled && self.packets_per_kilosecond > 0
    }

    /// The interval between two decoys at the configured rate, in whole
    /// milliseconds.
    pub open spec fn interval_ms(&self) -> int {
        1_000_000int / (self.packets_per_kilosecond as int)
    }

    /// The jitter that the draw `draw` gives: at least `-jitter_ms` and below
    /// `jitter_ms`, and zero where no jitter is configured.
    pub open spec fn jitter(&self, draw: u64) -> int {
        if self.jitter_ms == 0 {
            0
        } else {
            (draw as int) % (2 * self.jitter_ms) - self.jitter_ms
        }
    }

    /// The interval, with the jitter of `draw`, that must have passed since
    /// the last decoy: never negative.
    pub open spec fn target_interval(&self, draw: u64) -> int {
        let t = self.interval_ms() + self.jitter(draw);
        if t < 0 {
            0
        } else {
            t
        }
    }

    /// The size of the decoy payload that the draw `draw` gives.
    pub open spec fn cover_size(&self, draw: u64) -> int {
        if self.min_size == self.max_size {
            self.min_size as int
        } else {
            self.min_size + ((draw as usize) as int) % (self.max_size - self.min_size)
        }
    }
}

impl Default for CoverTrafficConfig {
    /// Two decoys per second, of 512 to 2047 bytes, with half a second of
    /// jitter.
    fn default() -> (r: Self)
        ensures
            r == (CoverTrafficConfig {
                enabled: true,
                packets_per_kilosecond: 2000,
                min_size: 512,
                max_size: 2048,
                jitter_ms: 500,
            }),
    {
        Self {
            enabled: true,
            packets_per_kilosecond: 2000,
            min_size: 512,
            max_size: 2048,
            jitter_ms: 500,
        }
    }
}

/// Sends decoys at a configured rate.
pub struct CoverTrafficGenerator {
    config: CoverTrafficConfig,
    last_sent: u64,
}

impl CoverTrafficGenerator {
    /// The settings.
    pub closed spec fn config(&self) -> CoverTrafficConfig {
        self.config
    }

    /// When the last decoy was due, in milliseconds.
    pub closed spec fn last_sent(&self) -> u64 {
        self.last_sent
    }

    /// Whether a decoy is due at the time `now`, in milliseconds, for the
    /// draw `draw`: the generator is active and the target interval has
    /// passed since the last decoy.
    pub open spec fn due_at(&self, now: u64, draw: u64) -> bool {
        self.config().active() && now - self.last_sent() >= self.config().target_interval(draw)
    }

    /// A generator whose first interval begins now.
    pub fn new(config: CoverTrafficConfig) -> (r: Self)
        ensures
            r.config() == config,
    {
        Self::new_at(config, now_millis())
    }

    /// A generator whose first interval begins at `now`, in milliseconds.
    pub fn new_at(config: CoverTrafficConfig, now: u64) -> (r: Self)
        ensures
            r.config() == config,
            r.last_sent() == now,
    {
        Self { config, last_sent: now }
    }

    /// `r` is the answer for the reading `now` and the draw `draw`, and
    /// `after` the generator that the answer leaves: a decoy that is due
    /// begins the next interval at `now`; otherwise nothing changes.
    pub open spec fn decided(&self, after: Self, now: u64, draw: u64, r: bool) -> bool {
        &&& r == self.due_at(now, draw)
        &&& after.config() == self.config()
        &&& after.last_sent() == if r {
            now
        } else {
            self.last_sent()
        }
    }

    /// Whether a decoy is due now; if so, the next interval begins now.
    ///
    /// Whatever the clock reads and whatever is drawn, the answer is the one
    /// that `should_send_cover_at` gives for them. A generator that is not
    /// active never sends.
    pub fn should_send_cover(&mut self) -> (r: bool)
        ensures
            exists|now: u64, draw: u64| #[trigger] old(self).decided(*final(self), now, draw, r),
            !old(self).config().active() ==> !r,
    {
        if !self.config.enabled || self.config.packets_per_kilosecond == 0 {
            assert(old(self).decided(*self, 0, 0, false));
            return false;
        }
        let now = now_millis();
        let draw = random_u64();
        let r = self.should_send_cover_at(now, draw);
        assert(old(self).decided(*self, now, draw, r));
        r
    }

    /// Whether a decoy is due at the time `now`, in milliseconds, for the
    /// draw `draw`; if so, the next interval begins at `now`.
    pub fn should_send_cover_at(&mut self, now: u64, draw: u64) -> (r: bool)
        ensures
            old(self).decided(*final(self), now, draw, r),
    {
        if !self.config.enabled || self.config.packets_per_kilosecond == 0 {
            return false;
        }
        let interval_ms: i128 = (1_000_000u64 / self.config.packets_per_kilosecond) as i128;
        let jitter: i128 = if self.config.jitter_ms == 0 {
            0
        } else {
            let span: u128 = 2 * (self.config.jitter_ms as u128);
            ((draw as u128) % span) as i128 - self.config.jitter_ms as i128
        };
        let sum: i128 = interval_ms + jitter;
        let target_interval: i128 = if sum < 0 {
            0
        } else {
            sum
        };
        let elapsed: i128 = now as i128 - self.last_sent as i128;
        if elapsed >= target_interval {
            self.last_sent = now;
            true
        } else {
            false
        }
    }

    /// The size of the decoy payload that the draw `draw` gives.
    pub fn cover_size_for(&self, draw: u64) -> (size: usize)
        requires
            self.config().wf(),
        ensures
            size == self.config().cover_size(draw),
            self.config().min_size <= size <= self.config().max_size,
            self.config().min_size < self.config().max_size ==> size < self.config().max_size,
    {
        if self.config.min_size == self.config.max_size {
            self.config.min_size
        } else {
            let range = self.config.max_size - self.config.min_size;
            self.config.min_size + (#[verifier::truncate]
            (draw as usize)) % range
        }
    }

    /// A decoy payload: random bytes, of a size drawn between the configured
    /// bounds. Never fails.
    pub fn generate_cover_packet(&self) -> (r: Result<Vec<u8>, CoverTrafficError>)
        requires
            self.config().wf(),
        ensures
            r matches Ok(payload) && {
                &&& self.config().min_size <= payload@.len() <= self.config().max_size
                &&& self.config().min_size < self.config().max_size ==> payload@.len()
                    < self.config().max_size
                &&& exists|draw: u64| payload@.len() == #[trigger] self.config().cover_size(draw)
            },
    {
        let draw = random_u64();
        let size = self.cover_size_for(draw);
        let payload = random_bytes(size);
        Ok(payload)
    }

    /// Seals `payload`, unpadded, as a decoy with a time to live of 3.
    ///
    /// Fails, with `GenerationError`, exactly when the cipher refuses the
    /// payload's length.
    pub fn wrap_in_packet(&self, payload: Vec<u8>) -> (r: Result<TaiorPacket, CoverTrafficError>)
        requires
            payload@.len() + TAG_LEN <= usize::MAX,
        ensures
            r is Ok <==> sealable(payload@.len() as int),
            match r {
                Ok(p) => {
                    &&& p.seals(payload@)
                    &&& p.is_cover
                    &&& p.ttl == COVER_TTL
                },
                Err(CoverTrafficError::GenerationError(text)) => text@ == encrypt_error_text(),
                Err(_) => false,
            },
    {
        match TaiorPacket::new(payload.as_slice(), COVER_TTL, 0, true) {
            Ok(p) => {
                proof {
                    let padded = choose|padded: Seq<u8>| #[trigger]
                        crate::packet::sealed_under(p.ikm@, p.encrypted_payload@, padded)
                            && crate::packet::is_padding_of(padded, payload@, 0);
                    assert(padded =~= payload@);
                }
                Ok(p)
            },
            Err(e) => Err(CoverTrafficError::GenerationError(e)),
        }
    }
}

/// The counts that adaptive cover traffic keeps over its window.
pub struct TrafficCounts {
    pub real: u64,
    pub cover: u64,
}

/// Whether the share of cover traffic lies below `target_permille`
/// thousandths of the real traffic.
pub open spec fn below_target(counts: TrafficCounts, target_permille: u32) -> bool {
    counts.cover * 1000 < target_permille * counts.real
}

/// How many thousandths of a packet the cover traffic falls short of the
/// target.
pub open spec fn deficit_permille(counts: TrafficCounts, target_permille: u32) -> int {
    target_permille * counts.real - counts.cover * 1000
}

/// Whether a decoy is due for the draw `draw`, given the counts: only below
/// the target, and then with a probability of a tenth of the deficit, which
/// is certainty from a deficit of ten packets on.
pub open spec fn deficit_sends(counts: TrafficCounts, target_permille: u32, draw: u64) -> bool {
    below_target(counts, target_permille) && (deficit_permille(counts, target_permille) >= 10000
        || draw * 10000 < deficit_permille(counts, target_permille) * u64::MAX)
}

/// Sends decoys so that cover traffic keeps a target share of the real
/// traffic, counted over a window of 60 seconds.
pub struct AdaptiveCoverTraffic {
    generator: CoverTrafficGenerator,
    real_traffic_count: u64,
    cover_traffic_count: u64,
    target_ratio_permille: u32,
    window_start: u64,
    window_duration_ms: u64,
}

impl AdaptiveCoverTraffic {
    /// The rate-governed generator that serves while there is no real
    /// traffic.
    pub closed spec fn generator(&self) -> CoverTrafficGenerator {
        self.generator
    }

    /// The counts of the present window.
    pub closed spec fn counts(&self) -> TrafficCounts {
        TrafficCounts { real: self.real_traffic_count, cover: self.cover_traffic_count }
    }

    /// The share of cover traffic aimed at, in thousandths of the real
    /// traffic.
    pub closed spec fn target_ratio_permille(&self) -> u32 {
        self.target_ratio_permille
    }

    /// When the present window began, in milliseconds.
    pub closed spec fn window_start(&self) -> u64 {
        self.window_start
    }

    /// The length of the window, in milliseconds.
    pub closed spec fn window_duration_ms(&self) -> u64 {
        self.window_duration_ms
    }

    /// Whether the window that is open has run out at the time `now`.
    pub open spec fn window_over(&self, now: u64) -> bool {
        now - self.window_start() >= self.window_duration_ms()
    }

    /// The counts that hold at the time `now`: those of the open window, or
    /// none where that window has run out.
    pub open spec fn counts_at(&self, now: u64) -> TrafficCounts {
        if self.window_over(now) {
            TrafficCounts { real: 0, cover: 0 }
        } else {
            self.counts()
        }
    }

    /// When the window that holds at the time `now` began.
    pub open spec fn window_start_at(&self, now: u64) -> u64 {
        if self.window_over(now) {
            now
        } else {
            self.window_start()
        }
    }

    /// Adaptive cover traffic whose first window begins now.
    pub fn new(config: CoverTrafficConfig, target_ratio_permille: u32) -> (r: Self)
        ensures
            r.generator().config() == config,
            r.counts() == (TrafficCounts { real: 0, cover: 0 }),
            r.target_ratio_permille() == target_ratio_permille,
            r.window_duration_ms() == WINDOW_MS,
    {
        Self::new_at(config, target_ratio_permille, now_millis())
    }

    /// Adaptive cover traffic whose first window begins at `now`, in
    /// milliseconds.
    pub fn new_at(config: CoverTrafficConfig, target_ratio_permille: u32, now: u64) -> (r: Self)
        ensures
            r.generator().config() == config,
            r.generator().last_sent() == now,
            r.counts() == (TrafficCounts { real: 0, cover: 0 }),
            r.target_ratio_permille() == target_ratio_permille,
            r.window_start() == now,
            r.window_duration_ms() == WINDOW_MS,
    {
        Self {
            generator: CoverTrafficGenerator::new_at(config, now),
            real_traffic_count: 0,
            cover_traffic_count: 0,
            target_ratio_permille,
            window_start: now,
            window_duration_ms: WINDOW_MS,
        }
    }

    /// `after` is what counting one real packet at the time `now` leaves:
    /// the count of real packets is one higher, up to the largest value that
    /// it can hold, unless the window has run out at `now`; then a new window
    /// begins at `now` with no counts. The settings stay as they are.
    pub open spec fn counted(&self, after: Self, now: u64) -> bool {
        &&& after.generator() == self.generator()
        &&& after.target_ratio_permille() == self.target_ratio_permille()
        &&& after.window_duration_ms() == self.window_duration_ms()
        &&& after.window_start() == self.window_start_at(now)
        &&& after.counts() == if self.window_over(now) {
            TrafficCounts { real: 0, cover: 0 }
        } else {
            TrafficCounts {
                real: if self.counts().real < u64::MAX {
                    (self.counts().real + 1) as u64
                } else {
                    u64::MAX
                },
                cover: self.counts().cover,
            }
        }
    }

    /// Counts one real packet, then opens a new window if the present one
    /// has run out.
    ///
    /// Whatever the clock reads, the outcome is the one that
    /// `on_real_traffic_at` gives for that reading.
    pub fn on_real_traffic(&mut self)
        ensures
            exists|now: u64| #[trigger] old(self).counted(*final(self), now),
    {
        let now = now_millis();
        self.on_real_traffic_at(now);
        assert(old(self).counted(*self, now));
    }

    /// Counts one real packet, then opens a new window if the present one
    /// has run out at the time `now`, in milliseconds. The count stops at the
    /// largest value that it can hold.
    pub fn on_real_traffic_at(&mut self, now: u64)
        ensures
            old(self).counted(*final(self), now),
    {
        if self.real_traffic_count < u64::MAX {
            self.real_traffic_count += 1;
        }
        self.check_window_reset(now);
    }

    /// `r` is the answer for the reading `now` and the draw `draw`, and
    /// `after` what the answer leaves.
    ///
    /// A window that has run out at `now` is replaced first. With no real
    /// traffic in the window the rate-governed generator decides; otherwise
    /// the deficit does, and a decoy that is due is counted, up to the
    /// largest value that the count can hold. The settings stay as they are.
    pub open spec fn adapted(&self, after: Self, now: u64, draw: u64, r: bool) -> bool {
        &&& after.target_ratio_permille() == self.target_ratio_permille()
        &&& after.window_duration_ms() == self.window_duration_ms()
        &&& after.window_start() == self.window_start_at(now)
        &&& if self.counts_at(now).real == 0 {
            &&& self.generator().decided(after.generator(), now, draw, r)
            &&& after.counts() == self.counts_at(now)
        } else {
            &&& r == deficit_sends(self.counts_at(now), self.target_ratio_permille(), draw)
            &&& after.generator() == self.generator()
            &&& after.counts().real == self.counts_at(now).real
            &&& after.counts().cover == if r && self.counts_at(now).cover < u64::MAX {
                (self.counts_at(now).cover + 1) as u64
            } else {
                self.counts_at(now).cover
            }
        }
    }

    /// Whether a decoy is due now.
    ///
    /// Whatever the clock reads and whatever is drawn, the answer is the one
    /// that `should_send_adaptive_cover_at` gives for them.
    pub fn should_send_adaptive_cover(&mut self) -> (r: bool)
        ensures
            exists|now: u64, draw: u64| #[trigger] old(self).adapted(*final(self), now, draw, r),
    {
        let now = now_millis();
        let draw = random_u64();
        let r = self.should_send_adaptive_cover_at(now, draw);
        assert(old(self).adapted(*self, now, draw, r));
        r
    }

    /// Whether a decoy is due at the time `now`, in milliseconds, for the
    /// draw `draw`.
    pub fn should_send_adaptive_cover_at(&mut self, now: u64, draw: u64) -> (r: bool)
        ensures
            old(self).adapted(*final(self), now, draw, r),
    {
        self.check_window_reset(now);
        if self.real_traffic_count == 0 {
            return self.generator.should_send_cover_at(now, draw);
        }
        let cover: u128 = self.cover_traffic_count as u128 * 1000;
        assert(self.target_ratio_permille * self.real_traffic_count <= 0xFFFF_FFFF
            * 0xFFFF_FFFF_FFFF_FFFF) by (nonlinear_arith)
            requires
                self.target_ratio_permille <= 0xFFFF_FFFF,
                self.real_traffic_count <= 0xFFFF_FFFF_FFFF_FFFF,
        ;
        let aim: u128 = self.target_ratio_permille as u128 * self.real_traffic_count as u128;
        if cover < aim {
            let deficit: u128 = aim - cover;
            let certain = deficit >= 10000;
            if certain || (draw as u128) * 10000 < deficit * (u64::MAX as u128) {
                if self.cover_traffic_count < u64::MAX {
                    self.cover_traffic_count += 1;
                }
                return true;
            }
        }
        false
    }

    fn check_window_reset(&mut self, now: u64)
        ensures
            final(self).generator() == old(self).generator(),
            final(self).target_ratio_permille() == old(self).target_ratio_permille(),
            final(self).window_duration_ms() == old(self).window_duration_ms(),
            final(self).window_start() == old(self).window_start_at(now),
            final(self).counts() == old(self).counts_at(now),
    {
        if now as i128 - self.window_start as i128 >= self.window_duration_ms as i128 {
            self.real_traffic_count = 0;
            self.cover_traffic_count = 0;
            self.window_start = now;
        }
    }

    /// A decoy payload, as the rate-governed generator makes it.
    pub fn generate_cover_packet(&self) -> (r: Result<Vec<u8>, CoverTrafficError>)
        requires
            self.generator().config().wf(),
        ensures
            r matches Ok(payload) && {
                &&& self.generator().config().min_size <= payload@.len()
                    <= self.generator().config().max_size
                &&& self.generator().config().min_size < self.generator().config().max_size
                    ==> payload@.len() < self.generator().config().max_size
            },
    {
        self.generator.generate_cover_packet()
    }

    /// Seals `payload` as a decoy, as the rate-governed generator does.
    pub fn wrap_in_packet(&self, payload: Vec<u8>) -> (r: Result<TaiorPacket, CoverTrafficError>)
        requires
            payload@.len() + TAG_LEN <= usize::MAX,
        ensures
            r is Ok <==> sealable(payload@.len() as int),
            match r {
                Ok(p) => {
                    &&& p.seals(payload@)
                    &&& p.is_cover
                    &&& p.ttl == COVER_TTL
                },
                Err(CoverTrafficError::GenerationError(text)) => text@ == encrypt_error_text(),
                Err(_) => false,
            },
    {
        self.generator.wrap_in_packet(payload)
    }

    /// The counts of real and cover packets in the window, and the share of
    /// cover traffic in thousandths of the real traffic, rounded down; the
    /// share is zero while there is no real traffic.
    pub fn stats(&self) -> (r: (u64, u64, u128))
        ensures
            r.0 == self.counts().real,
            r.1 == self.counts().cover,
            r.2 == if self.counts().real > 0 {
                self.counts().cover * 1000 / (self.counts().real as int)
            } else {
                0
            },
    {
        let ratio: u128 = if self.real_traffic_count > 0 {
            self.cover_traffic_count as u128 * 1000 / self.real_traffic_count as u128
        } else {
            0
        };
        (self.real_traffic_count, self.cover_traffic_count, ratio)
    }
}

} // verus!
