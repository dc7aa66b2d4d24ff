//! Routing profiles and their per-mode defaults.

use vstd::prelude::*;

verus! {

/// The three routing profiles.
#[derive(Debug, Clone, Copy, PartialEq, Eq, Structural)]
pub enum RoutingMode {
    /// Low latency: one hop, no cover traffic.
    Fast,
    /// High anonymity: four hops, cover traffic, large padding.
    Mix,
    /// A balance of the two.
    Adaptive,
}

/// What a routing profile resolves to for one send.
#[derive(Debug, Clone, Copy)]
pub struct ModeConfig {
    pub mode: RoutingMode,
    pub hops: u8,
    pub cover_traffic: bool,
    pub jitter_ms: Option<u64>,
    pub padding_size: usize,
}

impl ModeConfig {
    /// The defaults of each profile.
    pub open spec fn defaults(mode: RoutingMode) -> ModeConfig {
        match mode {
            RoutingMode::Fast => ModeConfig {
                mode: RoutingMode::Fast,
                hops: 1,
                cover_traffic: false,
                jitter_ms: None,
                padding_size: 64,
            },
            RoutingMode::Mix => ModeConfig {
                mode: RoutingMode::Mix,
                hops: 4,
                cover_traffic: true,
                jitter_ms: Some(200u64),
                padding_size: 512,
            },
            RoutingMode::Adaptive => ModeConfig {
                mode: RoutingMode::Adaptive,
                hops: 2,
                cover_traffic: false,
                jitter_ms: Some(50u64),
                padding_size: 256,
            },
        }
    }

    pub fn fast() -> (r: Self)
        ensures
            r == Self::defaults(RoutingMode::Fast),
    {
        Self {
            mode: RoutingMode::Fast,
            hops: 1,
            cover_traffic: false,
            jitter_ms: None,
            padding_size: 64,
        }
    }

    pub fn mix() -> (r: Self)
        ensures
            r == Self::defaults(RoutingMode::Mix),
    {
        Self {
            mode: RoutingMode::Mix,
            hops: 4,
            cover_traffic: true,
            jitter_ms: Some(200),
            padding_size: 512,
        }
    }

    pub fn adaptive() -> (r: Self)
        ensures
            r == Self::defaults(RoutingMode::Adaptive),
    {
        Self {
            mode: RoutingMode::Adaptive,
            hops: 2,
            cover_traffic: false,
            jitter_ms: Some(50),
            padding_size: 256,
        }
    }

    /// The defaults of `mode` with the hop count replaced by `hops`.
    pub fn custom(mode: RoutingMode, hops: u8) -> (r: Self)
        ensures
            r == (ModeConfig { hops, ..Self::defaults(mode) }),
    {
        match mode {
            RoutingMode::Fast => Self::fast(),
            RoutingMode::Mix => Self::mix(),
            RoutingMode::Adaptive => Self::adaptive(),
        }.with_hops(hops)
    }

    pub fn with_hops(self, hops: u8) -> (r: Self)
        ensures
            r == (ModeConfig { hops, ..self }),
    {
        let mut out = self;
        out.hops = hops;
        out
    }

    pub fn with_cover_traffic(self, enabled: bool) -> (r: Self)
        ensures
            r == (ModeConfig { cover_traffic: enabled, ..self }),
    {
        let mut out = self;
        out.cover_traffic = enabled;
        out
    }

    pub fn with_jitter(self, ms: Option<u64>) -> (r: Self)
        ensures
            r == (ModeConfig { jitter_ms: ms, ..self }),
    {
        let mut out = self;
        out.jitter_ms = ms;
        out
    }
}

} // verus!
