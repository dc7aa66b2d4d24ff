//! The library's side of next-hop selection.
//!
//! Which neighbor comes next is chosen by a routing engine that weighs the
//! candidates and draws on secure entropy. The engine is run by the caller.
//! What is decided here is whether there is a choice to be made at all, which
//! candidates are put before the engine, and under which policy.

use crate::modes::ModeConfig;
use vstd::prelude::*;

verus! {

/// How strongly the engine is asked to avoid neighbors that resemble recent
/// picks.
#[derive(Debug, Clone, Copy, PartialEq, Eq, Structural)]
pub enum DiversityLevel {
    Low,
    Medium,
    High,
}

/// The constraints that accompany one choice.
#[derive(Debug, Clone, Copy, PartialEq, Eq, Structural)]
pub struct PolicyConstraints {
    pub diversity: DiversityLevel,
    pub latency_weight: u32,
    pub bandwidth_weight: u32,
    pub avoid_loops: bool,
    pub max_hops: u8,
}

/// The settings of the engine itself.
#[derive(Debug, Clone, Copy)]
pub struct DecisionConfig {
    pub max_candidates: Option<u32>,
}

/// One question for the routing engine: choose one of `candidates` under
/// `policy`.
#[derive(Debug)]
pub struct HopQuery {
    pub candidates: Vec<String>,
    pub policy: PolicyConstraints,
}

/// The diversity asked for with `hops` hops left: none for a single hop,
/// exact repeats forbidden for two or three, the strictest level beyond.
pub open spec fn diversity_for(hops: u8) -> DiversityLevel {
    if hops == 1 {
        DiversityLevel::Low
    } else if 2 <= hops <= 3 {
        DiversityLevel::Medium
    } else {
        DiversityLevel::High
    }
}

/// The policy of a choice with `hops` hops left: latency counts twice as
/// much as bandwidth, and loops are avoided.
pub open spec fn policy_for(hops: u8) -> PolicyConstraints {
    PolicyConstraints {
        diversity: diversity_for(hops),
        latency_weight: 2,
        bandwidth_weight: 1,
        avoid_loops: true,
        max_hops: hops,
    }
}

/// Prepares the questions that are put to the routing engine.
pub struct Router {
    config: DecisionConfig,
}

impl Router {
    /// The engine's settings.
    pub closed spec fn config(&self) -> DecisionConfig {
        self.config
    }

    /// A router whose engine considers at most ten candidates.
    pub fn new() -> (r: Self)
        ensures
            r.config().max_candidates == Some(10u32),
    {
        Self { config: DecisionConfig { max_candidates: Some(10) } }
    }

    /// The settings with which the engine is to be created.
    pub fn decision_config(&self) -> (r: DecisionConfig)
        ensures
            r == self.config(),
    {
        self.config
    }

    /// The policy under which the next hop of a send with `config` is
    /// chosen.
    pub fn policy(config: &ModeConfig) -> (r: PolicyConstraints)
        ensures
            r == policy_for(config.hops),
    {
        let diversity = if config.hops == 1 {
            DiversityLevel::Low
        } else if config.hops >= 2 && config.hops <= 3 {
            DiversityLevel::Medium
        } else {
            DiversityLevel::High
        };
        PolicyConstraints {
            diversity,
            latency_weight: 2,
            bandwidth_weight: 1,
            avoid_loops: true,
            max_hops: config.hops,
        }
    }

    /// The question to put to the engine for the next hop among `neighbors`:
    /// none where there is no neighbor, and then the next hop is `None`
    /// without the engine being asked.
    pub fn plan_next_hop(&self, neighbors: Vec<String>, config: &ModeConfig) -> (r: Option<
        HopQuery,
    >)
        ensures
            r is None <==> neighbors@.len() == 0,
            r matches Some(q) ==> q.candidates == neighbors && q.policy == policy_for(config.hops),
    {
        if neighbors.is_empty() {
            return None;
        }
        Some(HopQuery { candidates: neighbors, policy: Self::policy(config) })
    }
}

impl Default for Router {
    fn default() -> (r: Self)
        ensures
            r.config().max_candidates == Some(10u32),
    {
        Self::new()
    }
}

} // verus!
