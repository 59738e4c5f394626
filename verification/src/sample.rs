//! Sample messages from test scenarios: the generator keeps where the
//! scenarios are looked for; reading and generating is left to the caller.

use vstd::prelude::*;
use crate::scenario_config::{default_paths, ScenarioConfig};

verus! {

/// Builder for generating samples with a given scenario configuration.
#[derive(Debug, Clone)]
pub struct SampleGenerator {
    config: ScenarioConfig,
}

impl View for SampleGenerator {
    type V = Seq<Seq<char>>;

    closed spec fn view(&self) -> Seq<Seq<char>> {
        self.config@
    }
}

impl Default for SampleGenerator {
    fn default() -> (g: Self)
        ensures
            g@ == default_paths(),
    {
        Self::new()
    }
}

impl SampleGenerator {
    /// Create a new sample generator with default configuration
    pub fn new() -> (g: Self)
        ensures
            g@ == default_paths(),
    {
        SampleGenerator { config: ScenarioConfig::default() }
    }

    /// Create a sample generator with custom configuration
    pub fn with_config(config: ScenarioConfig) -> (g: Self)
        ensures
            g@ == config@,
    {
        SampleGenerator { config }
    }

    /// Add a path to search for scenarios
    pub fn with_path(self, path: String) -> (g: Self)
        ensures
            g@ == self@.push(path@),
    {
        SampleGenerator { config: self.config.add_path(path) }
    }

    /// Set multiple paths to search for scenarios
    pub fn with_paths(self, paths: Vec<String>) -> (g: Self)
        ensures
            g@ == crate::text::string_views(paths@),
    {
        SampleGenerator { config: self.config.set_paths(paths) }
    }

    /// Get the current configuration
    pub fn config(&self) -> (c: &ScenarioConfig)
        ensures
            c@ == self@,
    {
        &self.config
    }
}

} // verus!
