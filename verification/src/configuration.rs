//! What is configured of the agent.

use vstd::prelude::*;

verus! {

/// Seconds between two samples of each collector, where the default is
/// not wanted.
#[derive(Debug, Clone, Copy, PartialEq, Eq, Default)]
pub struct CollectorIntervals {
    pub process: Option<u64>,
    pub cpu: Option<u64>,
    pub memory: Option<u64>,
    pub disk: Option<u64>,
    pub network: Option<u64>,
}

/// How the scoring service is reached and asked, and how often the
/// collectors sample.
#[derive(Debug, PartialEq, Eq, Default)]
pub struct MonitorSettings {
    /// The base address of the scoring service.
    pub ollama_url: String,
    /// The model that is asked.
    pub model: String,
    /// The size of the context window of a request.
    pub context_size: u32,
    /// Whether processes are scored at all.
    pub analysis_enabled: bool,
    /// The configured intervals of the collectors.
    pub intervals: CollectorIntervals,
}

/// The settings of the agent.
#[derive(Debug, PartialEq, Eq, Default)]
pub struct Settings {
    pub monitor: MonitorSettings,
}

impl Clone for MonitorSettings {
    fn clone(&self) -> (copy: Self)
        ensures
            copy.ollama_url@ == self.ollama_url@,
            copy.model@ == self.model@,
            copy.context_size == self.context_size,
            copy.analysis_enabled == self.analysis_enabled,
            copy.intervals == self.intervals,
    {
        MonitorSettings {
            ollama_url: self.ollama_url.clone(),
            model: self.model.clone(),
            context_size: self.context_size,
            analysis_enabled: self.analysis_enabled,
            intervals: self.intervals,
        }
    }
}

impl Clone for Settings {
    fn clone(&self) -> (copy: Self)
        ensures
            copy.monitor.ollama_url@ == self.monitor.ollama_url@,
            copy.monitor.model@ == self.monitor.model@,
            copy.monitor.context_size == self.monitor.context_size,
            copy.monitor.analysis_enabled == self.monitor.analysis_enabled,
            copy.monitor.intervals == self.monitor.intervals,
    {
        Settings { monitor: self.monitor.clone() }
    }
}

} // verus!
