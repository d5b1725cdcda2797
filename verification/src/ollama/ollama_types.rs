//! What is sent to the scoring service and what comes back from it.

use vstd::prelude::*;

verus! {

/// The envelope in which the service answers. `response` holds the text
/// that the model wrote.
#[derive(Default, Debug, PartialEq, Eq)]
pub struct OllamaResponse {
    pub model: String,
    pub created_at: String,
    pub response: String,
    pub done: bool,
    pub context: Vec<i64>,
    pub total_duration: i64,
    pub load_duration: i64,
    pub prompt_eval_count: i64,
    pub prompt_eval_duration: i64,
    pub eval_count: i64,
    pub eval_duration: i64,
}

/// Options of one request.
#[derive(Default, Debug, Clone, Copy, PartialEq, Eq)]
pub struct Options {
    /// The size of the context window.
    pub num_ctx: u32,
}

/// One request to the service.
#[derive(Default, Debug, PartialEq, Eq)]
pub struct OllamaRequest<'a> {
    pub model: &'a str,
    pub prompt: String,
    pub stream: bool,
    pub options: Options,
}

/// What is sent of one process: its pid and its name, nothing else.
#[derive(Default, Debug, PartialEq, Eq)]
pub struct OllamaNameInput {
    pub pid: u32,
    pub name: String,
}

/// What is sent of a process as contracts speak of it.
pub struct NameModel {
    pub pid: u32,
    pub name: Seq<char>,
}

impl DeepView for OllamaNameInput {
    type V = NameModel;

    open spec fn deep_view(&self) -> NameModel {
        NameModel { pid: self.pid, name: self.name@ }
    }
}

impl View for OllamaNameInput {
    type V = NameModel;

    open spec fn view(&self) -> NameModel {
        self.deep_view()
    }
}

impl Clone for OllamaNameInput {
    fn clone(&self) -> (copy: Self)
        ensures
            copy@ == self@,
    {
        OllamaNameInput { pid: self.pid, name: self.name.clone() }
    }
}

/// What would be sent of one process for a judgement of its use of
/// resources.
#[derive(Default, Debug, PartialEq, Eq)]
pub struct OllamaResourceUsageInput {
    pub pid: u32,
    pub name: String,
    pub cpu_usage: u32,
    pub memory_usage: u32,
}

/// A judgement of one process as a yes or no.
#[derive(Default, Debug, PartialEq, Eq)]
pub struct OllamaAgentOutput {
    pub pid: u64,
    pub name: String,
    pub is_malicious: bool,
    pub reason: String,
}

impl OllamaAgentOutput {
    /// The judgement as a score: the greatest score for a yes, zero for a
    /// no. There is none where the pid does not fit 32 bits.
    pub fn as_score(&self) -> (score: Option<ProcessScore>)
        ensures
            match score {
                Some(stated) => self.pid <= u32::MAX && stated@ == (ScoreModel {
                    pid: self.pid as u32,
                    name: self.name@,
                    score: if self.is_malicious {
                        100u8
                    } else {
                        0u8
                    },
                    reason: self.reason@,
                }),
                None => self.pid > u32::MAX,
            },
    {
        if self.pid > u32::MAX as u64 {
            None
        } else {
            Some(
                ProcessScore {
                    pid: self.pid as u32,
                    name: self.name.clone(),
                    score: if self.is_malicious {
                        100
                    } else {
                        0
                    },
                    reason: self.reason.clone(),
                },
            )
        }
    }
}

/// A process by pid and name.
#[derive(Default, Debug, PartialEq, Eq)]
pub struct ProcessInfo {
    pub pid: u32,
    pub name: String,
}

/// The score that the service gave one process, from 0 to 100.
#[derive(Debug, PartialEq, Eq)]
pub struct ProcessScore {
    pub pid: u32,
    pub name: String,
    pub score: u8,
    pub reason: String,
}

/// A score as contracts speak of it.
pub struct ScoreModel {
    pub pid: u32,
    pub name: Seq<char>,
    pub score: u8,
    pub reason: Seq<char>,
}

impl DeepView for ProcessScore {
    type V = ScoreModel;

    open spec fn deep_view(&self) -> ScoreModel {
        ScoreModel { pid: self.pid, name: self.name@, score: self.score, reason: self.reason@ }
    }
}

impl View for ProcessScore {
    type V = ScoreModel;

    open spec fn view(&self) -> ScoreModel {
        self.deep_view()
    }
}

impl Clone for ProcessScore {
    fn clone(&self) -> (copy: Self)
        ensures
            copy@ == self@,
    {
        ProcessScore {
            pid: self.pid,
            name: self.name.clone(),
            score: self.score,
            reason: self.reason.clone(),
        }
    }
}

} // verus!
