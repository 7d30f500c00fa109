//! The settings that the tools decide by.
use vstd::prelude::*;

use crate::failure::{error_message, Failure};
use crate::json::read_fault;
use crate::time::Zone;

verus! {

/// Reminder delivery settings.
#[derive(Debug)]
pub struct RemindersSettings {
    /// The zone in which schedules are evaluated and naive times are read.
    pub tz: Zone,
    /// How long a project reminder is held for its project before anyone gets it.
    pub escalation_hours: u64,
}

/// The tools' settings. Thresholds on similarities are held as scores. What reaches storage, the
/// embedding model and the clock stays with the program around the library, which hands in what it
/// read and carries out what is decided.
#[derive(Debug)]
pub struct AlexandriaServer {
    /// How similar a memory has to be to a cluster to join it.
    pub cluster_join_threshold: i64,
    /// How many of the kept results spread heat.
    pub activation_top_n: usize,
    /// Floor under the similarity of retrieved memories.
    pub retrieve_min_similarity: i64,
    /// Average similarity below which a cluster is reported as needing a split.
    pub cohesion_floor: i64,
    pub reminders: RemindersSettings,
}

impl AlexandriaServer {
    /// The tools with the given settings; three results spread heat.
    pub fn new(
        cluster_join_threshold: i64,
        retrieve_min_similarity: i64,
        cohesion_floor: i64,
        reminders: RemindersSettings,
    ) -> (r: AlexandriaServer)
        ensures
            r.cluster_join_threshold == cluster_join_threshold,
            r.activation_top_n == 3,
            r.retrieve_min_similarity == retrieve_min_similarity,
            r.cohesion_floor == cohesion_floor,
            r.reminders == reminders,
    {
        AlexandriaServer {
            cluster_join_threshold,
            activation_top_n: 3,
            retrieve_min_similarity,
            cohesion_floor,
            reminders,
        }
    }

    /// These settings with another number of results that spread heat.
    pub fn with_activation_top_n(self, n: usize) -> (r: AlexandriaServer)
        ensures
            r == (AlexandriaServer { activation_top_n: n, ..self }),
    {
        AlexandriaServer { activation_top_n: n, ..self }
    }

    /// These settings with another floor under retrieved similarities.
    pub fn with_retrieve_min_similarity(self, min_similarity: i64) -> (r: AlexandriaServer)
        ensures
            r == (AlexandriaServer { retrieve_min_similarity: min_similarity, ..self }),
    {
        AlexandriaServer { retrieve_min_similarity: min_similarity, ..self }
    }

    /// These settings with another cohesion floor.
    pub fn with_cohesion_floor(self, cohesion_floor: i64) -> (r: AlexandriaServer)
        ensures
            r == (AlexandriaServer { cohesion_floor, ..self }),
    {
        AlexandriaServer { cohesion_floor, ..self }
    }

    /// These settings with other reminder settings.
    pub fn with_reminders_config(self, settings: RemindersSettings) -> (r: AlexandriaServer)
        ensures
            r == (AlexandriaServer { reminders: settings, ..self }),
    {
        AlexandriaServer { reminders: settings, ..self }
    }
}

/// How a tool answers.
#[derive(Debug)]
pub enum ToolReply {
    /// The payload as structured content.
    Structured(String),
    /// The payload as plain text, because it is no JSON; with the parser's complaint.
    Text { payload: String, complaint: String },
    /// An error, with the whole chain of its causes on one line.
    Error { message: String },
}

/// How a tool answers, given what it came to. A payload that is no JSON is passed on as it is, never
/// made up.
pub fn tool_json(result: Result<String, Failure>) -> (r: ToolReply)
    ensures
        match result {
            Ok(s) => match crate::json::json_fault(s@) {
                None => r matches ToolReply::Structured(payload) && payload@ == s@,
                Some(e) => r matches ToolReply::Text { payload, complaint } && payload@ == s@
                    && complaint@ == e,
            },
            Err(e) => r matches ToolReply::Error { message } && message@ == crate::text::collapse(
                crate::failure::flat(e@),
            ),
        },
{
    match result {
        Ok(payload) => match read_fault(payload.as_str()) {
            None => ToolReply::Structured(payload),
            Some(complaint) => ToolReply::Text { payload, complaint },
        },
        Err(e) => ToolReply::Error { message: error_message(&e) },
    }
}

} // verus!
