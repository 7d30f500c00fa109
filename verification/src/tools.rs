//! Parameters of the memory and reminder tools.
use vstd::prelude::*;

verus! {

/// Parameters of `store_memory`.
#[derive(Debug)]
pub struct StoreMemoryParams {
    /// The fact, decision or preference to store, as a standalone statement.
    pub content: String,
    pub tags: Option<Vec<String>>,
    /// Groups this memory into a session, which is created on first use.
    pub session_id: Option<String>,
    /// The agent storing this; the first value that arrives for a session wins.
    pub agent_id: Option<String>,
    /// The model of the agent storing this; the first value that arrives for a session wins.
    pub model: Option<String>,
}

/// Parameters of `retrieve_memories`.
#[derive(Debug)]
pub struct RetrieveMemoriesParams {
    pub query: String,
    /// Maximum results to return.
    pub limit: Option<usize>,
    /// Restricts the search to one session.
    pub session_id: Option<String>,
}

/// Parameters of `recall`.
#[derive(Debug)]
pub struct RecallParams {
    pub query: String,
    /// Absent for a broad first pass; the handle of a cluster to narrow into it.
    pub scope_handle: Option<String>,
}

/// Parameters of `delete_memory`.
#[derive(Debug)]
pub struct DeleteMemoryParams {
    pub id: String,
}

/// Parameters of `import_document`.
#[derive(Debug)]
pub struct ImportDocumentParams {
    pub content: String,
    /// `whole` for a single memory, `chunk` (the default) to split.
    pub mode: Option<String>,
    /// `heading` (the default), `paragraph` or `fixed_size`.
    pub chunk_strategy: Option<String>,
    /// Applied to all resulting memories.
    pub tags: Option<Vec<String>>,
    pub session_id: Option<String>,
}

/// Parameters of `get_session`.
#[derive(Debug)]
pub struct GetSessionParams {
    pub session_id: String,
}

/// Parameters of `finalize_session`.
#[derive(Debug)]
pub struct FinalizeSessionParams {
    pub session_id: String,
    pub summary: Option<String>,
    pub tags: Option<Vec<String>>,
}

/// A recurring named pattern.
#[derive(Debug)]
pub struct ReminderPatternParams {
    /// `daily`, `weekly` or `monthly`.
    pub freq: String,
    /// Wall-clock time, `HH:MM`.
    pub time: String,
    /// For a weekly pattern: the names of its days.
    pub weekdays: Option<Vec<String>>,
    /// For a monthly pattern: its day, 1 to 31.
    pub day_of_month: Option<u32>,
}

/// Parameters of `set_reminder`. Exactly one of `due_at`, `pattern` and `cron` is given.
#[derive(Debug)]
pub struct SetReminderParams {
    /// The text to deliver; not blank.
    pub message: String,
    pub due_at: Option<String>,
    pub pattern: Option<ReminderPatternParams>,
    pub cron: Option<String>,
    /// The project to deliver in; absent for a global reminder.
    pub target_project: Option<String>,
    pub prov_project: Option<String>,
    pub session_id: Option<String>,
    pub note: Option<String>,
}

/// Parameters of `check_reminders`.
#[derive(Debug)]
pub struct CheckRemindersParams {
    /// The caller's project.
    pub project: Option<String>,
}

/// Parameters of `list_reminders`.
#[derive(Debug)]
pub struct ListRemindersParams {
    /// `pending` (the default), `delivered`, `cancelled` or `all`.
    pub status: Option<String>,
    pub target_project: Option<String>,
    pub limit: Option<i64>,
    pub offset: Option<i64>,
}

/// Parameters of `cancel_reminder`.
#[derive(Debug)]
pub struct CancelReminderParams {
    pub id: String,
}

} // verus!
