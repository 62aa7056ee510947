//! The entity model: typed records for boards, cards, checklists, comments
//! and agents, their mathematical views, the update patches, and the error
//! kinds.
//!
//! Timestamps are integer microsecond counts since the Unix epoch; the
//! clock itself lives outside the core and hands plain values in.

use vstd::prelude::*;

verus! {

use vstd::string::StringExecFns;

/// Workflow state of a card.
#[derive(Clone, Copy, Debug, PartialEq, Eq, Structural)]
pub enum Status {
    Todo,
    InProgress,
    PendingReview,
    Done,
}

impl Status {
    /// The snake_case text of a status, as stored and displayed.
    pub open spec fn spec_label(self) -> Seq<char> {
        match self {
            Status::Todo => "todo"@,
            Status::InProgress => "in_progress"@,
            Status::PendingReview => "pending_review"@,
            Status::Done => "done"@,
        }
    }

    /// Renders the status as its snake_case text.
    pub fn label(&self) -> (s: &'static str)
        ensures
            s@ == self.spec_label(),
    {
        match self {
            Status::Todo => "todo",
            Status::InProgress => "in_progress",
            Status::PendingReview => "pending_review",
            Status::Done => "done",
        }
    }
}

/// Decodes a stored status text; anything unrecognized falls back to `Todo`.
pub fn status_from_str(s: &str) -> (st: Status)
    ensures
        st == spec_status_from_str(s@),
{
    let owned = s.to_owned();
    if owned.eq(&String::from_str("in_progress")) {
        Status::InProgress
    } else if owned.eq(&String::from_str("pending_review")) {
        Status::PendingReview
    } else if owned.eq(&String::from_str("done")) {
        Status::Done
    } else {
        Status::Todo
    }
}

/// The decoding rule for stored status text.
pub open spec fn spec_status_from_str(s: Seq<char>) -> Status {
    if s == "in_progress"@ {
        Status::InProgress
    } else if s == "pending_review"@ {
        Status::PendingReview
    } else if s == "done"@ {
        Status::Done
    } else {
        Status::Todo
    }
}

/// Mathematical view of a board.
#[verifier::ext_equal]
pub struct BoardV {
    pub id: Seq<char>,
    pub name: Seq<char>,
    pub description: Option<Seq<char>>,
    pub created_at: int,
    pub updated_at: int,
    pub deleted_at: Option<int>,
}

/// A named collection of cards. Soft-deleted by setting `deleted_at`.
#[derive(Debug)]
pub struct Board {
    pub id: String,
    pub name: String,
    pub description: Option<String>,
    pub created_at: i64,
    pub updated_at: i64,
    pub deleted_at: Option<i64>,
}

/// The view of an optional owned string.
pub open spec fn view_opt_string(o: Option<String>) -> Option<Seq<char>> {
    match o {
        Some(s) => Some(s@),
        None => None,
    }
}

/// The view of an optional timestamp.
pub open spec fn view_opt_time(o: Option<i64>) -> Option<int> {
    match o {
        Some(t) => Some(t as int),
        None => None,
    }
}

impl View for Board {
    type V = BoardV;

    open spec fn view(&self) -> BoardV {
        BoardV {
            id: self.id@,
            name: self.name@,
            description: view_opt_string(self.description),
            created_at: self.created_at as int,
            updated_at: self.updated_at as int,
            deleted_at: view_opt_time(self.deleted_at),
        }
    }
}

/// Copies an optional string, preserving its view.
pub fn dup_opt_string(o: &Option<String>) -> (r: Option<String>)
    ensures
        view_opt_string(r) == view_opt_string(*o),
{
    match o {
        Some(s) => Some(s.clone()),
        None => None,
    }
}

impl Board {
    /// An owned copy with the same view.
    pub fn duplicate(&self) -> (r: Board)
        ensures
            r@ == self@,
    {
        Board {
            id: self.id.clone(),
            name: self.name.clone(),
            description: dup_opt_string(&self.description),
            created_at: self.created_at,
            updated_at: self.updated_at,
            deleted_at: self.deleted_at,
        }
    }
}

/// Mathematical view of a checklist item.
#[verifier::ext_equal]
pub struct ChecklistItemV {
    pub id: Seq<char>,
    pub text: Seq<char>,
    pub checked: bool,
}

/// One line of a checklist.
#[derive(Debug)]
pub struct ChecklistItem {
    pub id: String,
    pub text: String,
    pub checked: bool,
}

impl View for ChecklistItem {
    type V = ChecklistItemV;

    open spec fn view(&self) -> ChecklistItemV {
        ChecklistItemV { id: self.id@, text: self.text@, checked: self.checked }
    }
}

impl ChecklistItem {
    /// An owned copy with the same view.
    pub fn duplicate(&self) -> (r: ChecklistItem)
        ensures
            r@ == self@,
    {
        ChecklistItem { id: self.id.clone(), text: self.text.clone(), checked: self.checked }
    }
}

/// Mathematical view of a checklist.
#[verifier::ext_equal]
pub struct ChecklistV {
    pub id: Seq<char>,
    pub name: Seq<char>,
    pub items: Seq<ChecklistItemV>,
}

/// An ordered list of items, owned exclusively by one card.
#[derive(Debug)]
pub struct Checklist {
    pub id: String,
    pub name: String,
    pub items: Vec<ChecklistItem>,
}

impl View for Checklist {
    type V = ChecklistV;

    open spec fn view(&self) -> ChecklistV {
        ChecklistV {
            id: self.id@,
            name: self.name@,
            items: self.items@.map_values(|it: ChecklistItem| it@),
        }
    }
}

impl Checklist {
    /// An owned copy with the same view.
    pub fn duplicate(&self) -> (r: Checklist)
        ensures
            r@ == self@,
    {
        let mut items: Vec<ChecklistItem> = Vec::new();
        let n = self.items.len();
        for i in 0..n
            invariant
                n == self.items.len(),
                items.len() == i,
                forall|j: int| 0 <= j < i ==> items@[j]@ == self.items@[j]@,
        {
            items.push(self.items[i].duplicate());
        }
        let r = Checklist { id: self.id.clone(), name: self.name.clone(), items };
        proof {
            assert(r@.items =~= self@.items);
            assert(r@ =~= self@);
        }
        r
    }
}

/// Mathematical view of a card.
#[verifier::ext_equal]
pub struct CardV {
    pub id: Seq<char>,
    pub board_id: Seq<char>,
    pub name: Seq<char>,
    pub description: Option<Seq<char>>,
    pub status: Status,
    pub assigned_to: Option<Seq<char>>,
    pub tags: Seq<Seq<char>>,
    pub checklists: Seq<ChecklistV>,
    pub created_at: int,
    pub updated_at: int,
    pub deleted_at: Option<int>,
}

/// A task on a board, with status, assignment, tags and checklists.
#[derive(Debug)]
pub struct Card {
    pub id: String,
    pub board_id: String,
    pub name: String,
    pub description: Option<String>,
    pub status: Status,
    pub assigned_to: Option<String>,
    pub tags: Vec<String>,
    pub checklists: Vec<Checklist>,
    pub created_at: i64,
    pub updated_at: i64,
    pub deleted_at: Option<i64>,
}

impl View for Card {
    type V = CardV;

    open spec fn view(&self) -> CardV {
        CardV {
            id: self.id@,
            board_id: self.board_id@,
            name: self.name@,
            description: view_opt_string(self.description),
            status: self.status,
            assigned_to: view_opt_string(self.assigned_to),
            tags: self.tags.deep_view(),
            checklists: self.checklists@.map_values(|c: Checklist| c@),
            created_at: self.created_at as int,
            updated_at: self.updated_at as int,
            deleted_at: view_opt_time(self.deleted_at),
        }
    }
}

/// Copies a vector of strings, preserving its element views.
pub fn dup_strings(v: &Vec<String>) -> (r: Vec<String>)
    ensures
        r.deep_view() == v.deep_view(),
{
    let mut r: Vec<String> = Vec::new();
    let n = v.len();
    for i in 0..n
        invariant
            n == v.len(),
            r.len() == i,
            forall|j: int| 0 <= j < i ==> r@[j]@ == v@[j]@,
    {
        r.push(v[i].clone());
    }
    proof {
        assert(r.deep_view() =~= v.deep_view());
    }
    r
}

/// Copies a vector of checklists, preserving its element views.
pub fn dup_checklists(v: &Vec<Checklist>) -> (r: Vec<Checklist>)
    ensures
        r@.map_values(|c: Checklist| c@) == v@.map_values(|c: Checklist| c@),
{
    let mut r: Vec<Checklist> = Vec::new();
    let n = v.len();
    for i in 0..n
        invariant
            n == v.len(),
            r.len() == i,
            forall|j: int| 0 <= j < i ==> r@[j]@ == v@[j]@,
    {
        r.push(v[i].duplicate());
    }
    proof {
        assert(r@.map_values(|c: Checklist| c@) =~= v@.map_values(|c: Checklist| c@));
    }
    r
}

impl Card {
    /// An owned copy with the same view.
    pub fn duplicate(&self) -> (r: Card)
        ensures
            r@ == self@,
    {
        let r = Card {
            id: self.id.clone(),
            board_id: self.board_id.clone(),
            name: self.name.clone(),
            description: dup_opt_string(&self.description),
            status: self.status,
            assigned_to: dup_opt_string(&self.assigned_to),
            tags: dup_strings(&self.tags),
            checklists: dup_checklists(&self.checklists),
            created_at: self.created_at,
            updated_at: self.updated_at,
            deleted_at: self.deleted_at,
        };
        proof {
            assert(r@ =~= self@);
        }
        r
    }
}

/// Mathematical view of a comment.
#[verifier::ext_equal]
pub struct CommentV {
    pub id: Seq<char>,
    pub card_id: Seq<char>,
    pub author: Option<Seq<char>>,
    pub text: Seq<char>,
    pub created_at: int,
}

/// A note on a card; immutable once created.
#[derive(Debug)]
pub struct Comment {
    pub id: String,
    pub card_id: String,
    pub author: Option<String>,
    pub text: String,
    pub created_at: i64,
}

impl View for Comment {
    type V = CommentV;

    open spec fn view(&self) -> CommentV {
        CommentV {
            id: self.id@,
            card_id: self.card_id@,
            author: view_opt_string(self.author),
            text: self.text@,
            created_at: self.created_at as int,
        }
    }
}

impl Comment {
    /// An owned copy with the same view.
    pub fn duplicate(&self) -> (r: Comment)
        ensures
            r@ == self@,
    {
        Comment {
            id: self.id.clone(),
            card_id: self.card_id.clone(),
            author: dup_opt_string(&self.author),
            text: self.text.clone(),
            created_at: self.created_at,
        }
    }
}

/// Mathematical view of an agent identity.
#[verifier::ext_equal]
pub struct AgentV {
    pub id: Seq<char>,
    pub name: Seq<char>,
    pub command: Seq<char>,
    pub working_directory: Seq<char>,
    pub description: Option<Seq<char>>,
    pub created_at: int,
    pub updated_at: int,
    pub deactivated_at: Option<int>,
}

/// A registered acting identity; soft-deleted by setting `deactivated_at`.
#[derive(Debug)]
pub struct Agent {
    pub id: String,
    pub name: String,
    pub command: String,
    pub working_directory: String,
    pub description: Option<String>,
    pub created_at: i64,
    pub updated_at: i64,
    pub deactivated_at: Option<i64>,
}

impl View for Agent {
    type V = AgentV;

    open spec fn view(&self) -> AgentV {
        AgentV {
            id: self.id@,
            name: self.name@,
            command: self.command@,
            working_directory: self.working_directory@,
            description: view_opt_string(self.description),
            created_at: self.created_at as int,
            updated_at: self.updated_at as int,
            deactivated_at: view_opt_time(self.deactivated_at),
        }
    }
}

impl Agent {
    /// An owned copy with the same view.
    pub fn duplicate(&self) -> (r: Agent)
        ensures
            r@ == self@,
    {
        Agent {
            id: self.id.clone(),
            name: self.name.clone(),
            command: self.command.clone(),
            working_directory: self.working_directory.clone(),
            description: dup_opt_string(&self.description),
            created_at: self.created_at,
            updated_at: self.updated_at,
            deactivated_at: self.deactivated_at,
        }
    }
}

/// Tri-state assignment patch: untouched, explicitly cleared, or set to an
/// identity. A plain optional cannot tell "don't touch" from "clear".
#[derive(Debug)]
pub enum AssignPatch {
    NoChange,
    Clear,
    SetTo(String),
}

/// Parameters for updating a card; every field is optional and independent.
#[derive(Debug)]
pub struct CardUpdate {
    pub name: Option<String>,
    pub description: Option<String>,
    pub status: Option<Status>,
    pub assignment: AssignPatch,
    pub add_tags: Vec<String>,
    pub remove_tags: Vec<String>,
}

/// Parameters for updating an agent; every field is optional and independent.
#[derive(Debug)]
pub struct AgentUpdate {
    pub name: Option<String>,
    pub command: Option<String>,
    pub description: Option<String>,
    pub working_directory: Option<String>,
}

/// Card counts of one board, over its non-deleted cards only.
#[derive(Clone, Copy, Debug, PartialEq, Eq, Structural)]
pub struct BoardSummary {
    pub todo_count: usize,
    pub in_progress_count: usize,
    pub pending_review_count: usize,
    pub done_count: usize,
    pub total_cards: usize,
}

/// The selectable output shapes: machine-readable, tabular, bare IDs, or
/// the kanban board (single-board detail only).
#[derive(Clone, Copy, Debug, PartialEq, Eq, Structural)]
pub enum OutputFormat {
    Json,
    Table,
    Simple,
    Pretty,
}

impl Default for OutputFormat {
    /// The tabular view is the default.
    fn default() -> (f: OutputFormat)
        ensures
            f == OutputFormat::Table,
    {
        OutputFormat::Table
    }
}

/// What can go wrong: a missing or soft-deleted referent, malformed input,
/// or a failure of the underlying machinery.
#[derive(Debug)]
pub enum AgentBoardError {
    General(String),
    InvalidArgs(String),
    NotFound(String),
}

impl AgentBoardError {
    /// The process exit status that each error kind maps to.
    pub fn exit_code(&self) -> (c: u8)
        ensures
            c == match self {
                AgentBoardError::General(_) => 1u8,
                AgentBoardError::InvalidArgs(_) => 2u8,
                AgentBoardError::NotFound(_) => 4u8,
            },
    {
        match self {
            AgentBoardError::General(_) => 1,
            AgentBoardError::InvalidArgs(_) => 2,
            AgentBoardError::NotFound(_) => 4,
        }
    }

    /// The human-readable message carried by the error.
    pub fn message(&self) -> (m: &String)
        ensures
            m@ == match self {
                AgentBoardError::General(s) => s@,
                AgentBoardError::InvalidArgs(s) => s@,
                AgentBoardError::NotFound(s) => s@,
            },
    {
        match self {
            AgentBoardError::General(s) => s,
            AgentBoardError::InvalidArgs(s) => s,
            AgentBoardError::NotFound(s) => s,
        }
    }
}

} // verus!
