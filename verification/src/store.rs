//! The store: single authority over all entity state. Every operation of
//! the data/query engine lives here, specified against the mathematical
//! view of the whole aggregate.
//!
//! Mutating operations take the current timestamp as a plain value; ID
//! generation goes through the wrappers in `gen` and is re-checked for
//! freshness here, so well-formedness never rests on luck.

use vstd::prelude::*;

verus! {

use vstd::pervasive::VecAdditionalExecFns;
use vstd::string::StringExecFns;

broadcast use vstd::seq_lib::group_filter_ensures;

use crate::models::{
    Agent, AgentBoardError, AgentUpdate, AgentV, AssignPatch, Board, BoardSummary, BoardV, Card,
    CardUpdate, CardV, Checklist, ChecklistItem, ChecklistItemV, ChecklistV, Comment, CommentV,
    Status, dup_opt_string, view_opt_string,
};
use crate::ids::{
    is_agent_id, is_board_id, is_card_id, is_checklist_id, is_comment_id, is_item_id, str_eq,
};
use crate::gen::fresh_id;

/// Views of a sequence of boards.
pub open spec fn bviews(s: Seq<Board>) -> Seq<BoardV> {
    s.map_values(|b: Board| b@)
}

/// Views of a sequence of cards.
pub open spec fn cviews(s: Seq<Card>) -> Seq<CardV> {
    s.map_values(|c: Card| c@)
}

/// Views of a sequence of comments.
pub open spec fn mviews(s: Seq<Comment>) -> Seq<CommentV> {
    s.map_values(|m: Comment| m@)
}

/// Views of a sequence of agents.
pub open spec fn aviews(s: Seq<Agent>) -> Seq<AgentV> {
    s.map_values(|a: Agent| a@)
}

/// Mathematical view of the whole store.
#[verifier::ext_equal]
pub struct DatabaseV {
    pub boards: Seq<BoardV>,
    pub cards: Seq<CardV>,
    pub comments: Seq<CommentV>,
    pub agents: Seq<AgentV>,
}

/// The store: four top-level collections, each record carrying its own
/// identity and soft-delete marker.
#[derive(Debug)]
pub struct Database {
    pub boards: Vec<Board>,
    pub cards: Vec<Card>,
    pub comments: Vec<Comment>,
    pub agents: Vec<Agent>,
}

impl View for Database {
    type V = DatabaseV;

    open spec fn view(&self) -> DatabaseV {
        DatabaseV {
            boards: bviews(self.boards@),
            cards: cviews(self.cards@),
            comments: mviews(self.comments@),
            agents: aviews(self.agents@),
        }
    }
}

/// Some board carries this ID, deleted or not.
pub open spec fn has_board(v: DatabaseV, id: Seq<char>) -> bool {
    exists|i: int| 0 <= i < v.boards.len() && v.boards[i].id == id
}

/// Some non-deleted board carries this ID.
pub open spec fn has_active_board(v: DatabaseV, id: Seq<char>) -> bool {
    exists|i: int|
        0 <= i < v.boards.len() && v.boards[i].id == id && v.boards[i].deleted_at is None
}

/// Some card carries this ID, deleted or not.
pub open spec fn has_card(v: DatabaseV, id: Seq<char>) -> bool {
    exists|i: int| 0 <= i < v.cards.len() && v.cards[i].id == id
}

/// Some non-deleted card carries this ID.
pub open spec fn has_active_card(v: DatabaseV, id: Seq<char>) -> bool {
    exists|i: int| 0 <= i < v.cards.len() && v.cards[i].id == id && v.cards[i].deleted_at is None
}

/// Some comment carries this ID.
pub open spec fn has_comment(v: DatabaseV, id: Seq<char>) -> bool {
    exists|i: int| 0 <= i < v.comments.len() && v.comments[i].id == id
}

/// Some agent carries this ID, deactivated or not.
pub open spec fn has_agent(v: DatabaseV, id: Seq<char>) -> bool {
    exists|i: int| 0 <= i < v.agents.len() && v.agents[i].id == id
}

/// Some active agent carries this ID.
pub open spec fn has_active_agent(v: DatabaseV, id: Seq<char>) -> bool {
    exists|i: int|
        0 <= i < v.agents.len() && v.agents[i].id == id && v.agents[i].deactivated_at is None
}

/// Some active agent carries this name.
pub open spec fn active_agent_name_taken(v: DatabaseV, name: Seq<char>) -> bool {
    exists|i: int|
        0 <= i < v.agents.len() && v.agents[i].name == name && v.agents[i].deactivated_at is None
}

/// Some checklist of some card carries this ID.
pub open spec fn has_checklist(v: DatabaseV, id: Seq<char>) -> bool {
    exists|i: int, j: int|
        0 <= i < v.cards.len() && 0 <= j < v.cards[i].checklists.len()
            && v.cards[i].checklists[j].id == id
}

/// Some checklist item of some card carries this ID.
pub open spec fn has_item(v: DatabaseV, id: Seq<char>) -> bool {
    exists|i: int, j: int, k: int|
        0 <= i < v.cards.len() && 0 <= j < v.cards[i].checklists.len() && 0 <= k
            < v.cards[i].checklists[j].items.len() && v.cards[i].checklists[j].items[k].id == id
}

/// Boards: pairwise distinct, properly prefixed IDs.
pub open spec fn boards_wf(boards: Seq<BoardV>) -> bool {
    &&& forall|i: int, j: int|
        0 <= i < j < boards.len() ==> #[trigger] boards[i].id != #[trigger] boards[j].id
    &&& forall|i: int| 0 <= i < boards.len() ==> is_board_id(#[trigger] boards[i].id)
}

/// One card in isolation: prefixed ID, duplicate-free tags, properly
/// prefixed checklist and item IDs.
pub open spec fn card_wf(c: CardV) -> bool {
    &&& is_card_id(c.id)
    &&& forall|a: int, b: int| 0 <= a < b < c.tags.len() ==> c.tags[a] != c.tags[b]
    &&& forall|j: int| 0 <= j < c.checklists.len() ==> is_checklist_id(#[trigger] c.checklists[j].id)
    &&& forall|j: int, k: int|
        0 <= j < c.checklists.len() && 0 <= k < c.checklists[j].items.len() ==> is_item_id(
            #[trigger] c.checklists[j].items[k].id,
        )
}

/// The card's board reference names an existing board, deleted or not.
pub open spec fn board_ref_ok(boards: Seq<BoardV>, card: CardV) -> bool {
    exists|k: int| 0 <= k < boards.len() && boards[k].id == card.board_id
}

/// The comment's card reference names an existing card, deleted or not.
pub open spec fn card_ref_ok(cards: Seq<CardV>, comment: CommentV) -> bool {
    exists|k: int| 0 <= k < cards.len() && cards[k].id == comment.card_id
}

/// Cards: pairwise distinct IDs, each well formed, each referencing an
/// existing board; checklist and item IDs distinct across the whole store.
pub open spec fn cards_wf(cards: Seq<CardV>, boards: Seq<BoardV>) -> bool {
    &&& forall|i: int, j: int|
        0 <= i < j < cards.len() ==> #[trigger] cards[i].id != #[trigger] cards[j].id
    &&& forall|i: int| 0 <= i < cards.len() ==> card_wf(#[trigger] cards[i])
    &&& forall|i: int| 0 <= i < cards.len() ==> board_ref_ok(boards, #[trigger] cards[i])
    &&& forall|i1: int, j1: int, i2: int, j2: int|
        0 <= i1 < cards.len() && 0 <= j1 < cards[i1].checklists.len() && 0 <= i2 < cards.len()
            && 0 <= j2 < cards[i2].checklists.len() && (i1 != i2 || j1 != j2)
            ==> #[trigger] cards[i1].checklists[j1].id != #[trigger] cards[i2].checklists[j2].id
    &&& forall|i1: int, j1: int, k1: int, i2: int, j2: int, k2: int|
        0 <= i1 < cards.len() && 0 <= j1 < cards[i1].checklists.len() && 0 <= k1
            < cards[i1].checklists[j1].items.len() && 0 <= i2 < cards.len() && 0 <= j2
            < cards[i2].checklists.len() && 0 <= k2 < cards[i2].checklists[j2].items.len() && (i1
            != i2 || j1 != j2 || k1 != k2) ==> #[trigger] cards[i1].checklists[j1].items[k1].id
            != #[trigger] cards[i2].checklists[j2].items[k2].id
}

/// Comments: pairwise distinct, prefixed IDs, each referencing an existing card.
pub open spec fn comments_wf(comments: Seq<CommentV>, cards: Seq<CardV>) -> bool {
    &&& forall|i: int, j: int|
        0 <= i < j < comments.len() ==> #[trigger] comments[i].id != #[trigger] comments[j].id
    &&& forall|i: int| 0 <= i < comments.len() ==> is_comment_id(#[trigger] comments[i].id)
    &&& forall|i: int| 0 <= i < comments.len() ==> card_ref_ok(cards, #[trigger] comments[i])
}

/// Agents: pairwise distinct, prefixed IDs; names unique among active agents.
pub open spec fn agents_wf(agents: Seq<AgentV>) -> bool {
    &&& forall|i: int, j: int|
        0 <= i < j < agents.len() ==> #[trigger] agents[i].id != #[trigger] agents[j].id
    &&& forall|i: int| 0 <= i < agents.len() ==> is_agent_id(#[trigger] agents[i].id)
    &&& forall|i: int, j: int|
        0 <= i < j < agents.len() && agents[i].deactivated_at is None && agents[j].deactivated_at
            is None ==> #[trigger] agents[i].name != #[trigger] agents[j].name
}

impl DatabaseV {
    /// Well-formedness of the whole store.
    pub open spec fn wf(self) -> bool {
        &&& boards_wf(self.boards)
        &&& cards_wf(self.cards, self.boards)
        &&& comments_wf(self.comments, self.cards)
        &&& agents_wf(self.agents)
    }
}

impl Default for Database {
    /// The empty store.
    fn default() -> (db: Database)
        ensures
            db@.boards.len() == 0,
            db@.cards.len() == 0,
            db@.comments.len() == 0,
            db@.agents.len() == 0,
            db@.wf(),
    {
        Database { boards: Vec::new(), cards: Vec::new(), comments: Vec::new(), agents: Vec::new() }
    }
}

impl Database {
    /// The empty store.
    pub fn new() -> (db: Database)
        ensures
            db@.boards.len() == 0,
            db@.cards.len() == 0,
            db@.comments.len() == 0,
            db@.agents.len() == 0,
            db@.wf(),
    {
        Database { boards: Vec::new(), cards: Vec::new(), comments: Vec::new(), agents: Vec::new() }
    }

    /// Index of the board carrying this ID, deleted or not.
    fn find_board(&self, id: &str) -> (r: Option<usize>)
        ensures
            match r {
                Some(i) => i < self.boards.len() && self@.boards[i as int].id == id@,
                None => !has_board(self@, id@),
            },
    {
        let n = self.boards.len();
        for i in 0..n
            invariant
                n == self.boards.len(),
                forall|j: int| 0 <= j < i ==> self@.boards[j].id != id@,
        {
            if str_eq(self.boards[i].id.as_str(), id) {
                return Some(i);
            }
        }
        None
    }

    /// Index of the non-deleted board carrying this ID.
    fn find_active_board(&self, id: &str) -> (r: Option<usize>)
        ensures
            match r {
                Some(i) => i < self.boards.len() && self@.boards[i as int].id == id@
                    && self@.boards[i as int].deleted_at is None,
                None => !has_active_board(self@, id@),
            },
    {
        let n = self.boards.len();
        for i in 0..n
            invariant
                n == self.boards.len(),
                forall|j: int|
                    0 <= j < i ==> !(self@.boards[j].id == id@ && self@.boards[j].deleted_at
                        is None),
        {
            if str_eq(self.boards[i].id.as_str(), id) && self.boards[i].deleted_at.is_none() {
                return Some(i);
            }
        }
        None
    }

    /// Creates a board under a caller-supplied ID: succeeds exactly when
    /// the ID is not yet in use.
    pub fn create_board_with(
        &mut self,
        id: String,
        name: String,
        description: Option<String>,
        now: i64,
    ) -> (r: Result<Board, AgentBoardError>)
        requires
            old(self)@.wf(),
            is_board_id(id@),
        ensures
            final(self)@.wf(),
            final(self)@.cards == old(self)@.cards,
            final(self)@.comments == old(self)@.comments,
            final(self)@.agents == old(self)@.agents,
            match r {
                Ok(b) => {
                    &&& !has_board(old(self)@, id@)
                    &&& b@ == (BoardV {
                        id: id@,
                        name: name@,
                        description: view_opt_string(description),
                        created_at: now as int,
                        updated_at: now as int,
                        deleted_at: None,
                    })
                    &&& final(self)@.boards == old(self)@.boards.push(b@)
                },
                Err(e) => {
                    &&& e is General
                    &&& has_board(old(self)@, id@)
                    &&& final(self)@ == old(self)@
                },
            },
    {
        if self.find_board(id.as_str()).is_some() {
            return Err(
                AgentBoardError::General(String::from_str("Insert failed: duplicate board ID")),
            );
        }
        let board = Board {
            id,
            name,
            description,
            created_at: now,
            updated_at: now,
            deleted_at: None,
        };
        let out = board.duplicate();
        self.boards.push(board);
        proof {
            assert(self@.boards =~= old(self)@.boards.push(out@));
            assert forall|i: int|
                0 <= i < self@.cards.len() implies board_ref_ok(
                self@.boards,
                #[trigger] self@.cards[i],
            ) by {
                assert(board_ref_ok(old(self)@.boards, old(self)@.cards[i]));
                let k = choose|k: int|
                    0 <= k < old(self)@.boards.len() && old(self)@.boards[k].id == old(
                        self,
                    )@.cards[i].board_id;
                assert(self@.boards[k].id == self@.cards[i].board_id);
            }
            assert(self@.wf());
        }
        Ok(out)
    }

    /// Creates a board under a freshly drawn ID; fails only if the drawn
    /// ID collides with an existing one.
    pub fn create_board(&mut self, name: String, description: Option<String>, now: i64) -> (r:
        Result<Board, AgentBoardError>)
        requires
            old(self)@.wf(),
        ensures
            final(self)@.wf(),
            final(self)@.cards == old(self)@.cards,
            final(self)@.comments == old(self)@.comments,
            final(self)@.agents == old(self)@.agents,
            match r {
                Ok(b) => {
                    &&& is_board_id(b@.id)
                    &&& !has_board(old(self)@, b@.id)
                    &&& b@.name == name@
                    &&& b@.description == view_opt_string(description)
                    &&& b@.created_at == now as int
                    &&& b@.updated_at == now as int
                    &&& b@.deleted_at is None
                    &&& final(self)@.boards == old(self)@.boards.push(b@)
                },
                Err(e) => {
                    &&& e is General
                    &&& final(self)@ == old(self)@
                },
            },
    {
        let id = fresh_id("board_");
        self.create_board_with(id, name, description, now)
    }

    /// Looks a board up by ID; a soft-deleted board reads as absent.
    pub fn get_board(&self, id: &str) -> (r: Result<Board, AgentBoardError>)
        ensures
            match r {
                Ok(b) => exists|i: int|
                    0 <= i < self@.boards.len() && self@.boards[i].id == id@ && self@.boards[i].deleted_at
                        is None && b@ == self@.boards[i],
                Err(e) => e is NotFound && !has_active_board(self@, id@),
            },
    {
        match self.find_active_board(id) {
            Some(i) => Ok(self.boards[i].duplicate()),
            None => Err(AgentBoardError::NotFound(board_not_found_message(id))),
        }
    }

    /// All boards in insertion order, the soft-deleted ones only on request.
    pub fn list_boards(&self, include_deleted: bool) -> (r: Vec<Board>)
        ensures
            include_deleted ==> bviews(r@) == self@.boards,
            !include_deleted ==> bviews(r@) == self@.boards.filter(
                |b: BoardV| b.deleted_at is None,
            ),
    {
        let mut out: Vec<Board> = Vec::new();
        let n = self.boards.len();
        for i in 0..n
            invariant
                n == self.boards.len(),
                include_deleted ==> bviews(out@) == self@.boards.take(i as int),
                !include_deleted ==> bviews(out@) == self@.boards.take(i as int).filter(
                    |b: BoardV| b.deleted_at is None,
                ),
        {
            proof {
                reveal(Seq::filter);
                assert(self@.boards.take(i + 1).drop_last() =~= self@.boards.take(i as int));
                assert(self@.boards.take(i + 1).last() == self@.boards[i as int]);
            }
            if include_deleted || self.boards[i].deleted_at.is_none() {
                let ghost pre = bviews(out@);
                out.push(self.boards[i].duplicate());
                proof {
                    assert(bviews(out@) =~= pre.push(self@.boards[i as int]));
                }
            }
        }
        proof {
            assert(self@.boards.take(n as int) =~= self@.boards);
        }
        out
    }

    /// Soft-deletes a board and cascades the same deletion timestamp to
    /// every non-deleted card of that board, leaving the cards' own
    /// children untouched.
    pub fn delete_board(&mut self, id: &str, now: i64) -> (r: Result<(), AgentBoardError>)
        requires
            old(self)@.wf(),
        ensures
            final(self)@.wf(),
            final(self)@.comments == old(self)@.comments,
            final(self)@.agents == old(self)@.agents,
            match r {
                Ok(()) => board_deleted_rel(old(self)@, final(self)@, id@, now as int),
                Err(e) => {
                    &&& e is NotFound
                    &&& !has_active_board(old(self)@, id@)
                    &&& final(self)@ == old(self)@
                },
            },
    {
        let idx = match self.find_active_board(id) {
            Some(i) => i,
            None => {
                return Err(AgentBoardError::NotFound(board_not_found_message(id)));
            },
        };
        let b = &self.boards[idx];
        let updated = Board {
            id: b.id.clone(),
            name: b.name.clone(),
            description: dup_opt_string(&b.description),
            created_at: b.created_at,
            updated_at: now,
            deleted_at: Some(now),
        };
        self.boards.set(idx, updated);
        proof {
            assert forall|k: int| 0 <= k < old(self)@.boards.len() implies self@.boards[k]
                == board_after_delete(old(self)@.boards[k], id@, now as int) by {
                if k == idx {
                    assert(self@.boards[k] =~= board_after_delete(
                        old(self)@.boards[k],
                        id@,
                        now as int,
                    ));
                } else {
                    assert(old(self)@.boards[k].id != old(self)@.boards[idx as int].id);
                }
            }
        }
        let n = self.cards.len();
        for j in 0..n
            invariant
                n == self.cards.len(),
                self@.boards.len() == old(self)@.boards.len(),
                forall|k: int|
                    0 <= k < old(self)@.boards.len() ==> self@.boards[k] == board_after_delete(
                        #[trigger] old(self)@.boards[k],
                        id@,
                        now as int,
                    ),
                self@.comments == old(self)@.comments,
                self@.agents == old(self)@.agents,
                self@.cards.len() == old(self)@.cards.len(),
                forall|k: int|
                    0 <= k < j ==> self@.cards[k] == card_after_board_delete(
                        #[trigger] old(self)@.cards[k],
                        id@,
                        now as int,
                    ),
                forall|k: int| j <= k < n ==> self@.cards[k] == old(self)@.cards[k],
        {
            let c = &self.cards[j];
            if str_eq(c.board_id.as_str(), id) && c.deleted_at.is_none() {
                let mut updated = c.duplicate();
                updated.updated_at = now;
                updated.deleted_at = Some(now);
                proof {
                    assert(updated@ =~= (CardV {
                        updated_at: now as int,
                        deleted_at: Some(now as int),
                        ..old(self)@.cards[j as int]
                    }));
                }
                self.cards.set(j, updated);
            }
        }
        proof {
            lemma_delete_board_wf(old(self)@, self@, id@, now as int);
        }
        Ok(())
    }
}

/// The live cards of one board that carry this status.
pub open spec fn count_status(cards: Seq<CardV>, board_id: Seq<char>, st: Status) -> int {
    cards.filter(
        |c: CardV| c.board_id == board_id && c.deleted_at is None && c.status == st,
    ).len() as int
}

/// The live cards of one board.
pub open spec fn count_live(cards: Seq<CardV>, board_id: Seq<char>) -> int {
    cards.filter(|c: CardV| c.board_id == board_id && c.deleted_at is None).len() as int
}

impl Database {
    /// Counts the non-deleted cards of a board by status.
    pub fn get_board_summary(&self, board_id: &str) -> (r: Result<
        BoardSummary,
        AgentBoardError,
    >)
        ensures
            match r {
                Ok(s) => {
                    &&& has_active_board(self@, board_id@)
                    &&& s.todo_count == count_status(self@.cards, board_id@, Status::Todo)
                    &&& s.in_progress_count == count_status(
                        self@.cards,
                        board_id@,
                        Status::InProgress,
                    )
                    &&& s.pending_review_count == count_status(
                        self@.cards,
                        board_id@,
                        Status::PendingReview,
                    )
                    &&& s.done_count == count_status(self@.cards, board_id@, Status::Done)
                    &&& s.total_cards == count_live(self@.cards, board_id@)
                },
                Err(e) => e is NotFound && !has_active_board(self@, board_id@),
            },
    {
        if self.find_active_board(board_id).is_none() {
            return Err(AgentBoardError::NotFound(board_not_found_message(board_id)));
        }
        let mut todo: usize = 0;
        let mut in_progress: usize = 0;
        let mut pending_review: usize = 0;
        let mut done: usize = 0;
        let n = self.cards.len();
        for i in 0..n
            invariant
                n == self.cards.len(),
                todo == count_status(self@.cards.take(i as int), board_id@, Status::Todo),
                in_progress == count_status(
                    self@.cards.take(i as int),
                    board_id@,
                    Status::InProgress,
                ),
                pending_review == count_status(
                    self@.cards.take(i as int),
                    board_id@,
                    Status::PendingReview,
                ),
                done == count_status(self@.cards.take(i as int), board_id@, Status::Done),
                todo + in_progress + pending_review + done == count_live(
                    self@.cards.take(i as int),
                    board_id@,
                ),
        {
            proof {
                reveal(Seq::filter);
                assert(self@.cards.take(i + 1).drop_last() =~= self@.cards.take(i as int));
                assert(self@.cards.take(i + 1).last() == self@.cards[i as int]);
            }
            let c = &self.cards[i];
            if str_eq(c.board_id.as_str(), board_id) && c.deleted_at.is_none() {
                match c.status {
                    Status::Todo => {
                        todo = todo + 1;
                    },
                    Status::InProgress => {
                        in_progress = in_progress + 1;
                    },
                    Status::PendingReview => {
                        pending_review = pending_review + 1;
                    },
                    Status::Done => {
                        done = done + 1;
                    },
                }
            }
        }
        proof {
            assert(self@.cards.take(n as int) =~= self@.cards);
        }
        let total = todo + in_progress + pending_review + done;
        Ok(
            BoardSummary {
                todo_count: todo,
                in_progress_count: in_progress,
                pending_review_count: pending_review,
                done_count: done,
                total_cards: total,
            },
        )
    }
}

/// The view of an optional borrowed string.
pub open spec fn view_opt_str(o: Option<&str>) -> Option<Seq<char>> {
    match o {
        Some(s) => Some(s@),
        None => None,
    }
}

/// The filter applied by a card listing: status equality, assignee
/// equality and tag containment compose as logical AND; the card must
/// carry every requested tag.
pub open spec fn card_matches(
    c: CardV,
    board_id: Seq<char>,
    status: Option<Status>,
    assigned: Option<Seq<char>>,
    tags: Seq<Seq<char>>,
    include_deleted: bool,
) -> bool {
    &&& c.board_id == board_id
    &&& (match status {
        Some(st) => c.status == st,
        None => true,
    })
    &&& (match assigned {
        Some(a) => c.assigned_to == Some(a),
        None => true,
    })
    &&& (forall|k: int| 0 <= k < tags.len() ==> c.tags.contains(#[trigger] tags[k]))
    &&& (include_deleted || c.deleted_at is None)
}

/// The cards a listing returns, in insertion order.
pub open spec fn matching_cards(
    cards: Seq<CardV>,
    board_id: Seq<char>,
    status: Option<Status>,
    assigned: Option<Seq<char>>,
    tags: Seq<Seq<char>>,
    include_deleted: bool,
) -> Seq<CardV> {
    cards.filter(|c: CardV| card_matches(c, board_id, status, assigned, tags, include_deleted))
}

/// The filter applied by an assignee query: live cards assigned to the
/// identity, optionally narrowed by board and status.
pub open spec fn assignee_matches(
    c: CardV,
    identity: Seq<char>,
    board_id: Option<Seq<char>>,
    status: Option<Status>,
) -> bool {
    &&& c.assigned_to == Some(identity)
    &&& (match board_id {
        Some(b) => c.board_id == b,
        None => true,
    })
    &&& (match status {
        Some(st) => c.status == st,
        None => true,
    })
    &&& c.deleted_at is None
}

/// The cards an assignee query returns, in insertion order.
pub open spec fn assignee_cards(
    cards: Seq<CardV>,
    identity: Seq<char>,
    board_id: Option<Seq<char>>,
    status: Option<Status>,
) -> Seq<CardV> {
    cards.filter(|c: CardV| assignee_matches(c, identity, board_id, status))
}

/// Whether the card carries this tag.
fn has_tag(card_tags: &Vec<String>, t: &str) -> (b: bool)
    ensures
        b == card_tags.deep_view().contains(t@),
{
    let n = card_tags.len();
    for i in 0..n
        invariant
            n == card_tags.len(),
            forall|j: int| 0 <= j < i ==> card_tags.deep_view()[j] != t@,
    {
        if str_eq(card_tags[i].as_str(), t) {
            proof {
                assert(card_tags.deep_view()[i as int] == t@);
            }
            return true;
        }
    }
    false
}

/// Whether the card passes a card-listing filter.
fn card_matches_exec(
    c: &Card,
    board_id: &str,
    status: Option<Status>,
    assigned_to: Option<&str>,
    tags: &Vec<String>,
    include_deleted: bool,
) -> (b: bool)
    ensures
        b == card_matches(
            c@,
            board_id@,
            status,
            view_opt_str(assigned_to),
            tags.deep_view(),
            include_deleted,
        ),
{
    if !str_eq(c.board_id.as_str(), board_id) {
        return false;
    }
    match status {
        Some(st) => {
            if !(c.status == st) {
                return false;
            }
        },
        None => {},
    }
    match assigned_to {
        Some(a) => {
            match &c.assigned_to {
                Some(mine) => {
                    if !str_eq(mine.as_str(), a) {
                        return false;
                    }
                },
                None => {
                    return false;
                },
            }
        },
        None => {},
    }
    let nt = tags.len();
    for k in 0..nt
        invariant
            nt == tags.len(),
            forall|j: int| 0 <= j < k ==> c@.tags.contains(#[trigger] tags.deep_view()[j]),
    {
        if !has_tag(&c.tags, tags[k].as_str()) {
            proof {
                assert(tags.deep_view()[k as int] == tags@[k as int]@);
            }
            return false;
        }
        proof {
            assert(tags.deep_view()[k as int] == tags@[k as int]@);
        }
    }
    if !include_deleted && !c.deleted_at.is_none() {
        return false;
    }
    true
}

/// Whether the card passes an assignee filter.
fn assignee_matches_exec(
    c: &Card,
    identity: &str,
    board_id: Option<&str>,
    status: Option<Status>,
) -> (b: bool)
    ensures
        b == assignee_matches(c@, identity@, view_opt_str(board_id), status),
{
    match &c.assigned_to {
        Some(mine) => {
            if !str_eq(mine.as_str(), identity) {
                return false;
            }
        },
        None => {
            return false;
        },
    }
    match board_id {
        Some(b) => {
            if !str_eq(c.board_id.as_str(), b) {
                return false;
            }
        },
        None => {},
    }
    match status {
        Some(st) => {
            if !(c.status == st) {
                return false;
            }
        },
        None => {},
    }
    c.deleted_at.is_none()
}

impl Database {
    /// Index of the card carrying this ID, deleted or not.
    fn find_card(&self, id: &str) -> (r: Option<usize>)
        ensures
            match r {
                Some(i) => i < self.cards.len() && self@.cards[i as int].id == id@,
                None => !has_card(self@, id@),
            },
    {
        let n = self.cards.len();
        for i in 0..n
            invariant
                n == self.cards.len(),
                forall|j: int| 0 <= j < i ==> self@.cards[j].id != id@,
        {
            if str_eq(self.cards[i].id.as_str(), id) {
                return Some(i);
            }
        }
        None
    }

    /// Index of the non-deleted card carrying this ID.
    fn find_active_card(&self, id: &str) -> (r: Option<usize>)
        ensures
            match r {
                Some(i) => i < self.cards.len() && self@.cards[i as int].id == id@
                    && self@.cards[i as int].deleted_at is None,
                None => !has_active_card(self@, id@),
            },
    {
        let n = self.cards.len();
        for i in 0..n
            invariant
                n == self.cards.len(),
                forall|j: int|
                    0 <= j < i ==> !(self@.cards[j].id == id@ && self@.cards[j].deleted_at
                        is None),
        {
            if str_eq(self.cards[i].id.as_str(), id) && self.cards[i].deleted_at.is_none() {
                return Some(i);
            }
        }
        None
    }

    /// Creates a card under a caller-supplied ID on an existing, non-deleted
    /// board: the board check comes first, then ID freshness.
    pub fn create_card_with(
        &mut self,
        id: String,
        board_id: &str,
        name: String,
        description: Option<String>,
        status: Status,
        now: i64,
    ) -> (r: Result<Card, AgentBoardError>)
        requires
            old(self)@.wf(),
            is_card_id(id@),
        ensures
            final(self)@.wf(),
            final(self)@.boards == old(self)@.boards,
            final(self)@.comments == old(self)@.comments,
            final(self)@.agents == old(self)@.agents,
            match r {
                Ok(c) => {
                    &&& has_active_board(old(self)@, board_id@)
                    &&& !has_card(old(self)@, id@)
                    &&& c@ == (CardV {
                        id: id@,
                        board_id: board_id@,
                        name: name@,
                        description: view_opt_string(description),
                        status: status,
                        assigned_to: None,
                        tags: Seq::empty(),
                        checklists: Seq::empty(),
                        created_at: now as int,
                        updated_at: now as int,
                        deleted_at: None,
                    })
                    &&& final(self)@.cards == old(self)@.cards.push(c@)
                },
                Err(e) => {
                    &&& final(self)@ == old(self)@
                    &&& (e is NotFound <==> !has_active_board(old(self)@, board_id@))
                    &&& (e is NotFound || e is General)
                    &&& (e is General ==> has_card(old(self)@, id@))
                },
            },
    {
        if self.find_active_board(board_id).is_none() {
            return Err(AgentBoardError::NotFound(board_not_found_message(board_id)));
        }
        if self.find_card(id.as_str()).is_some() {
            return Err(
                AgentBoardError::General(String::from_str("Insert failed: duplicate card ID")),
            );
        }
        let card = Card {
            id,
            board_id: board_id.to_owned(),
            name,
            description,
            status,
            assigned_to: None,
            tags: Vec::new(),
            checklists: Vec::new(),
            created_at: now,
            updated_at: now,
            deleted_at: None,
        };
        let out = card.duplicate();
        self.cards.push(card);
        proof {
            assert(out@.tags =~= Seq::<Seq<char>>::empty());
            assert(out@.checklists =~= Seq::<ChecklistV>::empty());
            assert(self@.cards =~= old(self)@.cards.push(out@));
            lemma_push_card_wf(old(self)@, self@, out@);
        }
        Ok(out)
    }

    /// Creates a card under a freshly drawn ID; fails with `NotFound` on a
    /// missing board, and only on an ID collision otherwise.
    pub fn create_card(
        &mut self,
        board_id: &str,
        name: String,
        description: Option<String>,
        status: Status,
        now: i64,
    ) -> (r: Result<Card, AgentBoardError>)
        requires
            old(self)@.wf(),
        ensures
            final(self)@.wf(),
            final(self)@.boards == old(self)@.boards,
            final(self)@.comments == old(self)@.comments,
            final(self)@.agents == old(self)@.agents,
            match r {
                Ok(c) => {
                    &&& has_active_board(old(self)@, board_id@)
                    &&& is_card_id(c@.id)
                    &&& !has_card(old(self)@, c@.id)
                    &&& c@.board_id == board_id@
                    &&& c@.name == name@
                    &&& c@.description == view_opt_string(description)
                    &&& c@.status == status
                    &&& c@.assigned_to is None
                    &&& c@.tags.len() == 0
                    &&& c@.checklists.len() == 0
                    &&& c@.created_at == now as int
                    &&& c@.updated_at == now as int
                    &&& c@.deleted_at is None
                    &&& final(self)@.cards == old(self)@.cards.push(c@)
                },
                Err(e) => {
                    &&& final(self)@ == old(self)@
                    &&& (e is NotFound <==> !has_active_board(old(self)@, board_id@))
                    &&& (e is NotFound || e is General)
                },
            },
    {
        let id = fresh_id("card_");
        self.create_card_with(id, board_id, name, description, status, now)
    }

    /// Looks a card up by ID; a soft-deleted card reads as absent.
    pub fn get_card(&self, id: &str) -> (r: Result<Card, AgentBoardError>)
        ensures
            match r {
                Ok(c) => exists|i: int|
                    0 <= i < self@.cards.len() && self@.cards[i].id == id@ && self@.cards[i].deleted_at
                        is None && c@ == self@.cards[i],
                Err(e) => e is NotFound && !has_active_card(self@, id@),
            },
    {
        match self.find_active_card(id) {
            Some(i) => Ok(self.cards[i].duplicate()),
            None => Err(AgentBoardError::NotFound(card_not_found_message(id))),
        }
    }

    /// Looks a card up by ID, soft-deleted cards included.
    pub fn get_card_with_deleted(&self, id: &str) -> (r: Result<Card, AgentBoardError>)
        ensures
            match r {
                Ok(c) => exists|i: int|
                    0 <= i < self@.cards.len() && self@.cards[i].id == id@ && c@ == self@.cards[i],
                Err(e) => e is NotFound && !has_card(self@, id@),
            },
    {
        match self.find_card(id) {
            Some(i) => Ok(self.cards[i].duplicate()),
            None => Err(AgentBoardError::NotFound(card_not_found_message(id))),
        }
    }

    /// The cards of one board that pass the filters, in insertion order.
    /// The board existence check counts soft-deleted boards as existing: a
    /// board that never existed is an error, a deleted one is not — its
    /// plain listing is simply empty.
    pub fn list_cards(
        &self,
        board_id: &str,
        status: Option<Status>,
        assigned_to: Option<&str>,
        tags: &Vec<String>,
        include_deleted: bool,
    ) -> (r: Result<Vec<Card>, AgentBoardError>)
        ensures
            match r {
                Ok(cs) => {
                    &&& has_board(self@, board_id@)
                    &&& cviews(cs@) == matching_cards(
                        self@.cards,
                        board_id@,
                        status,
                        view_opt_str(assigned_to),
                        tags.deep_view(),
                        include_deleted,
                    )
                },
                Err(e) => {
                    &&& e is NotFound
                    &&& !has_board(self@, board_id@)
                },
            },
    {
        if self.find_board(board_id).is_none() {
            return Err(AgentBoardError::NotFound(board_not_found_message(board_id)));
        }
        let mut out: Vec<Card> = Vec::new();
        let n = self.cards.len();
        for i in 0..n
            invariant
                n == self.cards.len(),
                cviews(out@) == matching_cards(
                    self@.cards.take(i as int),
                    board_id@,
                    status,
                    view_opt_str(assigned_to),
                    tags.deep_view(),
                    include_deleted,
                ),
        {
            proof {
                reveal(Seq::filter);
                assert(self@.cards.take(i + 1).drop_last() =~= self@.cards.take(i as int));
                assert(self@.cards.take(i + 1).last() == self@.cards[i as int]);
            }
            if card_matches_exec(&self.cards[i], board_id, status, assigned_to, tags,
                include_deleted) {
                let ghost pre = cviews(out@);
                out.push(self.cards[i].duplicate());
                proof {
                    assert(cviews(out@) =~= pre.push(self@.cards[i as int]));
                }
            }
        }
        proof {
            assert(self@.cards.take(n as int) =~= self@.cards);
        }
        Ok(out)
    }

    /// The live cards assigned to an identity, optionally narrowed by
    /// board and status; an empty result is not an error.
    pub fn get_cards_by_assignee(
        &self,
        identity: &str,
        board_id: Option<&str>,
        status: Option<Status>,
    ) -> (r: Vec<Card>)
        ensures
            cviews(r@) == assignee_cards(self@.cards, identity@, view_opt_str(board_id), status),
    {
        let mut out: Vec<Card> = Vec::new();
        let n = self.cards.len();
        for i in 0..n
            invariant
                n == self.cards.len(),
                cviews(out@) == assignee_cards(
                    self@.cards.take(i as int),
                    identity@,
                    view_opt_str(board_id),
                    status,
                ),
        {
            proof {
                reveal(Seq::filter);
                assert(self@.cards.take(i + 1).drop_last() =~= self@.cards.take(i as int));
                assert(self@.cards.take(i + 1).last() == self@.cards[i as int]);
            }
            if assignee_matches_exec(&self.cards[i], identity, board_id, status) {
                let ghost pre = cviews(out@);
                out.push(self.cards[i].duplicate());
                proof {
                    assert(cviews(out@) =~= pre.push(self@.cards[i as int]));
                }
            }
        }
        proof {
            assert(self@.cards.take(n as int) =~= self@.cards);
        }
        out
    }

    /// Soft-deletes a card; its checklists stay with it.
    pub fn delete_card(&mut self, id: &str, now: i64) -> (r: Result<(), AgentBoardError>)
        requires
            old(self)@.wf(),
        ensures
            final(self)@.wf(),
            final(self)@.boards == old(self)@.boards,
            final(self)@.comments == old(self)@.comments,
            final(self)@.agents == old(self)@.agents,
            match r {
                Ok(()) => {
                    &&& has_active_card(old(self)@, id@)
                    &&& final(self)@.cards.len() == old(self)@.cards.len()
                    &&& forall|k: int|
                        0 <= k < old(self)@.cards.len() ==> final(self)@.cards[k]
                            == card_after_delete(#[trigger] old(self)@.cards[k], id@, now as int)
                },
                Err(e) => {
                    &&& e is NotFound
                    &&& !has_active_card(old(self)@, id@)
                    &&& final(self)@ == old(self)@
                },
            },
    {
        let idx = match self.find_active_card(id) {
            Some(i) => i,
            None => {
                return Err(AgentBoardError::NotFound(card_not_found_message(id)));
            },
        };
        let mut updated = self.cards[idx].duplicate();
        updated.updated_at = now;
        updated.deleted_at = Some(now);
        proof {
            assert(updated@ =~= (CardV {
                updated_at: now as int,
                deleted_at: Some(now as int),
                ..old(self)@.cards[idx as int]
            }));
        }
        self.cards.set(idx, updated);
        proof {
            assert forall|k: int| 0 <= k < old(self)@.cards.len() implies self@.cards[k]
                == card_after_delete(#[trigger] old(self)@.cards[k], id@, now as int) by {
                if k != idx {
                    assert(old(self)@.cards[k].id != old(self)@.cards[idx as int].id);
                }
            }
            lemma_replace_card_wf(old(self)@, self@, idx as int);
        }
        Ok(())
    }
}

/// Pairwise distinct character sequences.
pub open spec fn distinct_seqs(ts: Seq<Seq<char>>) -> bool {
    forall|a: int, b: int| 0 <= a < b < ts.len() ==> ts[a] != ts[b]
}

/// Adding a tag is idempotent: an already present tag leaves the set
/// unchanged; a new one goes to the end.
pub open spec fn spec_add_tag(tags: Seq<Seq<char>>, t: Seq<char>) -> Seq<Seq<char>> {
    if tags.contains(t) {
        tags
    } else {
        tags.push(t)
    }
}

/// Adds the tags from position `k` on, left to right.
pub open spec fn spec_add_tags_from(tags: Seq<Seq<char>>, ts: Seq<Seq<char>>, k: int) -> Seq<
    Seq<char>,
>
    decreases ts.len() - k,
{
    if 0 <= k < ts.len() {
        spec_add_tags_from(spec_add_tag(tags, ts[k]), ts, k + 1)
    } else {
        tags
    }
}

/// Set union of the tag list with the added tags, keeping display order.
pub open spec fn spec_add_tags(tags: Seq<Seq<char>>, ts: Seq<Seq<char>>) -> Seq<Seq<char>> {
    spec_add_tags_from(tags, ts, 0)
}

/// Set difference: removing an absent tag is a no-op.
pub open spec fn spec_remove_tags(tags: Seq<Seq<char>>, ts: Seq<Seq<char>>) -> Seq<Seq<char>> {
    tags.filter(|t: Seq<char>| !ts.contains(t))
}

/// The tag list after an update: additions first, then removals.
pub open spec fn spec_new_tags(
    tags: Seq<Seq<char>>,
    add: Seq<Seq<char>>,
    remove: Seq<Seq<char>>,
) -> Seq<Seq<char>> {
    spec_remove_tags(spec_add_tags(tags, add), remove)
}

/// Unions the added tags into the list, skipping those already present.
fn add_tags_exec(tags: Vec<String>, add: &Vec<String>) -> (r: Vec<String>)
    ensures
        r.deep_view() == spec_add_tags(tags.deep_view(), add.deep_view()),
        distinct_seqs(tags.deep_view()) ==> distinct_seqs(r.deep_view()),
{
    let mut cur = tags;
    let ghost tags0 = cur.deep_view();
    let n = add.len();
    for k in 0..n
        invariant
            n == add.len(),
            spec_add_tags_from(cur.deep_view(), add.deep_view(), k as int) == spec_add_tags(
                tags0,
                add.deep_view(),
            ),
            distinct_seqs(tags0) ==> distinct_seqs(cur.deep_view()),
    {
        proof {
            assert(add.deep_view()[k as int] == add@[k as int]@);
        }
        if !has_tag(&cur, add[k].as_str()) {
            let ghost pre = cur.deep_view();
            cur.push(add[k].clone());
            proof {
                assert(cur.deep_view() =~= pre.push(add.deep_view()[k as int]));
                assert(cur.deep_view() == spec_add_tag(pre, add.deep_view()[k as int]));
                if distinct_seqs(tags0) {
                    assert forall|a: int, b: int|
                        0 <= a < b < cur.deep_view().len() implies cur.deep_view()[a]
                        != cur.deep_view()[b] by {
                        if b == pre.len() {
                            assert(!pre.contains(cur.deep_view()[b]));
                        }
                    }
                }
            }
        } else {
            proof {
                assert(cur.deep_view() == spec_add_tag(
                    cur.deep_view(),
                    add.deep_view()[k as int],
                ));
            }
        }
    }
    cur
}

/// Removes every listed tag from the list; absent tags are no-ops.
fn remove_tags_exec(tags: Vec<String>, remove: &Vec<String>) -> (r: Vec<String>)
    ensures
        r.deep_view() == spec_remove_tags(tags.deep_view(), remove.deep_view()),
        distinct_seqs(tags.deep_view()) ==> distinct_seqs(r.deep_view()),
{
    let mut out: Vec<String> = Vec::new();
    let n = tags.len();
    for i in 0..n
        invariant
            n == tags.len(),
            out.deep_view() == spec_remove_tags(tags.deep_view().take(i as int), remove.deep_view()),
            forall|a: int|
                0 <= a < out.deep_view().len() ==> exists|j: int|
                    0 <= j < i && #[trigger] out.deep_view()[a] == tags.deep_view()[j],
            distinct_seqs(tags.deep_view()) ==> distinct_seqs(out.deep_view()),
    {
        proof {
            reveal(Seq::filter);
            assert(tags.deep_view().take(i + 1).drop_last() =~= tags.deep_view().take(i as int));
            assert(tags.deep_view().take(i + 1).last() == tags.deep_view()[i as int]);
            assert(tags.deep_view()[i as int] == tags@[i as int]@);
        }
        if !has_tag(remove, tags[i].as_str()) {
            let ghost pre = out.deep_view();
            out.push(tags[i].clone());
            proof {
                assert(out.deep_view() =~= pre.push(tags.deep_view()[i as int]));
                assert forall|a: int|
                    0 <= a < out.deep_view().len() implies exists|j: int|
                    0 <= j < i + 1 && #[trigger] out.deep_view()[a] == tags.deep_view()[j] by {
                    if a == pre.len() {
                        assert(out.deep_view()[a] == tags.deep_view()[i as int]);
                    } else {
                        assert(exists|j: int|
                            0 <= j < i && #[trigger] pre[a] == tags.deep_view()[j]);
                    }
                }
                if distinct_seqs(tags.deep_view()) {
                    assert forall|a: int, b: int|
                        0 <= a < b < out.deep_view().len() implies out.deep_view()[a]
                        != out.deep_view()[b] by {
                        if b == pre.len() {
                            let j = choose|j: int|
                                0 <= j < i && #[trigger] pre[a] == tags.deep_view()[j];
                            assert(tags.deep_view()[j] != tags.deep_view()[i as int]);
                        }
                    }
                }
            }
        }
    }
    proof {
        assert(tags.deep_view().take(n as int) =~= tags.deep_view());
    }
    out
}

/// Whether two tag lists hold the same tags in the same order.
fn tags_equal(a: &Vec<String>, b: &Vec<String>) -> (r: bool)
    ensures
        r == (a.deep_view() == b.deep_view()),
{
    let n = a.len();
    if n != b.len() {
        proof {
            assert(a.deep_view().len() != b.deep_view().len());
        }
        return false;
    }
    for i in 0..n
        invariant
            n == a.len() == b.len(),
            forall|j: int| 0 <= j < i ==> a.deep_view()[j] == b.deep_view()[j],
    {
        if !str_eq(a[i].as_str(), b[i].as_str()) {
            proof {
                assert(a.deep_view()[i as int] != b.deep_view()[i as int]);
            }
            return false;
        }
        proof {
            assert(a.deep_view()[i as int] == a@[i as int]@);
            assert(b.deep_view()[i as int] == b@[i as int]@);
        }
    }
    proof {
        assert(a.deep_view() =~= b.deep_view());
    }
    true
}

/// Whether an update patch changes anything on a card with these tags: a
/// field patch counts as a write, but tag operations are set operations —
/// adding a present tag or removing an absent one changes nothing, so a
/// patch made only of such no-ops leaves even the update timestamp alone.
pub open spec fn update_touches(u: CardUpdate, tags: Seq<Seq<char>>) -> bool {
    ||| u.name is Some
    ||| u.description is Some
    ||| u.status is Some
    ||| !(u.assignment is NoChange)
    ||| spec_new_tags(tags, u.add_tags.deep_view(), u.remove_tags.deep_view()) != tags
}

/// One card of the store after an update aimed at the card with this ID.
pub open spec fn card_after_update_at(c: CardV, id: Seq<char>, u: CardUpdate, now: int) -> CardV {
    if c.id == id {
        card_after_update(c, u, now)
    } else {
        c
    }
}

/// How the targeted card looks after an update patch: fields are
/// independent; tags are added as a set union, then removed as a set
/// difference; any effective change refreshes the update timestamp, while
/// a patch of pure tag no-ops leaves it alone.
pub open spec fn card_after_update(c: CardV, u: CardUpdate, now: int) -> CardV {
    CardV {
        name: match u.name {
            Some(n) => n@,
            None => c.name,
        },
        description: match u.description {
            Some(d) => Some(d@),
            None => c.description,
        },
        status: match u.status {
            Some(s) => s,
            None => c.status,
        },
        assigned_to: match u.assignment {
            AssignPatch::NoChange => c.assigned_to,
            AssignPatch::Clear => None,
            AssignPatch::SetTo(s) => Some(s@),
        },
        tags: spec_new_tags(c.tags, u.add_tags.deep_view(), u.remove_tags.deep_view()),
        updated_at: if update_touches(u, c.tags) {
            now
        } else {
            c.updated_at
        },
        ..c
    }
}

impl Database {
    /// Applies an update patch to a non-deleted card.
    pub fn update_card(&mut self, id: &str, update: CardUpdate, now: i64) -> (r: Result<
        (),
        AgentBoardError,
    >)
        requires
            old(self)@.wf(),
        ensures
            final(self)@.wf(),
            final(self)@.boards == old(self)@.boards,
            final(self)@.comments == old(self)@.comments,
            final(self)@.agents == old(self)@.agents,
            match r {
                Ok(()) => {
                    &&& has_active_card(old(self)@, id@)
                    &&& final(self)@.cards.len() == old(self)@.cards.len()
                    &&& forall|k: int|
                        0 <= k < old(self)@.cards.len() ==> final(self)@.cards[k]
                            == card_after_update_at(
                            #[trigger] old(self)@.cards[k],
                            id@,
                            update,
                            now as int,
                        )
                },
                Err(e) => {
                    &&& e is NotFound
                    &&& !has_active_card(old(self)@, id@)
                    &&& final(self)@ == old(self)@
                },
            },
    {
        let idx = match self.find_active_card(id) {
            Some(i) => i,
            None => {
                return Err(AgentBoardError::NotFound(card_not_found_message(id)));
            },
        };
        let CardUpdate { name, description, status, assignment, add_tags, remove_tags } = update;
        let mut nc = self.cards[idx].duplicate();
        let mut touched = false;
        match name {
            Some(n) => {
                nc.name = n;
                touched = true;
            },
            None => {},
        }
        match description {
            Some(d) => {
                nc.description = Some(d);
                touched = true;
            },
            None => {},
        }
        match status {
            Some(s) => {
                nc.status = s;
                touched = true;
            },
            None => {},
        }
        match assignment {
            AssignPatch::NoChange => {},
            AssignPatch::Clear => {
                nc.assigned_to = None;
                touched = true;
            },
            AssignPatch::SetTo(s) => {
                nc.assigned_to = Some(s);
                touched = true;
            },
        }
        let mut new_tags = nc.tags;
        new_tags = add_tags_exec(new_tags, &add_tags);
        new_tags = remove_tags_exec(new_tags, &remove_tags);
        if !tags_equal(&self.cards[idx].tags, &new_tags) {
            touched = true;
        }
        nc.tags = new_tags;
        if touched {
            nc.updated_at = now;
        }
        proof {
            assert(touched == update_touches(update, old(self)@.cards[idx as int].tags));
            assert(nc@ =~= card_after_update(old(self)@.cards[idx as int], update, now as int));
        }
        self.cards.set(idx, nc);
        proof {
            assert forall|k: int| 0 <= k < old(self)@.cards.len() implies self@.cards[k]
                == card_after_update_at(
                #[trigger] old(self)@.cards[k],
                id@,
                update,
                now as int,
            ) by {
                if k != idx {
                    assert(old(self)@.cards[k].id != old(self)@.cards[idx as int].id);
                }
            }
            assert(card_wf(old(self)@.cards[idx as int]));
            assert(same_card_skeleton(old(self)@.cards[idx as int], self@.cards[idx as int]));
            assert(card_wf(self@.cards[idx as int]));
            lemma_replace_card_wf(old(self)@, self@, idx as int);
        }
        Ok(())
    }
}

/// How one card looks after a deletion of the card with this ID at `now`.
pub open spec fn card_after_delete(c: CardV, id: Seq<char>, now: int) -> CardV {
    if c.id == id && c.deleted_at is None {
        CardV { updated_at: now, deleted_at: Some(now), ..c }
    } else {
        c
    }
}

/// The replaced card keeps the identity skeleton of the old one: same
/// card ID and board, same checklist and item IDs in the same places.
pub open spec fn same_card_skeleton(a: CardV, b: CardV) -> bool {
    &&& b.id == a.id
    &&& b.board_id == a.board_id
    &&& b.checklists.len() == a.checklists.len()
    &&& forall|j: int|
        0 <= j < a.checklists.len() ==> #[trigger] b.checklists[j].id == a.checklists[j].id
            && b.checklists[j].items.len() == a.checklists[j].items.len()
    &&& forall|j: int, k: int|
        0 <= j < a.checklists.len() && 0 <= k < a.checklists[j].items.len()
            ==> #[trigger] b.checklists[j].items[k].id == a.checklists[j].items[k].id
}

/// Replacing one card by a well-formed card with the same identity
/// skeleton preserves well-formedness of the store.
proof fn lemma_replace_card_wf(pre: DatabaseV, post: DatabaseV, i: int)
    requires
        pre.wf(),
        0 <= i < pre.cards.len(),
        post.cards.len() == pre.cards.len(),
        forall|k: int| 0 <= k < pre.cards.len() && k != i ==> post.cards[k] == #[trigger] pre.cards[k],
        same_card_skeleton(pre.cards[i], post.cards[i]),
        card_wf(post.cards[i]),
        post.boards == pre.boards,
        post.comments == pre.comments,
        post.agents == pre.agents,
    ensures
        post.wf(),
{
    assert forall|k: int|
        0 <= k < post.cards.len() implies (#[trigger] post.cards[k]).id == pre.cards[k].id && (
    #[trigger] post.cards[k]).board_id == pre.cards[k].board_id by {
        if k == i {
            assert(same_card_skeleton(pre.cards[i], post.cards[i]));
        }
    }
    assert forall|k: int, j: int|
        0 <= k < post.cards.len() && 0 <= j
            < post.cards[k].checklists.len() implies (#[trigger] post.cards[k].checklists[j]).id
        == pre.cards[k].checklists[j].id && post.cards[k].checklists[j].items.len()
        == pre.cards[k].checklists[j].items.len() && pre.cards[k].checklists.len()
        == post.cards[k].checklists.len() by {
        if k == i {
            assert(same_card_skeleton(pre.cards[i], post.cards[i]));
        }
    }
    assert forall|k: int, j: int, l: int|
        0 <= k < post.cards.len() && 0 <= j < post.cards[k].checklists.len() && 0 <= l
            < post.cards[k].checklists[j].items.len() implies (
    #[trigger] post.cards[k].checklists[j].items[l]).id == pre.cards[k].checklists[j].items[l].id by {
        if k == i {
            assert(same_card_skeleton(pre.cards[i], post.cards[i]));
        }
    }
    assert forall|k: int| 0 <= k < post.cards.len() implies card_wf(#[trigger] post.cards[k]) by {
        if k != i {
            assert(card_wf(pre.cards[k]));
        }
    }
    assert forall|k: int|
        0 <= k < post.cards.len() implies board_ref_ok(post.boards, #[trigger] post.cards[k]) by {
        assert(board_ref_ok(pre.boards, pre.cards[k]));
    }
    assert forall|k: int|
        0 <= k < post.comments.len() implies card_ref_ok(post.cards, #[trigger] post.comments[k]) by {
        assert(card_ref_ok(pre.cards, pre.comments[k]));
        let w = choose|w: int|
            0 <= w < pre.cards.len() && pre.cards[w].id == pre.comments[k].card_id;
        assert(post.cards[w].id == pre.cards[w].id);
    }
}

/// Appending a fresh, well-formed, childless card preserves
/// well-formedness of the store.
proof fn lemma_push_card_wf(pre: DatabaseV, post: DatabaseV, c: CardV)
    requires
        pre.wf(),
        card_wf(c),
        !has_card(pre, c.id),
        c.checklists.len() == 0,
        board_ref_ok(pre.boards, c),
        post.boards == pre.boards,
        post.cards == pre.cards.push(c),
        post.comments == pre.comments,
        post.agents == pre.agents,
    ensures
        post.wf(),
{
    let n = pre.cards.len() as int;
    assert forall|a: int, b: int|
        0 <= a < b < post.cards.len() implies (#[trigger] post.cards[a]).id
        != (#[trigger] post.cards[b]).id by {
        if b == n {
            assert(post.cards[a] == pre.cards[a]);
        }
    }
    assert forall|k: int| 0 <= k < post.cards.len() implies card_wf(#[trigger] post.cards[k]) by {
        if k < n {
            assert(post.cards[k] == pre.cards[k]);
        }
    }
    assert forall|k: int|
        0 <= k < post.cards.len() implies board_ref_ok(post.boards, #[trigger] post.cards[k]) by {
        if k < n {
            assert(post.cards[k] == pre.cards[k]);
            assert(board_ref_ok(pre.boards, pre.cards[k]));
        }
    }
    assert forall|k: int|
        0 <= k < post.comments.len() implies card_ref_ok(post.cards, #[trigger] post.comments[k]) by {
        assert(card_ref_ok(pre.cards, pre.comments[k]));
        let w = choose|w: int|
            0 <= w < pre.cards.len() && pre.cards[w].id == pre.comments[k].card_id;
        assert(post.cards[w].id == pre.cards[w].id);
    }
}

/// The checklist is shaped as a fresh one must be: properly prefixed IDs,
/// pairwise distinct item IDs, every item unchecked.
pub open spec fn fresh_checklist_shape(cl: ChecklistV) -> bool {
    &&& is_checklist_id(cl.id)
    &&& forall|k: int| 0 <= k < cl.items.len() ==> is_item_id(#[trigger] cl.items[k].id)
    &&& forall|a: int, b: int| 0 <= a < b < cl.items.len() ==> cl.items[a].id != cl.items[b].id
    &&& forall|k: int| 0 <= k < cl.items.len() ==> !(#[trigger] cl.items[k]).checked
}

/// Some item of the checklist carries an ID already present in the store.
pub open spec fn any_item_taken(v: DatabaseV, items: Seq<ChecklistItemV>) -> bool {
    exists|k: int| 0 <= k < items.len() && has_item(v, items[k].id)
}

/// One card of the store after a checklist lands on the card with this ID.
pub open spec fn card_after_add_checklist(c: CardV, id: Seq<char>, cl: ChecklistV, now: int) -> CardV {
    if c.id == id {
        CardV { checklists: c.checklists.push(cl), updated_at: now, ..c }
    } else {
        c
    }
}

impl Database {
    /// Whether any card owns a checklist with this ID.
    fn has_checklist_exec(&self, id: &str) -> (b: bool)
        ensures
            b == has_checklist(self@, id@),
    {
        let n = self.cards.len();
        for i in 0..n
            invariant
                n == self.cards.len(),
                forall|x: int, j: int|
                    0 <= x < i && 0 <= j < self@.cards[x].checklists.len()
                        ==> #[trigger] self@.cards[x].checklists[j].id != id@,
        {
            let m = self.cards[i].checklists.len();
            for j in 0..m
                invariant
                    m == self.cards[i as int].checklists.len(),
                    i < n == self.cards.len(),
                    forall|x: int, jj: int|
                        0 <= x < i && 0 <= jj < self@.cards[x].checklists.len()
                            ==> #[trigger] self@.cards[x].checklists[jj].id != id@,
                    forall|jj: int|
                        0 <= jj < j ==> #[trigger] self@.cards[i as int].checklists[jj].id != id@,
            {
                if str_eq(self.cards[i].checklists[j].id.as_str(), id) {
                    proof {
                        assert(self@.cards[i as int].checklists[j as int].id == id@);
                    }
                    return true;
                }
            }
        }
        false
    }

    /// The position of the item carrying this ID, if any card owns it.
    fn find_item(&self, id: &str) -> (r: Option<(usize, usize, usize)>)
        ensures
            match r {
                Some(p) => p.0 < self.cards.len() && p.1 < self@.cards[p.0 as int].checklists.len()
                    && p.2 < self@.cards[p.0 as int].checklists[p.1 as int].items.len()
                    && self@.cards[p.0 as int].checklists[p.1 as int].items[p.2 as int].id == id@,
                None => !has_item(self@, id@),
            },
    {
        let n = self.cards.len();
        for i in 0..n
            invariant
                n == self.cards.len(),
                forall|x: int, j: int, k: int|
                    0 <= x < i && 0 <= j < self@.cards[x].checklists.len() && 0 <= k
                        < self@.cards[x].checklists[j].items.len()
                        ==> #[trigger] self@.cards[x].checklists[j].items[k].id != id@,
        {
            let m = self.cards[i].checklists.len();
            for j in 0..m
                invariant
                    m == self.cards[i as int].checklists.len(),
                    i < n == self.cards.len(),
                    forall|x: int, jj: int, k: int|
                        0 <= x < i && 0 <= jj < self@.cards[x].checklists.len() && 0 <= k
                            < self@.cards[x].checklists[jj].items.len()
                            ==> #[trigger] self@.cards[x].checklists[jj].items[k].id != id@,
                    forall|jj: int, k: int|
                        0 <= jj < j && 0 <= k < self@.cards[i as int].checklists[jj].items.len()
                            ==> #[trigger] self@.cards[i as int].checklists[jj].items[k].id != id@,
            {
                let p = self.cards[i].checklists[j].items.len();
                for k in 0..p
                    invariant
                        p == self.cards[i as int].checklists[j as int].items.len(),
                        i < n == self.cards.len(),
                        j < m == self.cards[i as int].checklists.len(),
                        forall|x: int, jj: int, kk: int|
                            0 <= x < i && 0 <= jj < self@.cards[x].checklists.len() && 0 <= kk
                                < self@.cards[x].checklists[jj].items.len()
                                ==> #[trigger] self@.cards[x].checklists[jj].items[kk].id != id@,
                        forall|jj: int, kk: int|
                            0 <= jj < j && 0 <= kk
                                < self@.cards[i as int].checklists[jj].items.len()
                                ==> #[trigger] self@.cards[i as int].checklists[jj].items[kk].id
                                != id@,
                        forall|kk: int|
                            0 <= kk < k
                                ==> #[trigger] self@.cards[i as int].checklists[j as int].items[kk].id
                                != id@,
                {
                    if str_eq(self.cards[i].checklists[j].items[k].id.as_str(), id) {
                        proof {
                            assert(self@.cards[i as int].checklists[j as int].items[k as int].id
                                == id@);
                        }
                        return Some((i, j, k));
                    }
                }
            }
        }
        None
    }

    /// Whether any item of the given checklist collides with an existing
    /// item ID.
    fn any_item_taken_exec(&self, cl: &Checklist) -> (b: bool)
        ensures
            b == any_item_taken(self@, cl@.items),
    {
        let p = cl.items.len();
        for k in 0..p
            invariant
                p == cl.items.len(),
                forall|kk: int| 0 <= kk < k ==> !has_item(self@, #[trigger] cl@.items[kk].id),
        {
            if self.find_item(cl.items[k].id.as_str()).is_some() {
                proof {
                    assert(has_item(self@, cl@.items[k as int].id));
                }
                return true;
            }
        }
        false
    }

    /// Attaches a fully built checklist to a non-deleted card: the card
    /// check comes first, then freshness of the checklist and item IDs.
    pub fn add_checklist_with(&mut self, card_id: &str, checklist: Checklist, now: i64) -> (r:
        Result<Checklist, AgentBoardError>)
        requires
            old(self)@.wf(),
            fresh_checklist_shape(checklist@),
        ensures
            final(self)@.wf(),
            final(self)@.boards == old(self)@.boards,
            final(self)@.comments == old(self)@.comments,
            final(self)@.agents == old(self)@.agents,
            match r {
                Ok(cl) => {
                    &&& has_active_card(old(self)@, card_id@)
                    &&& !has_checklist(old(self)@, cl@.id)
                    &&& !any_item_taken(old(self)@, cl@.items)
                    &&& cl@ == checklist@
                    &&& final(self)@.cards.len() == old(self)@.cards.len()
                    &&& forall|k: int|
                        0 <= k < old(self)@.cards.len() ==> final(self)@.cards[k]
                            == card_after_add_checklist(
                            #[trigger] old(self)@.cards[k],
                            card_id@,
                            cl@,
                            now as int,
                        )
                },
                Err(e) => {
                    &&& final(self)@ == old(self)@
                    &&& (e is NotFound <==> !has_active_card(old(self)@, card_id@))
                    &&& (e is NotFound || e is General)
                },
            },
    {
        let idx = match self.find_active_card(card_id) {
            Some(i) => i,
            None => {
                return Err(AgentBoardError::NotFound(card_not_found_message(card_id)));
            },
        };
        if self.has_checklist_exec(checklist.id.as_str()) {
            return Err(
                AgentBoardError::General(String::from_str("Insert failed: duplicate checklist ID")),
            );
        }
        if self.any_item_taken_exec(&checklist) {
            return Err(
                AgentBoardError::General(String::from_str("Insert failed: duplicate item ID")),
            );
        }
        let out = checklist.duplicate();
        let mut nc = self.cards[idx].duplicate();
        nc.checklists.push(checklist);
        nc.updated_at = now;
        proof {
            assert(nc@.checklists =~= old(self)@.cards[idx as int].checklists.push(out@));
            assert(nc@ =~= card_after_add_checklist(
                old(self)@.cards[idx as int],
                card_id@,
                out@,
                now as int,
            ));
        }
        self.cards.set(idx, nc);
        proof {
            assert forall|k: int| 0 <= k < old(self)@.cards.len() implies self@.cards[k]
                == card_after_add_checklist(
                #[trigger] old(self)@.cards[k],
                card_id@,
                out@,
                now as int,
            ) by {
                if k != idx {
                    assert(old(self)@.cards[k].id != old(self)@.cards[idx as int].id);
                }
            }
            lemma_add_checklist_wf(old(self)@, self@, idx as int, out@, now as int);
        }
        Ok(out)
    }
}

/// Attaching a fresh checklist to one card preserves well-formedness.
proof fn lemma_add_checklist_wf(pre: DatabaseV, post: DatabaseV, i: int, cl: ChecklistV, now: int)
    requires
        pre.wf(),
        0 <= i < pre.cards.len(),
        fresh_checklist_shape(cl),
        !has_checklist(pre, cl.id),
        !any_item_taken(pre, cl.items),
        post.cards.len() == pre.cards.len(),
        forall|k: int| 0 <= k < pre.cards.len() && k != i ==> post.cards[k] == #[trigger] pre.cards[k],
        post.cards[i] == (CardV {
            checklists: pre.cards[i].checklists.push(cl),
            updated_at: now,
            ..pre.cards[i]
        }),
        post.boards == pre.boards,
        post.comments == pre.comments,
        post.agents == pre.agents,
    ensures
        post.wf(),
{
    let pcl = pre.cards[i].checklists.len() as int;
    assert forall|k: int|
        0 <= k < post.cards.len() implies (#[trigger] post.cards[k]).id == pre.cards[k].id && (
    #[trigger] post.cards[k]).board_id == pre.cards[k].board_id by {}
    assert forall|k: int|
        0 <= k < cl.items.len() implies !has_item(pre, (#[trigger] cl.items[k]).id) by {}
    assert forall|k: int| 0 <= k < post.cards.len() implies card_wf(#[trigger] post.cards[k]) by {
        assert(card_wf(pre.cards[k]));
        if k == i {
            assert forall|j: int|
                0 <= j < post.cards[k].checklists.len() implies is_checklist_id(
                #[trigger] post.cards[k].checklists[j].id,
            ) by {
                if j < pcl {
                    assert(post.cards[k].checklists[j] == pre.cards[k].checklists[j]);
                }
            }
            assert forall|j: int, l: int|
                0 <= j < post.cards[k].checklists.len() && 0 <= l
                    < post.cards[k].checklists[j].items.len() implies is_item_id(
                #[trigger] post.cards[k].checklists[j].items[l].id,
            ) by {
                if j < pcl {
                    assert(post.cards[k].checklists[j] == pre.cards[k].checklists[j]);
                } else {
                    assert(post.cards[k].checklists[j] == cl);
                }
            }
        }
    }
    assert forall|k: int|
        0 <= k < post.cards.len() implies board_ref_ok(post.boards, #[trigger] post.cards[k]) by {
        assert(board_ref_ok(pre.boards, pre.cards[k]));
    }
    assert forall|i1: int, j1: int, i2: int, j2: int|
        0 <= i1 < post.cards.len() && 0 <= j1 < post.cards[i1].checklists.len() && 0 <= i2
            < post.cards.len() && 0 <= j2 < post.cards[i2].checklists.len() && (i1 != i2 || j1
            != j2) implies (#[trigger] post.cards[i1].checklists[j1]).id
        != (#[trigger] post.cards[i2].checklists[j2]).id by {
        if i1 == i && j1 == pcl {
            assert(post.cards[i1].checklists[j1] == cl);
            assert(!(i2 == i && j2 == pcl));
            assert(post.cards[i2].checklists[j2] == pre.cards[i2].checklists[j2]);
            assert(!(pre.cards[i2].checklists[j2].id == cl.id));
        } else if i2 == i && j2 == pcl {
            assert(post.cards[i2].checklists[j2] == cl);
            assert(post.cards[i1].checklists[j1] == pre.cards[i1].checklists[j1]);
            assert(!(pre.cards[i1].checklists[j1].id == cl.id));
        } else {
            assert(post.cards[i1].checklists[j1] == pre.cards[i1].checklists[j1]);
            assert(post.cards[i2].checklists[j2] == pre.cards[i2].checklists[j2]);
        }
    }
    assert forall|i1: int, j1: int, k1: int, i2: int, j2: int, k2: int|
        0 <= i1 < post.cards.len() && 0 <= j1 < post.cards[i1].checklists.len() && 0 <= k1
            < post.cards[i1].checklists[j1].items.len() && 0 <= i2 < post.cards.len() && 0 <= j2
            < post.cards[i2].checklists.len() && 0 <= k2 < post.cards[i2].checklists[j2].items.len()
            && (i1 != i2 || j1 != j2 || k1 != k2) implies (
    #[trigger] post.cards[i1].checklists[j1].items[k1]).id
        != (#[trigger] post.cards[i2].checklists[j2].items[k2]).id by {
        if i1 == i && j1 == pcl {
            assert(post.cards[i1].checklists[j1] == cl);
            if i2 == i && j2 == pcl {
                assert(post.cards[i2].checklists[j2] == cl);
                assert(k1 != k2);
            } else {
                assert(post.cards[i2].checklists[j2] == pre.cards[i2].checklists[j2]);
                assert(!has_item(pre, cl.items[k1].id));
                assert(!(pre.cards[i2].checklists[j2].items[k2].id == cl.items[k1].id));
            }
        } else {
            assert(post.cards[i1].checklists[j1] == pre.cards[i1].checklists[j1]);
            if i2 == i && j2 == pcl {
                assert(post.cards[i2].checklists[j2] == cl);
                assert(!has_item(pre, cl.items[k2].id));
                assert(!(pre.cards[i1].checklists[j1].items[k1].id == cl.items[k2].id));
            } else {
                assert(post.cards[i2].checklists[j2] == pre.cards[i2].checklists[j2]);
            }
        }
    }
    assert forall|k: int|
        0 <= k < post.comments.len() implies card_ref_ok(post.cards, #[trigger] post.comments[k]) by {
        assert(card_ref_ok(pre.cards, pre.comments[k]));
        let w = choose|w: int|
            0 <= w < pre.cards.len() && pre.cards[w].id == pre.comments[k].card_id;
        assert(post.cards[w].id == pre.cards[w].id);
    }
}

/// Whether one of the already built items carries this ID.
fn items_contain_id(items: &Vec<ChecklistItem>, id: &str) -> (b: bool)
    ensures
        b == exists|j: int| 0 <= j < items@.len() && (#[trigger] items@[j])@.id == id@,
{
    let n = items.len();
    for i in 0..n
        invariant
            n == items.len(),
            forall|j: int| 0 <= j < i ==> (#[trigger] items@[j])@.id != id@,
    {
        if str_eq(items[i].id.as_str(), id) {
            return true;
        }
    }
    false
}

/// The card owns an item with this ID.
pub open spec fn card_has_item(c: CardV, item_id: Seq<char>) -> bool {
    exists|j: int, k: int|
        0 <= j < c.checklists.len() && 0 <= k < c.checklists[j].items.len()
            && c.checklists[j].items[k].id == item_id
}

/// The checklist with every item of this ID set to `checked`.
pub open spec fn checklist_after_check(cl: ChecklistV, item_id: Seq<char>, checked: bool) -> ChecklistV {
    ChecklistV {
        items: cl.items.map_values(
            (|it: ChecklistItemV|
                if it.id == item_id {
                    ChecklistItemV { checked: checked, ..it }
                } else {
                    it
                }),
        ),
        ..cl
    }
}

/// One card of the store after the item with this ID was set: only the
/// owning card moves, and its update timestamp with it.
pub open spec fn card_after_check_item(c: CardV, item_id: Seq<char>, checked: bool, now: int) -> CardV {
    if card_has_item(c, item_id) {
        CardV {
            checklists: c.checklists.map_values(
                (|cl: ChecklistV| checklist_after_check(cl, item_id, checked)),
            ),
            updated_at: now,
            ..c
        }
    } else {
        c
    }
}

impl Database {
    /// Builds a checklist from item texts (each becomes a fresh unchecked
    /// item) and attaches it to a non-deleted card.
    pub fn add_checklist(&mut self, card_id: &str, name: String, items: Vec<String>, now: i64) -> (r:
        Result<Checklist, AgentBoardError>)
        requires
            old(self)@.wf(),
        ensures
            final(self)@.wf(),
            final(self)@.boards == old(self)@.boards,
            final(self)@.comments == old(self)@.comments,
            final(self)@.agents == old(self)@.agents,
            match r {
                Ok(cl) => {
                    &&& has_active_card(old(self)@, card_id@)
                    &&& is_checklist_id(cl@.id)
                    &&& !has_checklist(old(self)@, cl@.id)
                    &&& !any_item_taken(old(self)@, cl@.items)
                    &&& cl@.name == name@
                    &&& cl@.items.len() == items@.len()
                    &&& forall|k: int|
                        0 <= k < items@.len() ==> (#[trigger] cl@.items[k]).text
                            == items.deep_view()[k] && !cl@.items[k].checked && is_item_id(
                            cl@.items[k].id,
                        )
                    &&& final(self)@.cards.len() == old(self)@.cards.len()
                    &&& forall|k: int|
                        0 <= k < old(self)@.cards.len() ==> final(self)@.cards[k]
                            == card_after_add_checklist(
                            #[trigger] old(self)@.cards[k],
                            card_id@,
                            cl@,
                            now as int,
                        )
                },
                Err(e) => {
                    &&& final(self)@ == old(self)@
                    &&& (e is NotFound <==> !has_active_card(old(self)@, card_id@))
                    &&& (e is NotFound || e is General)
                },
            },
    {
        if self.find_active_card(card_id).is_none() {
            return Err(AgentBoardError::NotFound(card_not_found_message(card_id)));
        }
        let checklist_id = fresh_id("checklist_");
        let mut built: Vec<ChecklistItem> = Vec::new();
        let n = items.len();
        for k in 0..n
            invariant
                self@ == old(self)@,
                self@.wf(),
                has_active_card(old(self)@, card_id@),
                n == items.len(),
                built@.len() == k,
                forall|j: int|
                    0 <= j < k ==> (#[trigger] built@[j])@.text == items.deep_view()[j]
                        && !built@[j]@.checked && is_item_id(built@[j]@.id),
                forall|a: int, b: int| 0 <= a < b < k ==> built@[a]@.id != built@[b]@.id,
        {
            let item_id = fresh_id("item_");
            if items_contain_id(&built, item_id.as_str()) {
                return Err(
                    AgentBoardError::General(
                        String::from_str("Insert failed: duplicate item ID"),
                    ),
                );
            }
            proof {
                assert(items.deep_view()[k as int] == items@[k as int]@);
            }
            built.push(ChecklistItem { id: item_id, text: items[k].clone(), checked: false });
        }
        let checklist = Checklist { id: checklist_id, name, items: built };
        proof {
            assert(forall|j: int|
                0 <= j < checklist@.items.len() ==> #[trigger] checklist@.items[j]
                    == checklist.items@[j]@);
            assert(fresh_checklist_shape(checklist@));
        }
        self.add_checklist_with(card_id, checklist, now)
    }

    /// Checks or unchecks the checklist item with this ID, wherever it
    /// lives, refreshing the owning card's update timestamp.
    pub fn check_item(&mut self, item_id: &str, checked: bool, now: i64) -> (r: Result<
        (),
        AgentBoardError,
    >)
        requires
            old(self)@.wf(),
        ensures
            final(self)@.wf(),
            final(self)@.boards == old(self)@.boards,
            final(self)@.comments == old(self)@.comments,
            final(self)@.agents == old(self)@.agents,
            match r {
                Ok(()) => {
                    &&& has_item(old(self)@, item_id@)
                    &&& final(self)@.cards.len() == old(self)@.cards.len()
                    &&& forall|x: int|
                        0 <= x < old(self)@.cards.len() ==> final(self)@.cards[x]
                            == card_after_check_item(
                            #[trigger] old(self)@.cards[x],
                            item_id@,
                            checked,
                            now as int,
                        )
                },
                Err(e) => {
                    &&& e is NotFound
                    &&& !has_item(old(self)@, item_id@)
                    &&& final(self)@ == old(self)@
                },
            },
    {
        let (i, j, k) = match self.find_item(item_id) {
            Some(p) => p,
            None => {
                return Err(AgentBoardError::NotFound(item_not_found_message(item_id)));
            },
        };
        let mut nc = self.cards[i].duplicate();
        let mut ncl = nc.checklists[j].duplicate();
        let mut nit = ncl.items[k].duplicate();
        nit.checked = checked;
        ncl.items.set(k, nit);
        nc.checklists.set(j, ncl);
        nc.updated_at = now;
        proof {
            let pre_c = old(self)@.cards[i as int];
            assert(card_wf(pre_c));
            assert(card_has_item(pre_c, item_id@));
            assert forall|jj: int|
                0 <= jj < pre_c.checklists.len() implies nc@.checklists[jj]
                == checklist_after_check(pre_c.checklists[jj], item_id@, checked) by {
                assert forall|kk: int|
                    0 <= kk < pre_c.checklists[jj].items.len() implies nc@.checklists[jj].items[kk]
                    == checklist_after_check(pre_c.checklists[jj], item_id@, checked).items[kk] by {
                    if jj != j as int || kk != k as int {
                        let jx = j as int;
                        let kx = k as int;
                        assert(pre_c.checklists[jj].items[kk].id
                            != pre_c.checklists[jx].items[kx].id);
                    }
                }
                assert(nc@.checklists[jj] =~= checklist_after_check(
                    pre_c.checklists[jj],
                    item_id@,
                    checked,
                ));
            }
            assert(nc@ =~~= card_after_check_item(pre_c, item_id@, checked, now as int));
        }
        self.cards.set(i, nc);
        proof {
            let pre_db = old(self)@;
            let ix = i as int;
            let jx = j as int;
            let kx = k as int;
            assert forall|x: int| 0 <= x < pre_db.cards.len() implies self@.cards[x]
                == card_after_check_item(
                #[trigger] pre_db.cards[x],
                item_id@,
                checked,
                now as int,
            ) by {
                if x != ix {
                    assert forall|jj: int, kk: int|
                        0 <= jj < pre_db.cards[x].checklists.len() && 0 <= kk
                            < pre_db.cards[x].checklists[jj].items.len() implies (
                    #[trigger] pre_db.cards[x].checklists[jj].items[kk]).id != item_id@ by {
                        assert(pre_db.cards[x].checklists[jj].items[kk].id
                            != pre_db.cards[ix].checklists[jx].items[kx].id);
                    }
                    assert(!card_has_item(pre_db.cards[x], item_id@));
                }
            }
            assert(same_card_skeleton(old(self)@.cards[i as int], self@.cards[i as int]));
            assert(card_wf(self@.cards[i as int]));
            lemma_replace_card_wf(old(self)@, self@, i as int);
        }
        Ok(())
    }
}

/// The comments on one card, in insertion order.
pub open spec fn comments_of(comments: Seq<CommentV>, card_id: Seq<char>) -> Seq<CommentV> {
    comments.filter(|m: CommentV| m.card_id == card_id)
}

impl Database {
    /// Index of the comment carrying this ID.
    fn find_comment(&self, id: &str) -> (r: Option<usize>)
        ensures
            match r {
                Some(i) => i < self.comments.len() && self@.comments[i as int].id == id@,
                None => !has_comment(self@, id@),
            },
    {
        let n = self.comments.len();
        for i in 0..n
            invariant
                n == self.comments.len(),
                forall|j: int| 0 <= j < i ==> self@.comments[j].id != id@,
        {
            if str_eq(self.comments[i].id.as_str(), id) {
                return Some(i);
            }
        }
        None
    }

    /// Adds a comment under a caller-supplied ID to a non-deleted card.
    pub fn add_comment_with(
        &mut self,
        card_id: &str,
        id: String,
        text: String,
        author: Option<String>,
        now: i64,
    ) -> (r: Result<Comment, AgentBoardError>)
        requires
            old(self)@.wf(),
            is_comment_id(id@),
        ensures
            final(self)@.wf(),
            final(self)@.boards == old(self)@.boards,
            final(self)@.cards == old(self)@.cards,
            final(self)@.agents == old(self)@.agents,
            match r {
                Ok(m) => {
                    &&& has_active_card(old(self)@, card_id@)
                    &&& !has_comment(old(self)@, id@)
                    &&& m@ == (CommentV {
                        id: id@,
                        card_id: card_id@,
                        author: view_opt_string(author),
                        text: text@,
                        created_at: now as int,
                    })
                    &&& final(self)@.comments == old(self)@.comments.push(m@)
                },
                Err(e) => {
                    &&& final(self)@ == old(self)@
                    &&& (e is NotFound <==> !has_active_card(old(self)@, card_id@))
                    &&& (e is NotFound || e is General)
                    &&& (e is General ==> has_comment(old(self)@, id@))
                },
            },
    {
        if self.find_active_card(card_id).is_none() {
            return Err(AgentBoardError::NotFound(card_not_found_message(card_id)));
        }
        if self.find_comment(id.as_str()).is_some() {
            return Err(
                AgentBoardError::General(String::from_str("Insert failed: duplicate comment ID")),
            );
        }
        let comment = Comment { id, card_id: card_id.to_owned(), author, text, created_at: now };
        let out = comment.duplicate();
        self.comments.push(comment);
        proof {
            assert(self@.comments =~= old(self)@.comments.push(out@));
            let n = old(self)@.comments.len() as int;
            assert forall|a: int, b: int|
                0 <= a < b < self@.comments.len() implies (#[trigger] self@.comments[a]).id
                != (#[trigger] self@.comments[b]).id by {
                if b == n {
                    assert(self@.comments[a] == old(self)@.comments[a]);
                }
            }
            assert forall|k: int|
                0 <= k < self@.comments.len() implies card_ref_ok(
                self@.cards,
                #[trigger] self@.comments[k],
            ) by {
                if k < n {
                    assert(card_ref_ok(old(self)@.cards, old(self)@.comments[k]));
                }
            }
            assert(self@.wf());
        }
        Ok(out)
    }

    /// Adds a comment under a freshly drawn ID to a non-deleted card.
    pub fn add_comment(&mut self, card_id: &str, text: String, author: Option<String>, now: i64) -> (r:
        Result<Comment, AgentBoardError>)
        requires
            old(self)@.wf(),
        ensures
            final(self)@.wf(),
            final(self)@.boards == old(self)@.boards,
            final(self)@.cards == old(self)@.cards,
            final(self)@.agents == old(self)@.agents,
            match r {
                Ok(m) => {
                    &&& has_active_card(old(self)@, card_id@)
                    &&& is_comment_id(m@.id)
                    &&& !has_comment(old(self)@, m@.id)
                    &&& m@.card_id == card_id@
                    &&& m@.author == view_opt_string(author)
                    &&& m@.text == text@
                    &&& m@.created_at == now as int
                    &&& final(self)@.comments == old(self)@.comments.push(m@)
                },
                Err(e) => {
                    &&& final(self)@ == old(self)@
                    &&& (e is NotFound <==> !has_active_card(old(self)@, card_id@))
                    &&& (e is NotFound || e is General)
                },
            },
    {
        let id = fresh_id("comment_");
        self.add_comment_with(card_id, id, text, author, now)
    }

    /// How many comments one card carries.
    pub fn comment_count(&self, card_id: &str) -> (n: u64)
        ensures
            n == comments_of(self@.comments, card_id@).len(),
    {
        let mut count: u64 = 0;
        let n = self.comments.len();
        for i in 0..n
            invariant
                n == self.comments.len(),
                count == comments_of(self@.comments.take(i as int), card_id@).len(),
                count <= i,
        {
            proof {
                reveal(Seq::filter);
                assert(self@.comments.take(i + 1).drop_last() =~= self@.comments.take(i as int));
                assert(self@.comments.take(i + 1).last() == self@.comments[i as int]);
            }
            if str_eq(self.comments[i].card_id.as_str(), card_id) {
                count = count + 1;
            }
        }
        proof {
            assert(self@.comments.take(n as int) =~= self@.comments);
        }
        count
    }

    /// The comments of one non-deleted card, in insertion order (creation
    /// ascending).
    pub fn list_comments(&self, card_id: &str) -> (r: Result<Vec<Comment>, AgentBoardError>)
        ensures
            match r {
                Ok(ms) => {
                    &&& has_active_card(self@, card_id@)
                    &&& mviews(ms@) == comments_of(self@.comments, card_id@)
                },
                Err(e) => e is NotFound && !has_active_card(self@, card_id@),
            },
    {
        if self.find_active_card(card_id).is_none() {
            return Err(AgentBoardError::NotFound(card_not_found_message(card_id)));
        }
        let mut out: Vec<Comment> = Vec::new();
        let n = self.comments.len();
        for i in 0..n
            invariant
                n == self.comments.len(),
                mviews(out@) == comments_of(self@.comments.take(i as int), card_id@),
        {
            proof {
                reveal(Seq::filter);
                assert(self@.comments.take(i + 1).drop_last() =~= self@.comments.take(i as int));
                assert(self@.comments.take(i + 1).last() == self@.comments[i as int]);
            }
            if str_eq(self.comments[i].card_id.as_str(), card_id) {
                let ghost pre = mviews(out@);
                out.push(self.comments[i].duplicate());
                proof {
                    assert(mviews(out@) =~= pre.push(self@.comments[i as int]));
                }
            }
        }
        proof {
            assert(self@.comments.take(n as int) =~= self@.comments);
        }
        Ok(out)
    }
}

/// Some OTHER active agent (not the one with `id`) carries this name.
pub open spec fn other_active_agent_name_taken(v: DatabaseV, id: Seq<char>, name: Seq<char>) -> bool {
    exists|i: int|
        0 <= i < v.agents.len() && v.agents[i].id != id && v.agents[i].name == name
            && v.agents[i].deactivated_at is None
}

/// Whether an agent update patch changes anything at all.
pub open spec fn agent_update_touches(u: AgentUpdate) -> bool {
    ||| u.name is Some
    ||| u.command is Some
    ||| u.description is Some
    ||| u.working_directory is Some
}

/// How the targeted agent looks after an update patch.
pub open spec fn agent_after_update(a: AgentV, u: AgentUpdate, now: int) -> AgentV {
    AgentV {
        name: match u.name {
            Some(n) => n@,
            None => a.name,
        },
        command: match u.command {
            Some(c) => c@,
            None => a.command,
        },
        description: match u.description {
            Some(d) => Some(d@),
            None => a.description,
        },
        working_directory: match u.working_directory {
            Some(w) => w@,
            None => a.working_directory,
        },
        updated_at: if agent_update_touches(u) {
            now
        } else {
            a.updated_at
        },
        ..a
    }
}

/// One agent of the store after an update aimed at the agent with this ID.
pub open spec fn agent_after_update_at(a: AgentV, id: Seq<char>, u: AgentUpdate, now: int) -> AgentV {
    if a.id == id {
        agent_after_update(a, u, now)
    } else {
        a
    }
}

/// One agent of the store after a deactivation of the agent with this ID.
pub open spec fn agent_after_deactivate(a: AgentV, id: Seq<char>, now: int) -> AgentV {
    if a.id == id {
        AgentV { updated_at: now, deactivated_at: Some(now), ..a }
    } else {
        a
    }
}

impl Database {
    /// Index of the agent carrying this ID, deactivated or not.
    fn find_agent(&self, id: &str) -> (r: Option<usize>)
        ensures
            match r {
                Some(i) => i < self.agents.len() && self@.agents[i as int].id == id@,
                None => !has_agent(self@, id@),
            },
    {
        let n = self.agents.len();
        for i in 0..n
            invariant
                n == self.agents.len(),
                forall|j: int| 0 <= j < i ==> self@.agents[j].id != id@,
        {
            if str_eq(self.agents[i].id.as_str(), id) {
                return Some(i);
            }
        }
        None
    }

    /// Index of the active agent carrying this ID.
    fn find_active_agent(&self, id: &str) -> (r: Option<usize>)
        ensures
            match r {
                Some(i) => i < self.agents.len() && self@.agents[i as int].id == id@
                    && self@.agents[i as int].deactivated_at is None,
                None => !has_active_agent(self@, id@),
            },
    {
        let n = self.agents.len();
        for i in 0..n
            invariant
                n == self.agents.len(),
                forall|j: int|
                    0 <= j < i ==> !(self@.agents[j].id == id@ && self@.agents[j].deactivated_at
                        is None),
        {
            if str_eq(self.agents[i].id.as_str(), id) && self.agents[i].deactivated_at.is_none() {
                return Some(i);
            }
        }
        None
    }

    /// Whether some active agent carries this name.
    fn active_name_taken_exec(&self, name: &str) -> (b: bool)
        ensures
            b == active_agent_name_taken(self@, name@),
    {
        let n = self.agents.len();
        for i in 0..n
            invariant
                n == self.agents.len(),
                forall|j: int|
                    0 <= j < i ==> !(self@.agents[j].name == name@ && self@.agents[j].deactivated_at
                        is None),
        {
            if str_eq(self.agents[i].name.as_str(), name) && self.agents[i].deactivated_at.is_none() {
                proof {
                    assert(self@.agents[i as int].name == name@ && self@.agents[i as int].deactivated_at is None);
                }
                return true;
            }
        }
        false
    }

    /// Whether some active agent other than the one with `id` carries this
    /// name.
    fn other_active_name_taken_exec(&self, id: &str, name: &str) -> (b: bool)
        ensures
            b == other_active_agent_name_taken(self@, id@, name@),
    {
        let n = self.agents.len();
        for i in 0..n
            invariant
                n == self.agents.len(),
                forall|j: int|
                    0 <= j < i ==> !(self@.agents[j].id != id@ && self@.agents[j].name == name@
                        && self@.agents[j].deactivated_at is None),
        {
            if !str_eq(self.agents[i].id.as_str(), id) && str_eq(self.agents[i].name.as_str(), name)
                && self.agents[i].deactivated_at.is_none() {
                proof {
                    assert(self@.agents[i as int].id != id@ && self@.agents[i as int].name == name@
                        && self@.agents[i as int].deactivated_at is None);
                }
                return true;
            }
        }
        false
    }

    /// Registers an agent under a caller-supplied ID and resolved name: a
    /// name collision with an active agent is rejected first, then ID
    /// freshness is checked.
    pub fn register_agent_with(
        &mut self,
        id: String,
        name: String,
        command: String,
        working_directory: String,
        description: Option<String>,
        now: i64,
    ) -> (r: Result<Agent, AgentBoardError>)
        requires
            old(self)@.wf(),
            is_agent_id(id@),
        ensures
            final(self)@.wf(),
            final(self)@.boards == old(self)@.boards,
            final(self)@.cards == old(self)@.cards,
            final(self)@.comments == old(self)@.comments,
            match r {
                Ok(a) => {
                    &&& !active_agent_name_taken(old(self)@, name@)
                    &&& !has_agent(old(self)@, id@)
                    &&& a@ == (AgentV {
                        id: id@,
                        name: name@,
                        command: command@,
                        working_directory: working_directory@,
                        description: view_opt_string(description),
                        created_at: now as int,
                        updated_at: now as int,
                        deactivated_at: None,
                    })
                    &&& final(self)@.agents == old(self)@.agents.push(a@)
                },
                Err(e) => {
                    &&& final(self)@ == old(self)@
                    &&& (e is InvalidArgs <==> active_agent_name_taken(old(self)@, name@))
                    &&& (e is InvalidArgs || e is General)
                    &&& (e is General ==> has_agent(old(self)@, id@))
                },
            },
    {
        if self.active_name_taken_exec(name.as_str()) {
            let mut m = String::from_str("Agent name '");
            m.append(name.as_str());
            m.append("' already exists");
            return Err(AgentBoardError::InvalidArgs(m));
        }
        if self.find_agent(id.as_str()).is_some() {
            return Err(
                AgentBoardError::General(String::from_str("Insert failed: duplicate agent ID")),
            );
        }
        let agent = Agent {
            id,
            name,
            command,
            working_directory,
            description,
            created_at: now,
            updated_at: now,
            deactivated_at: None,
        };
        let out = agent.duplicate();
        self.agents.push(agent);
        proof {
            assert(self@.agents =~= old(self)@.agents.push(out@));
            let n = old(self)@.agents.len() as int;
            assert forall|a: int, b: int|
                0 <= a < b < self@.agents.len() implies (#[trigger] self@.agents[a]).id
                != (#[trigger] self@.agents[b]).id by {
                if b == n {
                    assert(self@.agents[a] == old(self)@.agents[a]);
                }
            }
            assert forall|a: int, b: int|
                0 <= a < b < self@.agents.len() && self@.agents[a].deactivated_at is None
                    && self@.agents[b].deactivated_at is None implies (
            #[trigger] self@.agents[a]).name != (#[trigger] self@.agents[b]).name by {
                if b == n {
                    assert(self@.agents[a] == old(self)@.agents[a]);
                    assert(!(old(self)@.agents[a].name == out@.name && old(
                        self,
                    )@.agents[a].deactivated_at is None));
                }
            }
            assert(self@.wf());
        }
        Ok(out)
    }

    /// Registers an agent, drawing a fresh ID and, if no name was given, a
    /// generated human-readable one.
    pub fn register_agent(
        &mut self,
        name: Option<String>,
        command: String,
        working_directory: String,
        description: Option<String>,
        now: i64,
    ) -> (r: Result<Agent, AgentBoardError>)
        requires
            old(self)@.wf(),
        ensures
            final(self)@.wf(),
            final(self)@.boards == old(self)@.boards,
            final(self)@.cards == old(self)@.cards,
            final(self)@.comments == old(self)@.comments,
            match r {
                Ok(a) => {
                    &&& is_agent_id(a@.id)
                    &&& !has_agent(old(self)@, a@.id)
                    &&& !active_agent_name_taken(old(self)@, a@.name)
                    &&& (match name {
                        Some(n) => a@.name == n@,
                        None => a@.name.len() > 0,
                    })
                    &&& a@.command == command@
                    &&& a@.working_directory == working_directory@
                    &&& a@.description == view_opt_string(description)
                    &&& a@.created_at == now as int
                    &&& a@.updated_at == now as int
                    &&& a@.deactivated_at is None
                    &&& final(self)@.agents == old(self)@.agents.push(a@)
                },
                Err(e) => {
                    &&& final(self)@ == old(self)@
                    &&& (e is InvalidArgs || e is General)
                    &&& (match name {
                        Some(n) => e is InvalidArgs <==> active_agent_name_taken(old(self)@, n@),
                        None => true,
                    })
                },
            },
    {
        let resolved = match name {
            Some(n) => n,
            None => crate::gen::generate_agent_name(),
        };
        let id = fresh_id("agent_");
        self.register_agent_with(id, resolved, command, working_directory, description, now)
    }

    /// Looks an agent up by ID; a deactivated agent reads as absent.
    pub fn get_agent(&self, id: &str) -> (r: Result<Agent, AgentBoardError>)
        ensures
            match r {
                Ok(a) => exists|i: int|
                    0 <= i < self@.agents.len() && self@.agents[i].id == id@
                        && self@.agents[i].deactivated_at is None && a@ == self@.agents[i],
                Err(e) => e is NotFound && !has_active_agent(self@, id@),
            },
    {
        match self.find_active_agent(id) {
            Some(i) => Ok(self.agents[i].duplicate()),
            None => Err(AgentBoardError::NotFound(agent_not_found_message(id))),
        }
    }

    /// All agents in insertion order, the deactivated ones only on request.
    pub fn list_agents(&self, include_inactive: bool) -> (r: Vec<Agent>)
        ensures
            include_inactive ==> aviews(r@) == self@.agents,
            !include_inactive ==> aviews(r@) == self@.agents.filter(
                |a: AgentV| a.deactivated_at is None,
            ),
    {
        let mut out: Vec<Agent> = Vec::new();
        let n = self.agents.len();
        for i in 0..n
            invariant
                n == self.agents.len(),
                include_inactive ==> aviews(out@) == self@.agents.take(i as int),
                !include_inactive ==> aviews(out@) == self@.agents.take(i as int).filter(
                    |a: AgentV| a.deactivated_at is None,
                ),
        {
            proof {
                reveal(Seq::filter);
                assert(self@.agents.take(i + 1).drop_last() =~= self@.agents.take(i as int));
                assert(self@.agents.take(i + 1).last() == self@.agents[i as int]);
            }
            if include_inactive || self.agents[i].deactivated_at.is_none() {
                let ghost pre = aviews(out@);
                out.push(self.agents[i].duplicate());
                proof {
                    assert(aviews(out@) =~= pre.push(self@.agents[i as int]));
                }
            }
        }
        proof {
            assert(self@.agents.take(n as int) =~= self@.agents);
        }
        out
    }

    /// Applies an update patch to an active agent; a name change may not
    /// collide with another active agent's name.
    pub fn update_agent(&mut self, id: &str, update: AgentUpdate, now: i64) -> (r: Result<
        (),
        AgentBoardError,
    >)
        requires
            old(self)@.wf(),
        ensures
            final(self)@.wf(),
            final(self)@.boards == old(self)@.boards,
            final(self)@.cards == old(self)@.cards,
            final(self)@.comments == old(self)@.comments,
            match r {
                Ok(()) => {
                    &&& has_active_agent(old(self)@, id@)
                    &&& (match update.name {
                        Some(n) => !other_active_agent_name_taken(old(self)@, id@, n@),
                        None => true,
                    })
                    &&& final(self)@.agents.len() == old(self)@.agents.len()
                    &&& forall|k: int|
                        0 <= k < old(self)@.agents.len() ==> final(self)@.agents[k]
                            == agent_after_update_at(
                            #[trigger] old(self)@.agents[k],
                            id@,
                            update,
                            now as int,
                        )
                },
                Err(e) => {
                    &&& final(self)@ == old(self)@
                    &&& (e is NotFound <==> !has_active_agent(old(self)@, id@))
                    &&& (e is NotFound || e is InvalidArgs)
                    &&& (e is InvalidArgs ==> (match update.name {
                        Some(n) => other_active_agent_name_taken(old(self)@, id@, n@),
                        None => false,
                    }))
                },
            },
    {
        let idx = match self.find_active_agent(id) {
            Some(i) => i,
            None => {
                return Err(AgentBoardError::NotFound(agent_not_found_message(id)));
            },
        };
        match &update.name {
            Some(n) => {
                if self.other_active_name_taken_exec(id, n.as_str()) {
                    let mut m = String::from_str("Agent name '");
                    m.append(n.as_str());
                    m.append("' already exists");
                    return Err(AgentBoardError::InvalidArgs(m));
                }
            },
            None => {},
        }
        let AgentUpdate { name, command, description, working_directory } = update;
        let mut na = self.agents[idx].duplicate();
        let mut touched = false;
        match name {
            Some(n) => {
                na.name = n;
                touched = true;
            },
            None => {},
        }
        match command {
            Some(c) => {
                na.command = c;
                touched = true;
            },
            None => {},
        }
        match description {
            Some(d) => {
                na.description = Some(d);
                touched = true;
            },
            None => {},
        }
        match working_directory {
            Some(w) => {
                na.working_directory = w;
                touched = true;
            },
            None => {},
        }
        if touched {
            na.updated_at = now;
        }
        proof {
            assert(touched == agent_update_touches(update));
            assert(na@ =~= agent_after_update(old(self)@.agents[idx as int], update, now as int));
        }
        self.agents.set(idx, na);
        proof {
            assert forall|k: int| 0 <= k < old(self)@.agents.len() implies self@.agents[k]
                == agent_after_update_at(
                #[trigger] old(self)@.agents[k],
                id@,
                update,
                now as int,
            ) by {
                if k != idx {
                    assert(old(self)@.agents[k].id != old(self)@.agents[idx as int].id);
                }
            }
            assert forall|k: int|
                0 <= k < self@.agents.len() implies (#[trigger] self@.agents[k]).id == old(
                self,
            )@.agents[k].id by {}
            assert forall|a: int, b: int|
                0 <= a < b < self@.agents.len() && self@.agents[a].deactivated_at is None
                    && self@.agents[b].deactivated_at is None implies (
            #[trigger] self@.agents[a]).name != (#[trigger] self@.agents[b]).name by {
                if a != idx && b != idx {
                    assert(self@.agents[a] == old(self)@.agents[a]);
                    assert(self@.agents[b] == old(self)@.agents[b]);
                } else {
                    let other: int = if a == idx {
                        b
                    } else {
                        a
                    };
                    assert(self@.agents[other] == old(self)@.agents[other]);
                    match update.name {
                        Some(n) => {
                            assert(!(old(self)@.agents[other].id != id@ && old(
                                self,
                            )@.agents[other].name == n@ && old(self)@.agents[other].deactivated_at
                                is None));
                        },
                        None => {
                            assert(self@.agents[idx as int].name == old(
                                self,
                            )@.agents[idx as int].name);
                        },
                    }
                }
            }
            assert(self@.wf());
        }
        Ok(())
    }

    /// Deactivates an active agent; its name becomes reusable.
    pub fn unregister_agent(&mut self, id: &str, now: i64) -> (r: Result<(), AgentBoardError>)
        requires
            old(self)@.wf(),
        ensures
            final(self)@.wf(),
            final(self)@.boards == old(self)@.boards,
            final(self)@.cards == old(self)@.cards,
            final(self)@.comments == old(self)@.comments,
            match r {
                Ok(()) => {
                    &&& has_active_agent(old(self)@, id@)
                    &&& final(self)@.agents.len() == old(self)@.agents.len()
                    &&& forall|k: int|
                        0 <= k < old(self)@.agents.len() ==> final(self)@.agents[k]
                            == agent_after_deactivate(
                            #[trigger] old(self)@.agents[k],
                            id@,
                            now as int,
                        )
                },
                Err(e) => {
                    &&& e is NotFound
                    &&& !has_active_agent(old(self)@, id@)
                    &&& final(self)@ == old(self)@
                },
            },
    {
        let idx = match self.find_active_agent(id) {
            Some(i) => i,
            None => {
                return Err(AgentBoardError::NotFound(agent_not_found_message(id)));
            },
        };
        let mut na = self.agents[idx].duplicate();
        na.updated_at = now;
        na.deactivated_at = Some(now);
        proof {
            assert(na@ =~= agent_after_deactivate(
                old(self)@.agents[idx as int],
                id@,
                now as int,
            ));
        }
        self.agents.set(idx, na);
        proof {
            assert forall|k: int| 0 <= k < old(self)@.agents.len() implies self@.agents[k]
                == agent_after_deactivate(#[trigger] old(self)@.agents[k], id@, now as int) by {
                if k != idx {
                    assert(old(self)@.agents[k].id != old(self)@.agents[idx as int].id);
                }
            }
            assert forall|k: int|
                0 <= k < self@.agents.len() implies (#[trigger] self@.agents[k]).id == old(
                self,
            )@.agents[k].id by {}
            assert forall|a: int, b: int|
                0 <= a < b < self@.agents.len() && self@.agents[a].deactivated_at is None
                    && self@.agents[b].deactivated_at is None implies (
            #[trigger] self@.agents[a]).name != (#[trigger] self@.agents[b]).name by {
                assert(self@.agents[a] == old(self)@.agents[a]);
                assert(self@.agents[b] == old(self)@.agents[b]);
            }
            assert(self@.wf());
        }
        Ok(())
    }
}

/// The message carried by a missing-agent error.
fn agent_not_found_message(id: &str) -> (m: String)
{
    let mut m = String::from_str("Agent not found: ");
    m.append(id);
    m
}

/// The message carried by a missing-item error.
fn item_not_found_message(id: &str) -> (m: String)
{
    let mut m = String::from_str("Checklist item not found: ");
    m.append(id);
    m
}

/// The message carried by a missing-card error.
fn card_not_found_message(id: &str) -> (m: String)
{
    let mut m = String::from_str("Card not found: ");
    m.append(id);
    m
}

/// The message carried by a missing-board error.
fn board_not_found_message(id: &str) -> (m: String)
{
    let mut m = String::from_str("Board not found: ");
    m.append(id);
    m
}

/// How one board looks after a deletion of the board with this ID at `now`.
pub open spec fn board_after_delete(b: BoardV, id: Seq<char>, now: int) -> BoardV {
    if b.id == id {
        BoardV { updated_at: now, deleted_at: Some(now), ..b }
    } else {
        b
    }
}

/// How one card looks after its board was soft-deleted at `now`.
pub open spec fn card_after_board_delete(c: CardV, board_id: Seq<char>, now: int) -> CardV {
    if c.board_id == board_id && c.deleted_at is None {
        CardV { updated_at: now, deleted_at: Some(now), ..c }
    } else {
        c
    }
}

/// Relation between the store before and after a successful board deletion:
/// the board and all of its live cards get the same deletion timestamp;
/// nothing else moves.
pub open spec fn board_deleted_rel(pre: DatabaseV, post: DatabaseV, id: Seq<char>, now: int) -> bool {
    &&& has_active_board(pre, id)
    &&& post.boards.len() == pre.boards.len()
    &&& forall|k: int|
        0 <= k < pre.boards.len() ==> post.boards[k] == board_after_delete(
            #[trigger] pre.boards[k],
            id,
            now,
        )
    &&& post.cards.len() == pre.cards.len()
    &&& forall|k: int|
        0 <= k < pre.cards.len() ==> post.cards[k] == card_after_board_delete(
            #[trigger] pre.cards[k],
            id,
            now,
        )
    &&& post.comments == pre.comments
    &&& post.agents == pre.agents
}

/// Deleting a board preserves well-formedness: no ID changes, only
/// deletion markers move.
proof fn lemma_delete_board_wf(pre: DatabaseV, post: DatabaseV, id: Seq<char>, now: int)
    requires
        pre.wf(),
        post.boards.len() == pre.boards.len(),
        forall|k: int|
            0 <= k < pre.boards.len() ==> post.boards[k] == board_after_delete(
                #[trigger] pre.boards[k],
                id,
                now,
            ),
        post.cards.len() == pre.cards.len(),
        forall|k: int|
            0 <= k < pre.cards.len() ==> post.cards[k] == card_after_board_delete(
                #[trigger] pre.cards[k],
                id,
                now,
            ),
        post.comments == pre.comments,
        post.agents == pre.agents,
    ensures
        post.wf(),
{
    assert forall|k: int|
        0 <= k < post.boards.len() implies (#[trigger] post.boards[k]).id == pre.boards[k].id by {
        assert(post.boards[k] == board_after_delete(pre.boards[k], id, now));
    }
    assert forall|k: int|
        0 <= k < post.cards.len() implies (#[trigger] post.cards[k]).id == pre.cards[k].id && (
        #[trigger] post.cards[k]).board_id == pre.cards[k].board_id && (
        #[trigger] post.cards[k]).checklists == pre.cards[k].checklists && (
        #[trigger] post.cards[k]).tags == pre.cards[k].tags by {
        assert(post.cards[k] == card_after_board_delete(pre.cards[k], id, now));
    }
    assert forall|i: int| 0 <= i < post.cards.len() implies card_wf(#[trigger] post.cards[i]) by {
        assert(pre.cards[i].checklists == post.cards[i].checklists);
        assert(card_wf(pre.cards[i]));
    }
    assert forall|i: int|
        0 <= i < post.cards.len() implies board_ref_ok(post.boards, #[trigger] post.cards[i]) by {
        assert(board_ref_ok(pre.boards, pre.cards[i]));
        let k = choose|k: int|
            0 <= k < pre.boards.len() && pre.boards[k].id == pre.cards[i].board_id;
        assert(post.boards[k] == board_after_delete(pre.boards[k], id, now));
        assert(post.boards[k].id == post.cards[i].board_id);
    }
    assert forall|i: int|
        0 <= i < post.comments.len() implies card_ref_ok(post.cards, #[trigger] post.comments[i]) by {
        assert(card_ref_ok(pre.cards, pre.comments[i]));
        let k = choose|k: int|
            0 <= k < pre.cards.len() && pre.cards[k].id == pre.comments[i].card_id;
        assert(post.cards[k] == card_after_board_delete(pre.cards[k], id, now));
        assert(post.cards[k].id == post.comments[i].card_id);
    }
}

} // verus!
