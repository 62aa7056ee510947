//! The request model and its dispatcher: the caller layer builds a
//! request, the store executes it. Bare IDs are routed by prefix, the
//! card update arm runs through the assignment resolver, and every other
//! arm delegates to one store operation.

use vstd::prelude::*;

verus! {

use vstd::string::StringExecFns;
use crate::models::{
    Agent, AgentBoardError, AgentUpdate, Board, BoardSummary, Card, Checklist, Comment,
    OutputFormat, Status,
};
use crate::models::view_opt_string;
use crate::store::{
    Database, DatabaseV, aviews, assignee_cards, bviews, card_after_update_at, comments_of,
    count_live, count_status, cviews, has_active_agent, has_active_board, has_active_card,
    has_board, matching_cards, mviews, view_opt_str,
};
use crate::ids::{EntityKind, kind_of_id, spec_kind_of_id};
use crate::resolver::{applied_update, spec_resolve};

/// The top-level invocation: global flags and one command.
#[derive(Debug)]
pub struct Cli {
    pub api_key: Option<String>,
    pub api_url: Option<String>,
    pub format: OutputFormat,
    pub quiet: bool,
    pub verbose: bool,
    pub command: Commands,
}

/// One invocation of the tool.
#[derive(Debug)]
pub enum Commands {
    Version,
    Get { id: String, format: Option<OutputFormat> },
    List { command: ListCommands },
    Create { command: CreateCommands },
    Update { command: UpdateCommands },
    Delete { command: DeleteCommands },
    Mine { board: Option<String>, status: Option<Status>, format: Option<OutputFormat> },
    Whoami,
}

/// The listing requests.
#[derive(Debug)]
pub enum ListCommands {
    Boards { include_deleted: bool, format: Option<OutputFormat> },
    Cards {
        board_id: String,
        status: Option<Status>,
        assigned_to: Option<String>,
        tag: Vec<String>,
        include_deleted: bool,
        format: Option<OutputFormat>,
    },
    Agents { include_inactive: bool, format: Option<OutputFormat> },
    Comments { card_id: String, format: Option<OutputFormat> },
}

/// The creation requests. A comment arrives with its text already read;
/// collecting it from a file is the caller layer's business.
#[derive(Debug)]
pub enum CreateCommands {
    Board { name: String, description: Option<String> },
    Card { board_id: String, name: String, description: Option<String>, status: Status },
    Agent { command: String, name: Option<String>, description: Option<String> },
    Checklist { card_id: String, name: String, item: Vec<String> },
    Comment { card_id: String, text: Option<String> },
}

/// The update requests. An agent's working directory arrives already
/// resolved to a concrete path.
#[derive(Debug)]
pub enum UpdateCommands {
    Card {
        card_id: String,
        name: Option<String>,
        description: Option<String>,
        status: Option<Status>,
        assign: Option<String>,
        assign_to_me: bool,
        add_tag: Vec<String>,
        remove_tag: Vec<String>,
    },
    Agent {
        agent_id: String,
        name: Option<String>,
        command: Option<String>,
        description: Option<String>,
        workdir: Option<String>,
    },
    ChecklistItem { item_id: String, check: bool, uncheck: bool },
}

/// The deletion requests; all of them soft-delete.
#[derive(Debug)]
pub enum DeleteCommands {
    Board { board_id: String },
    Card { card_id: String },
    Agent { agent_id: String },
}

/// What an executed request hands back for rendering.
#[derive(Debug)]
pub enum Outcome {
    VersionInfo,
    AgentDetail(Agent),
    BoardDetail { board: Board, summary: BoardSummary },
    BoardKanban { board: Board, cards: Vec<Card>, comment_counts: Vec<u64> },
    CardDetail { card: Card, comments: Vec<Comment> },
    Boards(Vec<Board>),
    Cards(Vec<Card>),
    Agents(Vec<Agent>),
    Comments(Vec<Comment>),
    BoardCreated(Board),
    CardCreated(Card),
    AgentCreated(Agent),
    ChecklistAdded(Checklist),
    CommentAdded(Comment),
    CardUpdated { card_id: String, provisioned: Option<Agent> },
    AgentUpdated(String),
    ItemSet { item_id: String, checked: bool },
    BoardDeleted(String),
    CardDeleted(String),
    AgentDeleted(String),
    WhoamiInfo(Agent),
}

/// The format a request is answered in: its own choice, or the global one.
pub open spec fn effective_format(format: Option<OutputFormat>, default_format: OutputFormat) -> OutputFormat {
    match format {
        Some(f) => f,
        None => default_format,
    }
}

/// What a get-by-ID request guarantees: routing by prefix, an invalid
/// prefix rejected, each kind answered from the store, and the kanban
/// variant carrying the live cards with their comment counts.
pub open spec fn get_post(
    pre: DatabaseV,
    id: Seq<char>,
    fmt: OutputFormat,
    r: Result<Outcome, AgentBoardError>,
) -> bool {
    match spec_kind_of_id(id) {
        EntityKind::Unknown => r matches Err(e) && e is InvalidArgs,
        EntityKind::Agent => match r {
            Ok(o) => o matches Outcome::AgentDetail(a) && exists|i: int|
                0 <= i < pre.agents.len() && pre.agents[i].id == id && pre.agents[i].deactivated_at
                    is None && a@ == pre.agents[i],
            Err(e) => e is NotFound && !has_active_agent(pre, id),
        },
        EntityKind::Board => if fmt == OutputFormat::Pretty {
            match r {
                Ok(o) => match o {
                    Outcome::BoardKanban { board, cards, comment_counts } => {
                        &&& exists|i: int|
                            0 <= i < pre.boards.len() && pre.boards[i].id == id
                                && pre.boards[i].deleted_at is None && board@ == pre.boards[i]
                        &&& cviews(cards@) == matching_cards(
                            pre.cards,
                            id,
                            None,
                            None,
                            Seq::empty(),
                            false,
                        )
                        &&& comment_counts@.len() == cards@.len()
                        &&& forall|k: int|
                            0 <= k < cards@.len() ==> #[trigger] comment_counts@[k] == comments_of(
                                pre.comments,
                                cards@[k]@.id,
                            ).len()
                    },
                    _ => false,
                },
                Err(e) => e is NotFound && !has_active_board(pre, id),
            }
        } else {
            match r {
                Ok(o) => match o {
                    Outcome::BoardDetail { board, summary } => {
                        &&& exists|i: int|
                            0 <= i < pre.boards.len() && pre.boards[i].id == id
                                && pre.boards[i].deleted_at is None && board@ == pre.boards[i]
                        &&& summary.todo_count == count_status(pre.cards, id, Status::Todo)
                        &&& summary.in_progress_count == count_status(
                            pre.cards,
                            id,
                            Status::InProgress,
                        )
                        &&& summary.pending_review_count == count_status(
                            pre.cards,
                            id,
                            Status::PendingReview,
                        )
                        &&& summary.done_count == count_status(pre.cards, id, Status::Done)
                        &&& summary.total_cards == count_live(pre.cards, id)
                    },
                    _ => false,
                },
                Err(e) => e is NotFound && !has_active_board(pre, id),
            }
        },
        EntityKind::Card => match r {
            Ok(o) => match o {
                Outcome::CardDetail { card, comments } => {
                    &&& exists|i: int|
                        0 <= i < pre.cards.len() && pre.cards[i].id == id && pre.cards[i].deleted_at
                            is None && card@ == pre.cards[i]
                    &&& mviews(comments@) == comments_of(pre.comments, id)
                },
                _ => false,
            },
            Err(e) => e is NotFound && !has_active_card(pre, id),
        },
    }
}

/// What a listing request guarantees: the store's own filters, unchanged.
pub open spec fn list_post(
    pre: DatabaseV,
    command: ListCommands,
    r: Result<Outcome, AgentBoardError>,
) -> bool {
    match command {
        ListCommands::Boards { include_deleted, .. } => match r {
            Ok(o) => o matches Outcome::Boards(bs) && bviews(bs@) == (if include_deleted {
                pre.boards
            } else {
                pre.boards.filter(|b: crate::models::BoardV| b.deleted_at is None)
            }),
            Err(_) => false,
        },
        ListCommands::Cards { board_id, status, assigned_to, tag, include_deleted, .. } => match r {
            Ok(o) => o matches Outcome::Cards(cs) && cviews(cs@) == matching_cards(
                pre.cards,
                board_id@,
                status,
                view_opt_string(assigned_to),
                tag.deep_view(),
                include_deleted,
            ),
            Err(e) => e is NotFound && !has_board(pre, board_id@),
        },
        ListCommands::Agents { include_inactive, .. } => match r {
            Ok(o) => o matches Outcome::Agents(agents) && aviews(agents@) == (
            if include_inactive {
                pre.agents
            } else {
                pre.agents.filter(|a: crate::models::AgentV| a.deactivated_at is None)
            }),
            Err(_) => false,
        },
        ListCommands::Comments { card_id, .. } => match r {
            Ok(o) => o matches Outcome::Comments(ms) && mviews(ms@) == comments_of(
                pre.comments,
                card_id@,
            ),
            Err(e) => e is NotFound && !has_active_card(pre, card_id@),
        },
    }
}

/// What a creation request guarantees: the new record lands in the store
/// exactly as the corresponding store operation promises.
pub open spec fn create_post(
    pre: DatabaseV,
    post: DatabaseV,
    command: CreateCommands,
    ambient: Option<String>,
    workdir: Seq<char>,
    now: int,
    r: Result<Outcome, AgentBoardError>,
) -> bool {
    match command {
        CreateCommands::Board { name, description } => match r {
            Ok(o) => o matches Outcome::BoardCreated(b) && {
                &&& crate::ids::is_board_id(b@.id)
                &&& !has_board(pre, b@.id)
                &&& b@.name == name@
                &&& b@.description == view_opt_string(description)
                &&& b@.created_at == now
                &&& b@.updated_at == now
                &&& b@.deleted_at is None
                &&& post.boards == pre.boards.push(b@)
            },
            Err(e) => e is General && post == pre,
        },
        CreateCommands::Card { board_id, name, description, status } => match r {
            Ok(o) => o matches Outcome::CardCreated(c) && {
                &&& has_active_board(pre, board_id@)
                &&& crate::ids::is_card_id(c@.id)
                &&& c@.board_id == board_id@
                &&& c@.name == name@
                &&& c@.description == view_opt_string(description)
                &&& c@.status == status
                &&& c@.assigned_to is None
                &&& c@.tags.len() == 0
                &&& c@.checklists.len() == 0
                &&& c@.created_at == now
                &&& c@.updated_at == now
                &&& c@.deleted_at is None
                &&& post.cards == pre.cards.push(c@)
            },
            Err(e) => {
                &&& post == pre
                &&& (e is NotFound <==> !has_active_board(pre, board_id@))
                &&& (e is NotFound || e is General)
            },
        },
        CreateCommands::Agent { command: cmd_text, name, description } => match r {
            Ok(o) => o matches Outcome::AgentCreated(a) && {
                &&& crate::ids::is_agent_id(a@.id)
                &&& (match name {
                    Some(n) => a@.name == n@,
                    None => a@.name.len() > 0,
                })
                &&& a@.command == cmd_text@
                &&& a@.working_directory == workdir
                &&& a@.description == view_opt_string(description)
                &&& a@.created_at == now
                &&& a@.deactivated_at is None
                &&& post.agents == pre.agents.push(a@)
            },
            Err(e) => post == pre && (e is InvalidArgs || e is General),
        },
        CreateCommands::Checklist { card_id, name, item } => match r {
            Ok(o) => o matches Outcome::ChecklistAdded(cl) && {
                &&& has_active_card(pre, card_id@)
                &&& crate::ids::is_checklist_id(cl@.id)
                &&& cl@.name == name@
                &&& cl@.items.len() == item@.len()
                &&& forall|k: int|
                    0 <= k < item@.len() ==> (#[trigger] cl@.items[k]).text == item.deep_view()[k]
                        && !cl@.items[k].checked
                &&& post.cards.len() == pre.cards.len()
                &&& forall|k: int|
                    0 <= k < pre.cards.len() ==> post.cards[k]
                        == crate::store::card_after_add_checklist(
                        #[trigger] pre.cards[k],
                        card_id@,
                        cl@,
                        now,
                    )
            },
            Err(e) => {
                &&& post == pre
                &&& (e is NotFound <==> !has_active_card(pre, card_id@))
                &&& (e is NotFound || e is General)
            },
        },
        CreateCommands::Comment { card_id, text } => match text {
            None => r matches Err(e) && e is InvalidArgs && post == pre,
            Some(t) => match r {
                Ok(o) => o matches Outcome::CommentAdded(m) && {
                    &&& has_active_card(pre, card_id@)
                    &&& m@.card_id == card_id@
                    &&& m@.text == t@
                    &&& m@.author == view_opt_string(ambient)
                    &&& m@.created_at == now
                    &&& post.comments == pre.comments.push(m@)
                },
                Err(e) => {
                    &&& post == pre
                    &&& (e is NotFound <==> !has_active_card(pre, card_id@))
                    &&& (e is NotFound || e is General)
                },
            },
        },
    }
}

/// What an update request guarantees: the card arm runs through the
/// assignment resolver and provisions at most once; the agent and item
/// arms delegate to their store operations.
pub open spec fn update_post(
    pre: DatabaseV,
    post: DatabaseV,
    command: UpdateCommands,
    ambient: Option<String>,
    workdir: Seq<char>,
    now: int,
    r: Result<Outcome, AgentBoardError>,
) -> bool {
    match command {
        UpdateCommands::Card {
            card_id,
            name,
            description,
            status,
            assign,
            assign_to_me,
            add_tag,
            remove_tag,
        } => match r {
            Ok(o) => match o {
                Outcome::CardUpdated { card_id: out_id, provisioned } => {
                    &&& out_id@ == card_id@
                    &&& has_active_card(pre, card_id@)
                    &&& (match provisioned {
                        Some(a) => {
                            &&& spec_resolve(assign, assign_to_me, status, ambient) is Provision
                            &&& crate::ids::is_agent_id(a@.id)
                            &&& a@.name.len() > 0
                            &&& a@.working_directory == workdir
                            &&& a@.deactivated_at is None
                            &&& post.agents == pre.agents.push(a@)
                        },
                        None => {
                            &&& !(spec_resolve(assign, assign_to_me, status, ambient)
                                is Provision)
                            &&& post.agents == pre.agents
                        },
                    })
                    &&& post.cards.len() == pre.cards.len()
                    &&& forall|k: int|
                        0 <= k < pre.cards.len() ==> post.cards[k] == card_after_update_at(
                            #[trigger] pre.cards[k],
                            card_id@,
                            applied_update(
                                name,
                                description,
                                status,
                                spec_resolve(assign, assign_to_me, status, ambient),
                                provisioned,
                                add_tag,
                                remove_tag,
                            ),
                            now,
                        )
                },
                _ => false,
            },
            Err(e) => {
                &&& post.cards == pre.cards
                &&& (e is NotFound ==> !has_active_card(pre, card_id@))
                &&& (post.agents == pre.agents || exists|a: crate::models::AgentV| post.agents
                    == pre.agents.push(a))
                &&& (!(spec_resolve(assign, assign_to_me, status, ambient) is Provision)
                    ==> e is NotFound && !has_active_card(pre, card_id@) && post == pre)
            },
        },
        UpdateCommands::Agent { agent_id, name, command: cmd_text, description, workdir: wd } => match r {
            Ok(o) => o matches Outcome::AgentUpdated(out_id) && {
                &&& out_id@ == agent_id@
                &&& has_active_agent(pre, agent_id@)
                &&& post.agents.len() == pre.agents.len()
                &&& forall|k: int|
                    0 <= k < pre.agents.len() ==> post.agents[k]
                        == crate::store::agent_after_update_at(
                        #[trigger] pre.agents[k],
                        agent_id@,
                        AgentUpdate {
                            name: name,
                            command: cmd_text,
                            description: description,
                            working_directory: wd,
                        },
                        now,
                    )
            },
            Err(e) => {
                &&& post == pre
                &&& (e is NotFound <==> !has_active_agent(pre, agent_id@))
                &&& (e is NotFound || e is InvalidArgs)
            },
        },
        UpdateCommands::ChecklistItem { item_id, check, uncheck } => {
            if !check && !uncheck {
                r matches Err(e) && e is InvalidArgs && post == pre
            } else {
                match r {
                    Ok(o) => match o {
                        Outcome::ItemSet { item_id: out_id, checked } => {
                            &&& out_id@ == item_id@
                            &&& checked == check
                            &&& crate::store::has_item(pre, item_id@)
                            &&& post.cards.len() == pre.cards.len()
                            &&& forall|k: int|
                                0 <= k < pre.cards.len() ==> post.cards[k]
                                    == crate::store::card_after_check_item(
                                    #[trigger] pre.cards[k],
                                    item_id@,
                                    check,
                                    now,
                                )
                        },
                        _ => false,
                    },
                    Err(e) => e is NotFound && !crate::store::has_item(pre, item_id@) && post
                        == pre,
                }
            }
        },
    }
}

/// What a deletion request guarantees: the store's soft-delete relations.
pub open spec fn delete_post(
    pre: DatabaseV,
    post: DatabaseV,
    command: DeleteCommands,
    now: int,
    r: Result<Outcome, AgentBoardError>,
) -> bool {
    match command {
        DeleteCommands::Board { board_id } => match r {
            Ok(o) => o matches Outcome::BoardDeleted(out_id) && out_id@ == board_id@
                && crate::store::board_deleted_rel(pre, post, board_id@, now),
            Err(e) => e is NotFound && !has_active_board(pre, board_id@) && post == pre,
        },
        DeleteCommands::Card { card_id } => match r {
            Ok(o) => o matches Outcome::CardDeleted(out_id) && {
                &&& out_id@ == card_id@
                &&& has_active_card(pre, card_id@)
                &&& post.cards.len() == pre.cards.len()
                &&& forall|k: int|
                    0 <= k < pre.cards.len() ==> post.cards[k] == crate::store::card_after_delete(
                        #[trigger] pre.cards[k],
                        card_id@,
                        now,
                    )
            },
            Err(e) => e is NotFound && !has_active_card(pre, card_id@) && post == pre,
        },
        DeleteCommands::Agent { agent_id } => match r {
            Ok(o) => o matches Outcome::AgentDeleted(out_id) && {
                &&& out_id@ == agent_id@
                &&& has_active_agent(pre, agent_id@)
                &&& post.agents.len() == pre.agents.len()
                &&& forall|k: int|
                    0 <= k < pre.agents.len() ==> post.agents[k]
                        == crate::store::agent_after_deactivate(
                        #[trigger] pre.agents[k],
                        agent_id@,
                        now,
                    )
            },
            Err(e) => e is NotFound && !has_active_agent(pre, agent_id@) && post == pre,
        },
    }
}

/// What executing a request guarantees, arm by arm. Read-only requests
/// leave the store untouched; the ambient identity stands in for the
/// out-of-band caller identity.
pub open spec fn execute_post(
    pre: DatabaseV,
    post: DatabaseV,
    cmd: Commands,
    default_format: OutputFormat,
    ambient: Option<String>,
    workdir: Seq<char>,
    now: int,
    r: Result<Outcome, AgentBoardError>,
) -> bool {
    match cmd {
        Commands::Version => post == pre && (r matches Ok(o) && o is VersionInfo),
        Commands::Get { id, format } => post == pre && get_post(
            pre,
            id@,
            effective_format(format, default_format),
            r,
        ),
        Commands::List { command } => post == pre && list_post(pre, command, r),
        Commands::Create { command } => create_post(pre, post, command, ambient, workdir, now, r),
        Commands::Update { command } => update_post(pre, post, command, ambient, workdir, now, r),
        Commands::Delete { command } => delete_post(pre, post, command, now, r),
        Commands::Mine { board, status, .. } => {
            post == pre && match ambient {
                None => r matches Err(e) && e is InvalidArgs,
                Some(me) => r matches Ok(o) && o matches Outcome::Cards(cs) && cviews(cs@)
                    == assignee_cards(pre.cards, me@, view_opt_string(board), status),
            }
        },
        Commands::Whoami => post == pre && match ambient {
            None => r matches Err(e) && e is InvalidArgs,
            Some(me) => match r {
                Ok(o) => o matches Outcome::WhoamiInfo(a) && exists|i: int|
                    0 <= i < pre.agents.len() && pre.agents[i].id == me@
                        && pre.agents[i].deactivated_at is None && a@ == pre.agents[i],
                Err(e) => e is NotFound && !has_active_agent(pre, me@),
            },
        },
    }
}

/// Executes one request against the store: routes a bare ID by its
/// prefix, consults the assignment resolver for card updates, and
/// otherwise hands the request to the matching store operation.
pub fn execute(
    db: &mut Database,
    cmd: Commands,
    default_format: OutputFormat,
    ambient: Option<String>,
    workdir: String,
    now: i64,
) -> (r: Result<Outcome, AgentBoardError>)
    requires
        old(db)@.wf(),
    ensures
        final(db)@.wf(),
        execute_post(old(db)@, final(db)@, cmd, default_format, ambient, workdir@, now as int, r),
{
    match cmd {
        Commands::Version => Ok(Outcome::VersionInfo),
        Commands::Get { id, format } => {
            let fmt = match format {
                Some(f) => f,
                None => default_format,
            };
            match kind_of_id(id.as_str()) {
                EntityKind::Agent => {
                    let agent = match db.get_agent(id.as_str()) {
                        Ok(a) => a,
                        Err(e) => {
                            return Err(e);
                        },
                    };
                    Ok(Outcome::AgentDetail(agent))
                },
                EntityKind::Board => {
                    let board = match db.get_board(id.as_str()) {
                        Ok(b) => b,
                        Err(e) => {
                            return Err(e);
                        },
                    };
                    if fmt == OutputFormat::Pretty {
                        let empty_tags: Vec<String> = Vec::new();
                        let cards = match db.list_cards(id.as_str(), None, None, &empty_tags,
                            false) {
                            Ok(cs) => cs,
                            Err(e) => {
                                return Err(e);
                            },
                        };
                        proof {
                            assert(empty_tags.deep_view() =~= Seq::<Seq<char>>::empty());
                        }
                        let mut comment_counts: Vec<u64> = Vec::new();
                        let n = cards.len();
                        for k in 0..n
                            invariant
                                n == cards.len(),
                                comment_counts@.len() == k,
                                db@ == old(db)@,
                                forall|j: int|
                                    0 <= j < k ==> #[trigger] comment_counts@[j] == comments_of(
                                        db@.comments,
                                        cards@[j]@.id,
                                    ).len(),
                        {
                            comment_counts.push(db.comment_count(cards[k].id.as_str()));
                        }
                        Ok(Outcome::BoardKanban { board, cards, comment_counts })
                    } else {
                        let summary = match db.get_board_summary(id.as_str()) {
                            Ok(s) => s,
                            Err(e) => {
                                return Err(e);
                            },
                        };
                        Ok(Outcome::BoardDetail { board, summary })
                    }
                },
                EntityKind::Card => {
                    let card = match db.get_card(id.as_str()) {
                        Ok(c) => c,
                        Err(e) => {
                            return Err(e);
                        },
                    };
                    let comments = match db.list_comments(id.as_str()) {
                        Ok(ms) => ms,
                        Err(e) => {
                            return Err(e);
                        },
                    };
                    Ok(Outcome::CardDetail { card, comments })
                },
                EntityKind::Unknown => {
                    let mut m = String::from_str("Unknown ID prefix: ");
                    m.append(id.as_str());
                    m.append(". Expected agent_, board_, or card_");
                    Err(AgentBoardError::InvalidArgs(m))
                },
            }
        },
        Commands::List { command } => match command {
            ListCommands::Boards { include_deleted, format } => {
                let boards = db.list_boards(include_deleted);
                Ok(Outcome::Boards(boards))
            },
            ListCommands::Cards { board_id, status, assigned_to, tag, include_deleted, format } => {
                let assigned_ref: Option<&str> = match &assigned_to {
                    Some(a) => Some(a.as_str()),
                    None => None,
                };
                proof {
                    assert(view_opt_str(assigned_ref) == view_opt_string(assigned_to));
                }
                match db.list_cards(board_id.as_str(), status, assigned_ref, &tag,
                    include_deleted) {
                    Ok(cs) => Ok(Outcome::Cards(cs)),
                    Err(e) => Err(e),
                }
            },
            ListCommands::Agents { include_inactive, format } => {
                let agents = db.list_agents(include_inactive);
                Ok(Outcome::Agents(agents))
            },
            ListCommands::Comments { card_id, format } => {
                match db.list_comments(card_id.as_str()) {
                    Ok(ms) => Ok(Outcome::Comments(ms)),
                    Err(e) => Err(e),
                }
            },
        },
        Commands::Create { command } => match command {
            CreateCommands::Board { name, description } => {
                match db.create_board(name, description, now) {
                    Ok(b) => Ok(Outcome::BoardCreated(b)),
                    Err(e) => Err(e),
                }
            },
            CreateCommands::Card { board_id, name, description, status } => {
                match db.create_card(board_id.as_str(), name, description, status, now) {
                    Ok(c) => Ok(Outcome::CardCreated(c)),
                    Err(e) => Err(e),
                }
            },
            CreateCommands::Agent { command: cmd_text, name, description } => {
                match db.register_agent(name, cmd_text, workdir, description, now) {
                    Ok(a) => Ok(Outcome::AgentCreated(a)),
                    Err(e) => Err(e),
                }
            },
            CreateCommands::Checklist { card_id, name, item } => {
                match db.add_checklist(card_id.as_str(), name, item, now) {
                    Ok(cl) => Ok(Outcome::ChecklistAdded(cl)),
                    Err(e) => Err(e),
                }
            },
            CreateCommands::Comment { card_id, text } => {
                let content = match text {
                    Some(t) => t,
                    None => {
                        return Err(
                            AgentBoardError::InvalidArgs(
                                String::from_str("Either text or a file is required"),
                            ),
                        );
                    },
                };
                match db.add_comment(card_id.as_str(), content, ambient, now) {
                    Ok(m) => Ok(Outcome::CommentAdded(m)),
                    Err(e) => Err(e),
                }
            },
        },
        Commands::Update { command } => match command {
            UpdateCommands::Card {
                card_id,
                name,
                description,
                status,
                assign,
                assign_to_me,
                add_tag,
                remove_tag,
            } => {
                match db.update_card_request(
                    card_id.as_str(),
                    name,
                    description,
                    status,
                    assign,
                    assign_to_me,
                    add_tag,
                    remove_tag,
                    ambient,
                    workdir,
                    now,
                ) {
                    Ok(provisioned) => Ok(Outcome::CardUpdated { card_id, provisioned }),
                    Err(e) => Err(e),
                }
            },
            UpdateCommands::Agent { agent_id, name, command: cmd_text, description, workdir: wd } => {
                let update = AgentUpdate {
                    name,
                    command: cmd_text,
                    description,
                    working_directory: wd,
                };
                match db.update_agent(agent_id.as_str(), update, now) {
                    Ok(()) => Ok(Outcome::AgentUpdated(agent_id)),
                    Err(e) => Err(e),
                }
            },
            UpdateCommands::ChecklistItem { item_id, check, uncheck } => {
                if !check && !uncheck {
                    return Err(
                        AgentBoardError::InvalidArgs(
                            String::from_str("Must specify whether to check or uncheck"),
                        ),
                    );
                }
                match db.check_item(item_id.as_str(), check, now) {
                    Ok(()) => Ok(Outcome::ItemSet { item_id, checked: check }),
                    Err(e) => Err(e),
                }
            },
        },
        Commands::Delete { command } => match command {
            DeleteCommands::Board { board_id } => match db.delete_board(board_id.as_str(), now) {
                Ok(()) => Ok(Outcome::BoardDeleted(board_id)),
                Err(e) => Err(e),
            },
            DeleteCommands::Card { card_id } => match db.delete_card(card_id.as_str(), now) {
                Ok(()) => Ok(Outcome::CardDeleted(card_id)),
                Err(e) => Err(e),
            },
            DeleteCommands::Agent { agent_id } => match db.unregister_agent(agent_id.as_str(),
                now) {
                Ok(()) => Ok(Outcome::AgentDeleted(agent_id)),
                Err(e) => Err(e),
            },
        },
        Commands::Mine { board, status, format } => {
            let me = match &ambient {
                Some(a) => a,
                None => {
                    return Err(
                        AgentBoardError::InvalidArgs(
                            String::from_str("No ambient agent identity is configured"),
                        ),
                    );
                },
            };
            let board_ref: Option<&str> = match &board {
                Some(b) => Some(b.as_str()),
                None => None,
            };
            proof {
                assert(view_opt_str(board_ref) == view_opt_string(board));
            }
            let cards = db.get_cards_by_assignee(me.as_str(), board_ref, status);
            Ok(Outcome::Cards(cards))
        },
        Commands::Whoami => {
            let me = match &ambient {
                Some(a) => a,
                None => {
                    return Err(
                        AgentBoardError::InvalidArgs(
                            String::from_str("No ambient agent identity is configured"),
                        ),
                    );
                },
            };
            match db.get_agent(me.as_str()) {
                Ok(a) => Ok(Outcome::WhoamiInfo(a)),
                Err(e) => Err(e),
            }
        },
    }
}

} // verus!
