use agent_board::ids::{kind_of_id, EntityKind};
use agent_board::models::{AgentBoardError, OutputFormat, Status};
use agent_board::request::{
    execute, Commands, CreateCommands, DeleteCommands, ListCommands, Outcome, UpdateCommands,
};
use agent_board::store::Database;

fn wd() -> String {
    "/work".to_string()
}

#[test]
fn id_prefix_routes_to_the_right_kind() {
    assert_eq!(kind_of_id("agent_abc123def456"), EntityKind::Agent);
    assert_eq!(kind_of_id("board_abc123def456"), EntityKind::Board);
    assert_eq!(kind_of_id("card_abc123def4567"), EntityKind::Card);
    assert_eq!(kind_of_id("ticket_12345"), EntityKind::Unknown);
    assert_eq!(kind_of_id(""), EntityKind::Unknown);
    assert_eq!(kind_of_id("board"), EntityKind::Unknown);
}

#[test]
fn start_work_without_identity_provisions_one_agent() {
    let mut db = Database::new();
    let board = db.create_board("B".to_string(), None, 1).unwrap();
    let card = db
        .create_card(&board.id, "c".to_string(), None, Status::Todo, 2)
        .unwrap();
    let provisioned = db
        .update_card_request(
            &card.id,
            None,
            None,
            Some(Status::InProgress),
            None,
            false,
            Vec::new(),
            Vec::new(),
            None,
            wd(),
            5,
        )
        .unwrap();
    let agent = provisioned.expect("an identity should have been provisioned");
    assert!(agent.id.starts_with("agent_"));
    assert!(!agent.name.is_empty());
    assert_eq!(agent.command, "stakpak");
    assert_eq!(agent.working_directory, "/work");
    assert_eq!(db.list_agents(false).len(), 1);
    let got = db.get_card(&card.id).unwrap();
    assert_eq!(got.status, Status::InProgress);
    assert_eq!(got.assigned_to.as_deref(), Some(agent.id.as_str()));
    // A second such update with the identity now ambient provisions nothing.
    let second = db
        .update_card_request(
            &card.id,
            None,
            None,
            Some(Status::InProgress),
            None,
            false,
            Vec::new(),
            Vec::new(),
            Some(agent.id.clone()),
            wd(),
            6,
        )
        .unwrap();
    assert!(second.is_none());
    assert_eq!(db.list_agents(false).len(), 1);
}

#[test]
fn explicit_null_unassigns_and_value_assigns() {
    let mut db = Database::new();
    let board = db.create_board("B".to_string(), None, 1).unwrap();
    let card = db
        .create_card(&board.id, "c".to_string(), None, Status::Todo, 2)
        .unwrap();
    let none = db
        .update_card_request(
            &card.id,
            None,
            None,
            None,
            Some("agent_friend00001".to_string()),
            false,
            Vec::new(),
            Vec::new(),
            None,
            wd(),
            3,
        )
        .unwrap();
    assert!(none.is_none());
    assert_eq!(
        db.get_card(&card.id).unwrap().assigned_to.as_deref(),
        Some("agent_friend00001")
    );
    db.update_card_request(
        &card.id,
        None,
        None,
        None,
        Some("null".to_string()),
        false,
        Vec::new(),
        Vec::new(),
        None,
        wd(),
        4,
    )
    .unwrap();
    assert!(db.get_card(&card.id).unwrap().assigned_to.is_none());
}

#[test]
fn assign_to_me_uses_ambient_identity() {
    let mut db = Database::new();
    let board = db.create_board("B".to_string(), None, 1).unwrap();
    let card = db
        .create_card(&board.id, "c".to_string(), None, Status::Todo, 2)
        .unwrap();
    let none = db
        .update_card_request(
            &card.id,
            None,
            None,
            None,
            None,
            true,
            Vec::new(),
            Vec::new(),
            Some("agent_me00000001".to_string()),
            wd(),
            3,
        )
        .unwrap();
    assert!(none.is_none());
    assert_eq!(
        db.get_card(&card.id).unwrap().assigned_to.as_deref(),
        Some("agent_me00000001")
    );
    assert!(db.list_agents(true).is_empty());
}

#[test]
fn sprint_scenario_summary_moves_with_the_card() {
    let mut db = Database::new();
    let board = db.create_board("Sprint".to_string(), None, 1).unwrap();
    let card = db
        .create_card(&board.id, "Fix bug".to_string(), None, Status::Todo, 2)
        .unwrap();
    let s = db.get_board_summary(&board.id).unwrap();
    assert_eq!(s.todo_count, 1);
    assert_eq!(s.in_progress_count, 0);
    assert_eq!(s.pending_review_count, 0);
    assert_eq!(s.done_count, 0);
    assert_eq!(s.total_cards, 1);
    let provisioned = db
        .update_card_request(
            &card.id,
            None,
            None,
            Some(Status::InProgress),
            None,
            true,
            Vec::new(),
            Vec::new(),
            None,
            wd(),
            3,
        )
        .unwrap();
    let agent = provisioned.expect("provisioned");
    let got = db.get_card(&card.id).unwrap();
    assert_eq!(got.assigned_to.as_deref(), Some(agent.id.as_str()));
    let s = db.get_board_summary(&board.id).unwrap();
    assert_eq!(s.in_progress_count, 1);
    assert_eq!(s.todo_count, 0);
    assert_eq!(s.total_cards, 1);
}

#[test]
fn execute_routes_get_by_prefix() {
    let mut db = Database::new();
    let board = db.create_board("B".to_string(), None, 1).unwrap();
    let err = execute(
        &mut db,
        Commands::Get {
            id: "bogus_12345".to_string(),
            format: None,
        },
        OutputFormat::Table,
        None,
        wd(),
        2,
    )
    .unwrap_err();
    assert!(matches!(err, AgentBoardError::InvalidArgs(_)));
    let out = execute(
        &mut db,
        Commands::Get {
            id: board.id.clone(),
            format: None,
        },
        OutputFormat::Table,
        None,
        wd(),
        3,
    )
    .unwrap();
    match out {
        Outcome::BoardDetail { board: b, summary } => {
            assert_eq!(b.id, board.id);
            assert_eq!(summary.total_cards, 0);
        }
        other => panic!("unexpected outcome: {:?}", other),
    }
}

#[test]
fn execute_pretty_board_builds_kanban_data() {
    let mut db = Database::new();
    let board = db.create_board("B".to_string(), None, 1).unwrap();
    let card = db
        .create_card(&board.id, "c".to_string(), None, Status::Todo, 2)
        .unwrap();
    db.add_comment(&card.id, "hello".to_string(), None, 3).unwrap();
    let out = execute(
        &mut db,
        Commands::Get {
            id: board.id.clone(),
            format: Some(OutputFormat::Pretty),
        },
        OutputFormat::Table,
        None,
        wd(),
        4,
    )
    .unwrap();
    match out {
        Outcome::BoardKanban {
            board: b,
            cards,
            comment_counts,
        } => {
            assert_eq!(b.id, board.id);
            assert_eq!(cards.len(), 1);
            assert_eq!(comment_counts, vec![1]);
        }
        other => panic!("unexpected outcome: {:?}", other),
    }
}

#[test]
fn execute_full_lifecycle() {
    let mut db = Database::new();
    let out = execute(
        &mut db,
        Commands::Create {
            command: CreateCommands::Board {
                name: "B".to_string(),
                description: None,
            },
        },
        OutputFormat::Table,
        None,
        wd(),
        1,
    )
    .unwrap();
    let board = match out {
        Outcome::BoardCreated(b) => b,
        other => panic!("unexpected outcome: {:?}", other),
    };
    let out = execute(
        &mut db,
        Commands::Create {
            command: CreateCommands::Card {
                board_id: board.id.clone(),
                name: "c".to_string(),
                description: None,
                status: Status::Todo,
            },
        },
        OutputFormat::Table,
        None,
        wd(),
        2,
    )
    .unwrap();
    let card = match out {
        Outcome::CardCreated(c) => c,
        other => panic!("unexpected outcome: {:?}", other),
    };
    let out = execute(
        &mut db,
        Commands::Update {
            command: UpdateCommands::Card {
                card_id: card.id.clone(),
                name: None,
                description: None,
                status: Some(Status::Done),
                assign: None,
                assign_to_me: false,
                add_tag: vec!["t".to_string()],
                remove_tag: Vec::new(),
            },
        },
        OutputFormat::Table,
        None,
        wd(),
        3,
    )
    .unwrap();
    assert!(matches!(out, Outcome::CardUpdated { provisioned: None, .. }));
    let out = execute(
        &mut db,
        Commands::List {
            command: ListCommands::Cards {
                board_id: board.id.clone(),
                status: Some(Status::Done),
                assigned_to: None,
                tag: vec!["t".to_string()],
                include_deleted: false,
                format: None,
            },
        },
        OutputFormat::Table,
        None,
        wd(),
        4,
    )
    .unwrap();
    match out {
        Outcome::Cards(cs) => {
            assert_eq!(cs.len(), 1);
            assert_eq!(cs[0].id, card.id);
        }
        other => panic!("unexpected outcome: {:?}", other),
    }
    let out = execute(
        &mut db,
        Commands::Delete {
            command: DeleteCommands::Card {
                card_id: card.id.clone(),
            },
        },
        OutputFormat::Table,
        None,
        wd(),
        5,
    )
    .unwrap();
    assert!(matches!(out, Outcome::CardDeleted(_)));
}

#[test]
fn execute_mine_and_whoami_need_an_identity() {
    let mut db = Database::new();
    let err = execute(
        &mut db,
        Commands::Mine {
            board: None,
            status: None,
            format: None,
        },
        OutputFormat::Table,
        None,
        wd(),
        1,
    )
    .unwrap_err();
    assert!(matches!(err, AgentBoardError::InvalidArgs(_)));
    let err = execute(&mut db, Commands::Whoami, OutputFormat::Table, None, wd(), 2).unwrap_err();
    assert!(matches!(err, AgentBoardError::InvalidArgs(_)));
    let agent = db
        .register_agent(Some("me".to_string()), "cmd".to_string(), wd(), None, 3)
        .unwrap();
    let out = execute(
        &mut db,
        Commands::Whoami,
        OutputFormat::Table,
        Some(agent.id.clone()),
        wd(),
        4,
    )
    .unwrap();
    match out {
        Outcome::WhoamiInfo(a) => assert_eq!(a.id, agent.id),
        other => panic!("unexpected outcome: {:?}", other),
    }
}

#[test]
fn execute_get_card_brings_its_comments() {
    let mut db = Database::new();
    let board = db.create_board("B".to_string(), None, 1).unwrap();
    let card = db
        .create_card(&board.id, "c".to_string(), None, Status::Todo, 2)
        .unwrap();
    db.add_comment(&card.id, "note".to_string(), None, 3).unwrap();
    let out = execute(
        &mut db,
        Commands::Get {
            id: card.id.clone(),
            format: None,
        },
        OutputFormat::Table,
        None,
        wd(),
        4,
    )
    .unwrap();
    match out {
        Outcome::CardDetail { card: c, comments } => {
            assert_eq!(c.id, card.id);
            assert_eq!(comments.len(), 1);
            assert_eq!(comments[0].text, "note");
        }
        other => panic!("unexpected outcome: {:?}", other),
    }
}

#[test]
fn execute_listings_cover_each_collection() {
    let mut db = Database::new();
    let board = db.create_board("B".to_string(), None, 1).unwrap();
    let card = db
        .create_card(&board.id, "c".to_string(), None, Status::Todo, 2)
        .unwrap();
    db.add_comment(&card.id, "note".to_string(), None, 3).unwrap();
    db.register_agent(Some("me".to_string()), "cmd".to_string(), wd(), None, 4)
        .unwrap();
    let out = execute(
        &mut db,
        Commands::List {
            command: ListCommands::Boards {
                include_deleted: false,
                format: None,
            },
        },
        OutputFormat::Table,
        None,
        wd(),
        5,
    )
    .unwrap();
    assert!(matches!(out, Outcome::Boards(bs) if bs.len() == 1));
    let out = execute(
        &mut db,
        Commands::List {
            command: ListCommands::Agents {
                include_inactive: false,
                format: None,
            },
        },
        OutputFormat::Table,
        None,
        wd(),
        6,
    )
    .unwrap();
    assert!(matches!(out, Outcome::Agents(agents) if agents.len() == 1));
    let out = execute(
        &mut db,
        Commands::List {
            command: ListCommands::Comments {
                card_id: card.id.clone(),
                format: None,
            },
        },
        OutputFormat::Table,
        None,
        wd(),
        7,
    )
    .unwrap();
    assert!(matches!(out, Outcome::Comments(ms) if ms.len() == 1));
}

#[test]
fn execute_comment_needs_text() {
    let mut db = Database::new();
    let board = db.create_board("B".to_string(), None, 1).unwrap();
    let card = db
        .create_card(&board.id, "c".to_string(), None, Status::Todo, 2)
        .unwrap();
    let err = execute(
        &mut db,
        Commands::Create {
            command: CreateCommands::Comment {
                card_id: card.id.clone(),
                text: None,
            },
        },
        OutputFormat::Table,
        None,
        wd(),
        3,
    )
    .unwrap_err();
    assert!(matches!(err, AgentBoardError::InvalidArgs(_)));
    let out = execute(
        &mut db,
        Commands::Create {
            command: CreateCommands::Comment {
                card_id: card.id.clone(),
                text: Some("note".to_string()),
            },
        },
        OutputFormat::Table,
        Some("agent_me00000001".to_string()),
        wd(),
        4,
    )
    .unwrap();
    match out {
        Outcome::CommentAdded(m) => {
            assert_eq!(m.text, "note");
            assert_eq!(m.author.as_deref(), Some("agent_me00000001"));
        }
        other => panic!("unexpected outcome: {:?}", other),
    }
}

#[test]
fn execute_checklist_item_needs_a_direction() {
    let mut db = Database::new();
    let board = db.create_board("B".to_string(), None, 1).unwrap();
    let card = db
        .create_card(&board.id, "c".to_string(), None, Status::Todo, 2)
        .unwrap();
    let checklist = db
        .add_checklist(&card.id, "Tasks".to_string(), vec!["a".to_string()], 3)
        .unwrap();
    let item_id = checklist.items[0].id.clone();
    let err = execute(
        &mut db,
        Commands::Update {
            command: UpdateCommands::ChecklistItem {
                item_id: item_id.clone(),
                check: false,
                uncheck: false,
            },
        },
        OutputFormat::Table,
        None,
        wd(),
        4,
    )
    .unwrap_err();
    assert!(matches!(err, AgentBoardError::InvalidArgs(_)));
    let out = execute(
        &mut db,
        Commands::Update {
            command: UpdateCommands::ChecklistItem {
                item_id: item_id.clone(),
                check: true,
                uncheck: false,
            },
        },
        OutputFormat::Table,
        None,
        wd(),
        5,
    )
    .unwrap();
    assert!(matches!(out, Outcome::ItemSet { checked: true, .. }));
    assert!(db.get_card(&card.id).unwrap().checklists[0].items[0].checked);
}
