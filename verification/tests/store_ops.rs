use agent_board::models::{AgentBoardError, AssignPatch, CardUpdate, Status};
use agent_board::store::Database;

fn empty_update() -> CardUpdate {
    CardUpdate {
        name: None,
        description: None,
        status: None,
        assignment: AssignPatch::NoChange,
        add_tags: Vec::new(),
        remove_tags: Vec::new(),
    }
}

#[test]
fn create_board_and_get_it_back() {
    let mut db = Database::new();
    let board = db
        .create_board("Sprint".to_string(), Some("week one".to_string()), 100)
        .unwrap();
    assert!(board.id.starts_with("board_"));
    assert_eq!(board.id.chars().count(), 18);
    // The random token is 12 lowercase hexadecimal characters.
    assert!(board.id["board_".len()..]
        .chars()
        .all(|c| c.is_ascii_hexdigit() && !c.is_ascii_uppercase()));
    assert_eq!(board.name, "Sprint");
    assert_eq!(board.description.as_deref(), Some("week one"));
    assert_eq!(board.created_at, 100);
    assert_eq!(board.updated_at, 100);
    assert!(board.deleted_at.is_none());
    let fetched = db.get_board(&board.id).unwrap();
    assert_eq!(fetched.id, board.id);
    assert_eq!(fetched.name, "Sprint");
}

#[test]
fn get_missing_board_is_not_found() {
    let db = Database::new();
    let err = db.get_board("board_missing12345").unwrap_err();
    assert!(matches!(err, AgentBoardError::NotFound(_)));
    assert_eq!(err.exit_code(), 4);
}

#[test]
fn duplicate_board_id_is_rejected() {
    let mut db = Database::new();
    db.create_board_with("board_fixed0000001".to_string(), "A".to_string(), None, 1)
        .unwrap();
    let err = db
        .create_board_with("board_fixed0000001".to_string(), "B".to_string(), None, 2)
        .unwrap_err();
    assert!(matches!(err, AgentBoardError::General(_)));
    assert_eq!(err.exit_code(), 1);
}

#[test]
fn deleted_board_reads_as_absent_but_stays_listed() {
    let mut db = Database::new();
    let board = db.create_board("Old".to_string(), None, 10).unwrap();
    db.delete_board(&board.id, 20).unwrap();
    assert!(db.get_board(&board.id).is_err());
    assert_eq!(db.list_boards(false).len(), 0);
    let all = db.list_boards(true);
    assert_eq!(all.len(), 1);
    assert_eq!(all[0].deleted_at, Some(20));
    assert_eq!(all[0].updated_at, 20);
}

#[test]
fn delete_board_cascades_to_live_cards() {
    let mut db = Database::new();
    let board = db.create_board("B".to_string(), None, 1).unwrap();
    let c1 = db
        .create_card(&board.id, "one".to_string(), None, Status::Todo, 2)
        .unwrap();
    let c2 = db
        .create_card(&board.id, "two".to_string(), None, Status::Done, 3)
        .unwrap();
    db.delete_card(&c2.id, 4).unwrap();
    db.delete_board(&board.id, 9).unwrap();
    // Both cards deleted; the cascade stamps only the previously live one.
    let after1 = db.get_card_with_deleted(&c1.id).unwrap();
    assert_eq!(after1.deleted_at, Some(9));
    let after2 = db.get_card_with_deleted(&c2.id).unwrap();
    assert_eq!(after2.deleted_at, Some(4));
    // Deleting again is an error: the board is already gone.
    let err = db.delete_board(&board.id, 10).unwrap_err();
    assert!(matches!(err, AgentBoardError::NotFound(_)));
}

#[test]
fn delete_board_then_list_cards_both_ways() {
    let mut db = Database::new();
    let board = db.create_board("B".to_string(), None, 1).unwrap();
    db.create_card(&board.id, "one".to_string(), None, Status::Todo, 2)
        .unwrap();
    db.create_card(&board.id, "two".to_string(), None, Status::Done, 3)
        .unwrap();
    db.delete_board(&board.id, 5).unwrap();
    let none = db
        .list_cards(&board.id, None, None, &Vec::new(), false)
        .unwrap();
    assert!(none.is_empty());
    let all = db
        .list_cards(&board.id, None, None, &Vec::new(), true)
        .unwrap();
    assert_eq!(all.len(), 2);
    assert!(all.iter().all(|c| c.deleted_at == Some(5)));
    // A board that never existed is an error even when deleted cards are included.
    assert!(db
        .list_cards("board_nonexistent1", None, None, &Vec::new(), true)
        .is_err());
}

#[test]
fn tag_add_is_idempotent_and_remove_of_absent_is_noop() {
    let mut db = Database::new();
    let board = db.create_board("B".to_string(), None, 1).unwrap();
    let card = db
        .create_card(&board.id, "c".to_string(), None, Status::Todo, 2)
        .unwrap();
    let mut add_x = empty_update();
    add_x.add_tags = vec!["x".to_string()];
    db.update_card(&card.id, add_x, 3).unwrap();
    let mut add_x_again = empty_update();
    add_x_again.add_tags = vec!["x".to_string()];
    db.update_card(&card.id, add_x_again, 4).unwrap();
    let got = db.get_card(&card.id).unwrap();
    assert_eq!(got.tags, vec!["x".to_string()]);
    // Re-adding a present tag changed nothing, so not even the clock moved.
    assert_eq!(got.updated_at, 3);
    let before = db.get_card(&card.id).unwrap();
    let mut remove_y = empty_update();
    remove_y.remove_tags = vec!["y".to_string()];
    db.update_card(&card.id, remove_y, 5).unwrap();
    let got = db.get_card(&card.id).unwrap();
    // Removing an absent tag is a no-op, not an error: every field stays.
    assert_eq!(got.tags, before.tags);
    assert_eq!(got.name, before.name);
    assert_eq!(got.status, before.status);
    assert_eq!(got.assigned_to, before.assigned_to);
    assert_eq!(got.created_at, before.created_at);
    assert_eq!(got.updated_at, before.updated_at);
    assert_eq!(got.deleted_at, before.deleted_at);
    // An effective removal does move the clock.
    let mut remove_x = empty_update();
    remove_x.remove_tags = vec!["x".to_string()];
    db.update_card(&card.id, remove_x, 6).unwrap();
    let got = db.get_card(&card.id).unwrap();
    assert!(got.tags.is_empty());
    assert_eq!(got.updated_at, 6);
}

#[test]
fn tag_filter_requires_all_tags() {
    let mut db = Database::new();
    let board = db.create_board("B".to_string(), None, 1).unwrap();
    let both = db
        .create_card(&board.id, "both".to_string(), None, Status::Todo, 2)
        .unwrap();
    let only_a = db
        .create_card(&board.id, "only-a".to_string(), None, Status::Todo, 3)
        .unwrap();
    let mut u = empty_update();
    u.add_tags = vec!["a".to_string(), "b".to_string()];
    db.update_card(&both.id, u, 4).unwrap();
    let mut u = empty_update();
    u.add_tags = vec!["a".to_string()];
    db.update_card(&only_a.id, u, 5).unwrap();
    let filter = vec!["a".to_string(), "b".to_string()];
    let hits = db
        .list_cards(&board.id, None, None, &filter, false)
        .unwrap();
    assert_eq!(hits.len(), 1);
    assert_eq!(hits[0].id, both.id);
    // A single-tag filter matches both.
    let filter_a = vec!["a".to_string()];
    let hits = db
        .list_cards(&board.id, None, None, &filter_a, false)
        .unwrap();
    assert_eq!(hits.len(), 2);
}

#[test]
fn update_card_patch_fields_are_independent() {
    let mut db = Database::new();
    let board = db.create_board("B".to_string(), None, 1).unwrap();
    let card = db
        .create_card(&board.id, "before".to_string(), None, Status::Todo, 2)
        .unwrap();
    let mut u = empty_update();
    u.name = Some("after".to_string());
    u.status = Some(Status::Done);
    u.assignment = AssignPatch::SetTo("agent_someone0001".to_string());
    db.update_card(&card.id, u, 7).unwrap();
    let got = db.get_card(&card.id).unwrap();
    assert_eq!(got.name, "after");
    assert_eq!(got.status, Status::Done);
    assert_eq!(got.assigned_to.as_deref(), Some("agent_someone0001"));
    assert_eq!(got.updated_at, 7);
    assert_eq!(got.created_at, 2);
    // An explicit clear unassigns; an empty patch does not touch the clock.
    let mut clear = empty_update();
    clear.assignment = AssignPatch::Clear;
    db.update_card(&card.id, clear, 8).unwrap();
    let got = db.get_card(&card.id).unwrap();
    assert!(got.assigned_to.is_none());
    assert_eq!(got.updated_at, 8);
    db.update_card(&card.id, empty_update(), 9).unwrap();
    let got = db.get_card(&card.id).unwrap();
    assert_eq!(got.updated_at, 8);
}

#[test]
fn create_card_on_missing_or_deleted_board_fails() {
    let mut db = Database::new();
    let err = db
        .create_card("board_none000000", "c".to_string(), None, Status::Todo, 1)
        .unwrap_err();
    assert!(matches!(err, AgentBoardError::NotFound(_)));
    let board = db.create_board("B".to_string(), None, 1).unwrap();
    db.delete_board(&board.id, 2).unwrap();
    let err = db
        .create_card(&board.id, "c".to_string(), None, Status::Todo, 3)
        .unwrap_err();
    assert!(matches!(err, AgentBoardError::NotFound(_)));
}

#[test]
fn round_trip_create_then_get_card() {
    let mut db = Database::new();
    let board = db.create_board("B".to_string(), None, 1).unwrap();
    let card = db
        .create_card(
            &board.id,
            "Fix bug".to_string(),
            Some("crashy".to_string()),
            Status::Todo,
            42,
        )
        .unwrap();
    let got = db.get_card(&card.id).unwrap();
    assert_eq!(got.id, card.id);
    assert_eq!(got.board_id, board.id);
    assert_eq!(got.name, "Fix bug");
    assert_eq!(got.description.as_deref(), Some("crashy"));
    assert_eq!(got.status, Status::Todo);
    assert!(got.assigned_to.is_none());
    assert!(got.tags.is_empty());
    assert!(got.checklists.is_empty());
    assert_eq!(got.created_at, 42);
    assert_eq!(got.updated_at, 42);
    assert!(got.deleted_at.is_none());
}

#[test]
fn check_item_round_trip_touches_card_clock() {
    let mut db = Database::new();
    let board = db.create_board("B".to_string(), None, 1).unwrap();
    let card = db
        .create_card(&board.id, "c".to_string(), None, Status::Todo, 2)
        .unwrap();
    let checklist = db
        .add_checklist(
            &card.id,
            "Tasks".to_string(),
            vec!["write".to_string(), "test".to_string()],
            3,
        )
        .unwrap();
    assert!(checklist.id.starts_with("checklist_"));
    assert_eq!(checklist.items.len(), 2);
    assert!(checklist.items.iter().all(|it| !it.checked));
    assert!(checklist.items.iter().all(|it| it.id.starts_with("item_")));
    assert_eq!(db.get_card(&card.id).unwrap().updated_at, 3);
    let item_id = checklist.items[0].id.clone();
    db.check_item(&item_id, true, 10).unwrap();
    let got = db.get_card(&card.id).unwrap();
    assert!(got.checklists[0].items[0].checked);
    assert_eq!(got.updated_at, 10);
    db.check_item(&item_id, false, 11).unwrap();
    let got = db.get_card(&card.id).unwrap();
    assert!(!got.checklists[0].items[0].checked);
    assert!(!got.checklists[0].items[1].checked);
    assert_eq!(got.updated_at, 11);
    let err = db.check_item("item_absent000001", true, 12).unwrap_err();
    assert!(matches!(err, AgentBoardError::NotFound(_)));
}

#[test]
fn board_summary_counts_live_cards_only() {
    let mut db = Database::new();
    let board = db.create_board("B".to_string(), None, 1).unwrap();
    db.create_card(&board.id, "t".to_string(), None, Status::Todo, 2)
        .unwrap();
    db.create_card(&board.id, "p".to_string(), None, Status::PendingReview, 3)
        .unwrap();
    let gone = db
        .create_card(&board.id, "d".to_string(), None, Status::Done, 4)
        .unwrap();
    db.delete_card(&gone.id, 5).unwrap();
    let s = db.get_board_summary(&board.id).unwrap();
    assert_eq!(s.todo_count, 1);
    assert_eq!(s.in_progress_count, 0);
    assert_eq!(s.pending_review_count, 1);
    assert_eq!(s.done_count, 0);
    assert_eq!(s.total_cards, 2);
}

#[test]
fn comments_are_listed_in_creation_order() {
    let mut db = Database::new();
    let board = db.create_board("B".to_string(), None, 1).unwrap();
    let card = db
        .create_card(&board.id, "c".to_string(), None, Status::Todo, 2)
        .unwrap();
    let first = db
        .add_comment(&card.id, "first".to_string(), Some("me".to_string()), 3)
        .unwrap();
    let second = db.add_comment(&card.id, "second".to_string(), None, 4).unwrap();
    assert!(first.id.starts_with("comment_"));
    let listed = db.list_comments(&card.id).unwrap();
    assert_eq!(listed.len(), 2);
    assert_eq!(listed[0].id, first.id);
    assert_eq!(listed[0].text, "first");
    assert_eq!(listed[0].author.as_deref(), Some("me"));
    assert_eq!(listed[1].id, second.id);
    assert!(listed[1].author.is_none());
    let err = db.list_comments("card_absent000001").unwrap_err();
    assert!(matches!(err, AgentBoardError::NotFound(_)));
}

#[test]
fn agent_names_unique_among_active_only() {
    let mut db = Database::new();
    let a = db
        .register_agent(
            Some("runner".to_string()),
            "cmd".to_string(),
            "/tmp".to_string(),
            None,
            1,
        )
        .unwrap();
    assert!(a.id.starts_with("agent_"));
    let err = db
        .register_agent(
            Some("runner".to_string()),
            "cmd".to_string(),
            "/tmp".to_string(),
            None,
            2,
        )
        .unwrap_err();
    assert!(matches!(err, AgentBoardError::InvalidArgs(_)));
    assert_eq!(err.exit_code(), 2);
    // After deactivation the name is reusable.
    db.unregister_agent(&a.id, 3).unwrap();
    let b = db
        .register_agent(
            Some("runner".to_string()),
            "cmd".to_string(),
            "/tmp".to_string(),
            None,
            4,
        )
        .unwrap();
    assert_ne!(a.id, b.id);
    assert_eq!(db.list_agents(false).len(), 1);
    assert_eq!(db.list_agents(true).len(), 2);
}

#[test]
fn cards_by_assignee_filters_and_never_errors() {
    let mut db = Database::new();
    let board = db.create_board("B".to_string(), None, 1).unwrap();
    let card = db
        .create_card(&board.id, "c".to_string(), None, Status::Todo, 2)
        .unwrap();
    let mut u = empty_update();
    u.assignment = AssignPatch::SetTo("agent_me00000001".to_string());
    db.update_card(&card.id, u, 3).unwrap();
    let mine = db.get_cards_by_assignee("agent_me00000001", None, None);
    assert_eq!(mine.len(), 1);
    let none = db.get_cards_by_assignee("agent_other00001", None, None);
    assert!(none.is_empty());
    let narrowed = db.get_cards_by_assignee("agent_me00000001", Some(&board.id), Some(Status::Done));
    assert!(narrowed.is_empty());
}

#[test]
fn update_agent_checks_name_collisions_with_others() {
    let mut db = Database::new();
    let a = db
        .register_agent(Some("one".to_string()), "c".to_string(), "/a".to_string(), None, 1)
        .unwrap();
    let b = db
        .register_agent(Some("two".to_string()), "c".to_string(), "/b".to_string(), None, 2)
        .unwrap();
    let update = agent_board::models::AgentUpdate {
        name: Some("one".to_string()),
        command: None,
        description: None,
        working_directory: None,
    };
    let err = db.update_agent(&b.id, update, 3).unwrap_err();
    assert!(matches!(err, AgentBoardError::InvalidArgs(_)));
    // Renaming an agent to its own name is fine.
    let update = agent_board::models::AgentUpdate {
        name: Some("one".to_string()),
        command: Some("newcmd".to_string()),
        description: None,
        working_directory: None,
    };
    db.update_agent(&a.id, update, 4).unwrap();
    let got = db.get_agent(&a.id).unwrap();
    assert_eq!(got.command, "newcmd");
    assert_eq!(got.updated_at, 4);
}
