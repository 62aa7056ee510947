use agent_board::models::{AssignPatch, CardUpdate, Status};
use agent_board::render::{
    agent_row, board_detail_lines, board_row, card_detail_lines, card_row, cards_id_lines,
    comments_table_lines, hash_tags_text, join_strings, pad_right, render_kanban, repeat_str,
    split_lines, truncate, u64_to_string, usize_to_string, whoami_lines,
};
use agent_board::store::Database;

fn no_update() -> CardUpdate {
    CardUpdate {
        name: None,
        description: None,
        status: None,
        assignment: AssignPatch::NoChange,
        add_tags: Vec::new(),
        remove_tags: Vec::new(),
    }
}

#[test]
fn truncate_cuts_with_ellipsis() {
    assert_eq!(truncate("hello world", 8), "hello...");
    assert_eq!(truncate("hi", 8), "hi");
    assert_eq!(truncate("exactly8", 8), "exactly8");
    assert_eq!(truncate("exactly9!", 8), "exact...");
    assert_eq!(truncate("abc", 3), "abc");
    assert_eq!(truncate("abcd", 3), "...");
}

#[test]
fn string_helpers_render_exactly() {
    assert_eq!(pad_right("ab", 5), "ab   ");
    assert_eq!(pad_right("abcdef", 5), "abcdef");
    assert_eq!(repeat_str("─", 3), "───");
    assert_eq!(u64_to_string(0), "0");
    assert_eq!(u64_to_string(7), "7");
    assert_eq!(u64_to_string(12034), "12034");
    assert_eq!(usize_to_string(42), "42");
    assert_eq!(
        split_lines("a\nbb\n\nc"),
        vec!["a".to_string(), "bb".to_string(), "".to_string(), "c".to_string()]
    );
    assert_eq!(split_lines("plain"), vec!["plain".to_string()]);
    // A trailing newline closes the last line without opening an empty one.
    assert_eq!(split_lines("a\nb\n"), vec!["a".to_string(), "b".to_string()]);
    assert_eq!(split_lines("\n"), vec!["".to_string()]);
    assert_eq!(split_lines(""), Vec::<String>::new());
    assert_eq!(
        hash_tags_text(&vec!["a".to_string(), "b".to_string()]),
        "#a #b"
    );
    assert_eq!(
        join_strings(&vec!["x".to_string(), "y".to_string()], ", "),
        "x, y"
    );
    assert_eq!(join_strings(&Vec::new(), ", "), "");
}

#[test]
fn rows_carry_markers_and_minute_precision_times() {
    let mut db = Database::new();
    let board = db
        .create_board("Board".to_string(), Some("desc".to_string()), 0)
        .unwrap();
    let card = db
        .create_card(&board.id, "Card name".to_string(), None, Status::Todo, 0)
        .unwrap();
    let c = db.get_card(&card.id).unwrap();
    let row = card_row(&c);
    assert_eq!(row.id, card.id);
    assert_eq!(row.name, "Card name");
    assert_eq!(row.status, "todo");
    assert_eq!(row.assigned_to, "-");
    assert_eq!(row.board_id, board.id);
    assert_eq!(row.created_at, "1970-01-01 00:00");
    db.delete_card(&card.id, 0).unwrap();
    let deleted = db.get_card_with_deleted(&card.id).unwrap();
    let row = card_row(&deleted);
    assert_eq!(row.name, "Card name [DELETED]");
    let b = db.get_board(&board.id).unwrap();
    let brow = board_row(&b);
    assert_eq!(brow.name, "Board");
    assert_eq!(brow.description, "desc");
    assert_eq!(brow.created_at, "1970-01-01 00:00");
    let agent = db
        .register_agent(
            Some("runner".to_string()),
            "cmd".to_string(),
            "/somewhere".to_string(),
            None,
            0,
        )
        .unwrap();
    let a = db.get_agent(&agent.id).unwrap();
    let arow = agent_row(&a);
    assert_eq!(arow.name, "runner");
    assert_eq!(arow.working_directory, "/somewhere");
    let ids = cards_id_lines(&vec![deleted]);
    assert_eq!(ids, vec![card.id.clone()]);
}

#[test]
fn board_detail_lines_spell_out_the_summary() {
    let mut db = Database::new();
    let board = db
        .create_board("Sprint".to_string(), Some("week".to_string()), 0)
        .unwrap();
    db.create_card(&board.id, "c".to_string(), None, Status::Todo, 1)
        .unwrap();
    let b = db.get_board(&board.id).unwrap();
    let s = db.get_board_summary(&board.id).unwrap();
    let lines = board_detail_lines(&b, &s);
    assert_eq!(
        lines,
        vec![
            format!("Board: {}", board.id),
            "Name: Sprint".to_string(),
            "Description: week".to_string(),
            "".to_string(),
            "Summary:".to_string(),
            "  Todo: 1".to_string(),
            "  In Progress: 0".to_string(),
            "  Pending Review: 0".to_string(),
            "  Done: 0".to_string(),
            "  Total: 1".to_string(),
        ]
    );
}

#[test]
fn card_detail_lines_show_everything() {
    let mut db = Database::new();
    let board = db.create_board("B".to_string(), None, 0).unwrap();
    let card = db
        .create_card(
            &board.id,
            "Fix".to_string(),
            Some("a bug".to_string()),
            Status::InProgress,
            0,
        )
        .unwrap();
    let mut u = no_update();
    u.add_tags = vec!["red".to_string(), "blue".to_string()];
    u.assignment = AssignPatch::SetTo("agent_me00000001".to_string());
    db.update_card(&card.id, u, 0).unwrap();
    let checklist = db
        .add_checklist(&card.id, "Steps".to_string(), vec!["one".to_string()], 0)
        .unwrap();
    db.check_item(&checklist.items[0].id, true, 0).unwrap();
    // The trailing newline closes the last comment line; no blank line follows.
    db.add_comment(&card.id, "line1\nline2\n".to_string(), Some("me".to_string()), 0)
        .unwrap();
    let c = db.get_card(&card.id).unwrap();
    let comments = db.list_comments(&card.id).unwrap();
    let lines = card_detail_lines(&c, &comments);
    assert_eq!(lines[0], format!("Card: {}", card.id));
    assert_eq!(lines[1], "Name: Fix");
    assert_eq!(lines[2], format!("Board: {}", board.id));
    assert_eq!(lines[3], "Status: in_progress");
    assert_eq!(lines[4], "Assigned To: agent_me00000001");
    assert_eq!(lines[5], "Description: a bug");
    assert_eq!(lines[6], "Tags: red, blue");
    assert_eq!(lines[7], "");
    assert_eq!(lines[8], format!("Checklist: Steps ({})", checklist.id));
    assert_eq!(
        lines[9],
        format!("  [x] one ({})", checklist.items[0].id)
    );
    assert_eq!(lines[10], "");
    assert_eq!(lines[11], "Comments:");
    assert_eq!(
        lines[12],
        format!("  [me] 1970-01-01 00:00 ({})", comments[0].id)
    );
    assert_eq!(lines[13], "    line1");
    assert_eq!(lines[14], "    line2");
    assert_eq!(lines.len(), 15);
}

#[test]
fn comment_listing_prints_blocks() {
    let mut db = Database::new();
    let board = db.create_board("B".to_string(), None, 0).unwrap();
    let card = db
        .create_card(&board.id, "c".to_string(), None, Status::Todo, 0)
        .unwrap();
    let m = db.add_comment(&card.id, "hello".to_string(), None, 0).unwrap();
    let comments = db.list_comments(&card.id).unwrap();
    let lines = comments_table_lines(&comments);
    assert_eq!(lines.len(), 5);
    assert_eq!(lines[0], "─".repeat(61));
    assert_eq!(lines[1], format!("[anonymous] 1970-01-01 00:00 ({})", m.id));
    assert_eq!(lines[2], "");
    assert_eq!(lines[3], "hello");
    assert_eq!(lines[4], "");
}

#[test]
fn whoami_warns_on_directory_mismatch() {
    let mut db = Database::new();
    let agent = db
        .register_agent(Some("me".to_string()), "cmd".to_string(), "/a".to_string(), None, 0)
        .unwrap();
    let a = db.get_agent(&agent.id).unwrap();
    let (lines, warning) = whoami_lines(&a, "/a");
    assert_eq!(lines[0], format!("Agent: {}", agent.id));
    assert!(warning.is_none());
    let (_, warning) = whoami_lines(&a, "/b");
    assert_eq!(
        warning.unwrap(),
        "WARNING: Current directory (/b) does not match registered working directory"
    );
}

#[test]
fn kanban_of_empty_board_renders_placeholder() {
    let mut db = Database::new();
    let board = db.create_board("Empty".to_string(), None, 0).unwrap();
    let b = db.get_board(&board.id).unwrap();
    let lines = render_kanban(&b, &Vec::new(), &Vec::new());
    assert_eq!(lines.len(), 10);
    assert_eq!(lines[0], "");
    assert_eq!(lines[1], format!("┌{}┐", "─".repeat(115)));
    assert_eq!(
        lines[2],
        format!("│ {:<113} │", format!("Empty - {}", board.id))
    );
    assert_eq!(
        lines[4],
        format!(
            "│ {:<27}│ {:<27}│ {:<27}│ {:<27}│",
            "TODO", "IN PROGRESS", "PENDING REVIEW", "DONE"
        )
    );
    assert_eq!(
        lines[5],
        format!(
            "│ {:<27}│ {:<27}│ {:<27}│ {:<27}│",
            "(0 cards)", "(0 cards)", "(0 cards)", "(0 cards)"
        )
    );
    assert_eq!(
        lines[7],
        format!(
            "│ {:<27}│ {:<27}│ {:<27}│ {:<27}│",
            "(empty)", "(empty)", "(empty)", "(empty)"
        )
    );
    assert_eq!(lines[9], "");
}

#[test]
fn kanban_with_one_card_per_status_has_four_columns_of_height_one() {
    let mut db = Database::new();
    let board = db.create_board("Full".to_string(), None, 0).unwrap();
    for (name, status) in [
        ("t", Status::Todo),
        ("i", Status::InProgress),
        ("p", Status::PendingReview),
        ("d", Status::Done),
    ] {
        db.create_card(&board.id, name.to_string(), None, status, 0)
            .unwrap();
    }
    let b = db.get_board(&board.id).unwrap();
    let cards = db
        .list_cards(&board.id, None, None, &Vec::new(), false)
        .unwrap();
    let counts = vec![0u64; cards.len()];
    let lines = render_kanban(&b, &cards, &counts);
    // One 9-line card row plus the 9 fixed lines.
    assert_eq!(lines.len(), 18);
    assert_eq!(
        lines[5],
        format!(
            "│ {:<27}│ {:<27}│ {:<27}│ {:<27}│",
            "(1 cards)", "(1 cards)", "(1 cards)", "(1 cards)"
        )
    );
    // Every body line spans all four columns at a fixed width.
    for line in &lines[1..17] {
        assert_eq!(line.chars().count(), 117, "line: {line}");
    }
    // The first name line shows each card in its own column.
    let name_line = &lines[8];
    assert_eq!(
        name_line,
        &format!(
            "│ │ {:<22} │ │ │ {:<22} │ │ │ {:<22} │ │ │ {:<22} │ │",
            "t", "i", "p", "d"
        )
    );
    // The comments line counts zero for each card.
    assert_eq!(
        lines[14],
        format!(
            "│ │ {:<22} │ │ │ {:<22} │ │ │ {:<22} │ │ │ {:<22} │ │",
            "[0 comments]", "[0 comments]", "[0 comments]", "[0 comments]"
        )
    );
}

#[test]
fn truncate_counts_characters_not_bytes() {
    assert_eq!(truncate("ααααααααα", 6), "ααα...");
    assert_eq!(truncate("ααα", 6), "ααα");
}

#[test]
fn kanban_wraps_long_names_and_tags() {
    let mut db = Database::new();
    let board = db.create_board("W".to_string(), None, 0).unwrap();
    let long_name = "a-very-long-card-name-that-wraps-and-then-overflows";
    let card = db
        .create_card(&board.id, long_name.to_string(), None, Status::Todo, 0)
        .unwrap();
    let mut u = no_update();
    u.add_tags = vec!["frontend".to_string(), "backend".to_string(), "infra".to_string()];
    db.update_card(&card.id, u, 0).unwrap();
    let b = db.get_board(&board.id).unwrap();
    let cards = db
        .list_cards(&board.id, None, None, &Vec::new(), false)
        .unwrap();
    let counts = vec![2u64];
    let lines = render_kanban(&b, &cards, &counts);
    let blank = format!("{}│", " ".repeat(28));
    // Name wraps: first 22 characters, then the truncated rest.
    let name1: String = long_name.chars().take(22).collect();
    let rest: String = long_name.chars().skip(22).collect();
    let name2 = truncate(&rest, 22);
    assert_eq!(
        lines[8],
        format!("│ │ {:<22} │ │{}{}{}", name1, blank, blank, blank)
    );
    assert_eq!(
        lines[9],
        format!("│ │ {:<22} │ │{}{}{}", name2, blank, blank, blank)
    );
    // The card ID truncates to the inner width.
    assert_eq!(
        lines[10],
        format!("│ │ {:<22} │ │{}{}{}", truncate(&card.id, 22), blank, blank, blank)
    );
    // Tags wrap the same way.
    let tags_text = "#frontend #backend #infra";
    let tags1: String = tags_text.chars().take(22).collect();
    let tags_rest: String = tags_text.chars().skip(22).collect();
    let tags2 = truncate(&tags_rest, 22);
    assert_eq!(
        lines[12],
        format!("│ │ {:<22} │ │{}{}{}", tags1, blank, blank, blank)
    );
    assert_eq!(
        lines[13],
        format!("│ │ {:<22} │ │{}{}{}", tags2, blank, blank, blank)
    );
    // Two comments render with the plural form.
    assert_eq!(
        lines[14],
        format!("│ │ {:<22} │ │{}{}{}", "[2 comments]", blank, blank, blank)
    );
}

#[test]
fn kanban_pads_columns_to_the_tallest() {
    let mut db = Database::new();
    let board = db.create_board("Tall".to_string(), None, 0).unwrap();
    db.create_card(&board.id, "a".to_string(), None, Status::Todo, 0)
        .unwrap();
    db.create_card(&board.id, "b".to_string(), None, Status::Todo, 0)
        .unwrap();
    db.create_card(&board.id, "c".to_string(), None, Status::Done, 0)
        .unwrap();
    let b = db.get_board(&board.id).unwrap();
    let cards = db
        .list_cards(&board.id, None, None, &Vec::new(), false)
        .unwrap();
    let counts = vec![0u64; cards.len()];
    let lines = render_kanban(&b, &cards, &counts);
    // Two card rows: 9 fixed lines + 18.
    assert_eq!(lines.len(), 27);
    // In the second row, only the TODO column still has a card box.
    let second_top = &lines[16];
    let blank = format!("{}│", " ".repeat(28));
    assert_eq!(
        second_top,
        &format!("│ ┌{}┐ │{}{}{}", "─".repeat(24), blank, blank, blank)
    );
}
