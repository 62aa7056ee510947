//! The renderer: pure projection of query results into human-readable
//! text. Nothing here mutates; every function returns strings whose
//! contents are pinned character by character.
//!
//! Lengths are counted in characters, so multi-byte text truncates and
//! pads without tearing.

use vstd::prelude::*;

verus! {

use vstd::string::StrSliceExecFns;
use vstd::string::StringExecFns;
use crate::models::{
    Agent, Board, BoardSummary, BoardV, Card, CardV, Checklist, ChecklistItem, ChecklistItemV,
    ChecklistV, Comment, Status,
};

/// A string cut to `max` characters, the last three of a cut replaced by
/// an ellipsis.
pub open spec fn spec_truncate(s: Seq<char>, max: int) -> Seq<char> {
    if s.len() <= max {
        s
    } else {
        s.subrange(0, max - 3) + "..."@
    }
}

/// Truncates a string to at most `max_len` characters, appending `...`
/// when it was longer.
pub fn truncate(s: &str, max_len: usize) -> (r: String)
    requires
        max_len >= 3,
    ensures
        r@ == spec_truncate(s@, max_len as int),
{
    let n = s.unicode_len();
    if n <= max_len {
        s.to_owned()
    } else {
        let mut r = s.substring_char(0, max_len - 3).to_owned();
        r.append("...");
        r
    }
}

/// `n` spaces.
pub open spec fn spec_spaces(n: int) -> Seq<char> {
    Seq::new(n as nat, |i: int| ' ')
}

/// A string padded with spaces on the right up to `width` characters; a
/// longer string stays as it is.
pub open spec fn spec_pad(s: Seq<char>, width: int) -> Seq<char> {
    if s.len() >= width {
        s
    } else {
        s + spec_spaces(width - s.len())
    }
}

/// Pads a string with spaces on the right up to `width` characters.
pub fn pad_right(s: &str, width: usize) -> (r: String)
    ensures
        r@ == spec_pad(s@, width as int),
{
    let n = s.unicode_len();
    let mut r = s.to_owned();
    if n >= width {
        return r;
    }
    let mut i = n;
    while i < width
        invariant
            n == s@.len(),
            n <= i <= width,
            r@ == s@ + spec_spaces(i - n),
        decreases width - i,
    {
        r.append(" ");
        proof {
            reveal_strlit(" ");
            assert(r@ =~= s@ + spec_spaces(i + 1 - n));
        }
        i = i + 1;
    }
    r
}

/// `piece` written `n` times in a row.
pub open spec fn spec_repeat(piece: Seq<char>, n: int) -> Seq<char>
    decreases n,
{
    if n <= 0 {
        Seq::empty()
    } else {
        spec_repeat(piece, n - 1) + piece
    }
}

/// Repeats a string piece `n` times.
pub fn repeat_str(piece: &str, n: usize) -> (r: String)
    ensures
        r@ == spec_repeat(piece@, n as int),
{
    let mut r = String::new();
    for i in 0..n
        invariant
            r@ == spec_repeat(piece@, i as int),
    {
        r.append(piece);
    }
    r
}

/// The decimal digit character of a value below ten.
pub open spec fn spec_digit(d: int) -> char {
    if d == 0 {
        '0'
    } else if d == 1 {
        '1'
    } else if d == 2 {
        '2'
    } else if d == 3 {
        '3'
    } else if d == 4 {
        '4'
    } else if d == 5 {
        '5'
    } else if d == 6 {
        '6'
    } else if d == 7 {
        '7'
    } else if d == 8 {
        '8'
    } else {
        '9'
    }
}

/// The decimal writing of a number, most significant digit first.
pub open spec fn spec_dec(n: int) -> Seq<char>
    decreases n,
{
    if n < 10 {
        seq![spec_digit(n)]
    } else {
        spec_dec(n / 10).push(spec_digit(n % 10))
    }
}

/// One decimal digit as text.
fn digit_str(d: u64) -> (s: &'static str)
    requires
        d < 10,
    ensures
        s@ == seq![spec_digit(d as int)],
{
    proof {
        reveal_strlit("0");
        reveal_strlit("1");
        reveal_strlit("2");
        reveal_strlit("3");
        reveal_strlit("4");
        reveal_strlit("5");
        reveal_strlit("6");
        reveal_strlit("7");
        reveal_strlit("8");
        reveal_strlit("9");
    }
    let s = match d {
        0 => "0",
        1 => "1",
        2 => "2",
        3 => "3",
        4 => "4",
        5 => "5",
        6 => "6",
        7 => "7",
        8 => "8",
        _ => "9",
    };
    proof {
        assert(s@ =~= seq![spec_digit(d as int)]);
    }
    s
}

/// Writes a number in decimal.
pub fn u64_to_string(n: u64) -> (r: String)
    ensures
        r@ == spec_dec(n as int),
    decreases n,
{
    if n < 10 {
        digit_str(n).to_owned()
    } else {
        let mut r = u64_to_string(n / 10);
        r.append(digit_str(n % 10));
        proof {
            assert(r@ =~= spec_dec((n / 10) as int).push(spec_digit((n % 10) as int)));
        }
        r
    }
}

/// Writes a count in decimal.
pub fn usize_to_string(n: usize) -> (r: String)
    ensures
        r@ == spec_dec(n as int),
{
    u64_to_string(n as u64)
}

/// The text split at every newline character; the text after the last
/// newline is the last segment, even when empty.
pub open spec fn spec_lines_raw(s: Seq<char>) -> Seq<Seq<char>>
    decreases s.len(),
{
    if !s.contains('\n') {
        seq![s]
    } else {
        let i = first_newline(s, 0);
        if 0 <= i < s.len() {
            seq![s.subrange(0, i)] + spec_lines_raw(s.subrange(i + 1, s.len() as int))
        } else {
            seq![s]
        }
    }
}

/// The lines of a text: split at newlines, a trailing newline closing the
/// last line without opening an empty one; empty text has no lines.
pub open spec fn spec_lines(s: Seq<char>) -> Seq<Seq<char>> {
    if s.len() == 0 {
        Seq::empty()
    } else if s.last() == '\n' {
        spec_lines_raw(s.drop_last())
    } else {
        spec_lines_raw(s)
    }
}

/// Index of the first newline at or after position `k`.
pub open spec fn first_newline(s: Seq<char>, k: int) -> int
    decreases s.len() - k,
{
    if k < 0 || k >= s.len() {
        s.len() as int
    } else if s[k] == '\n' {
        k
    } else {
        first_newline(s, k + 1)
    }
}

/// Splits a text into its lines at newline characters; a trailing
/// newline closes the last line without opening an empty one.
pub fn split_lines(s: &str) -> (r: Vec<String>)
    ensures
        r.deep_view() == spec_lines(s@),
{
    let full = s.unicode_len();
    if full == 0 {
        let out: Vec<String> = Vec::new();
        proof {
            assert(out.deep_view() =~= spec_lines(s@));
        }
        return out;
    }
    let end = if s.get_char(full - 1) == '\n' {
        full - 1
    } else {
        full
    };
    let trimmed = s.substring_char(0, end);
    proof {
        if s@.last() == '\n' {
            assert(trimmed@ =~= s@.drop_last());
        } else {
            assert(trimmed@ =~= s@);
        }
    }
    split_lines_raw(trimmed)
}

/// Splits a text at every newline; the text after the last newline is the
/// last line, even when empty.
fn split_lines_raw(s: &str) -> (r: Vec<String>)
    ensures
        r.deep_view() == spec_lines_raw(s@),
{
    let n = s.unicode_len();
    let mut out: Vec<String> = Vec::new();
    let mut start: usize = 0;
    let mut i: usize = 0;
    proof {
        assert(s@.subrange(0, s@.len() as int) =~= s@);
        assert(out.deep_view() + spec_lines_raw(s@) =~= spec_lines_raw(s@));
    }
    while i < n
        invariant
            n == s@.len(),
            0 <= start <= i <= n,
            forall|j: int| start <= j < i ==> s@[j] != '\n',
            spec_lines_raw(s@) =~= out.deep_view() + spec_lines_raw(
                s@.subrange(start as int, s@.len() as int),
            ),
        decreases n - i,
    {
        if s.get_char(i) == '\n' {
            let ghost tail = s@.subrange(start as int, s@.len() as int);
            let line = s.substring_char(start, i).to_owned();
            let ghost pre = out.deep_view();
            out.push(line);
            proof {
                assert(tail[i - start] == '\n');
                assert(tail.contains('\n'));
                lemma_first_newline_found(tail, i - start);
                assert(first_newline(tail, 0) == i - start);
                assert(tail.subrange(0, i - start) =~= s@.subrange(start as int, i as int));
                assert(tail.subrange(i - start + 1, tail.len() as int) =~= s@.subrange(
                    i + 1,
                    s@.len() as int,
                ));
                assert(out.deep_view() =~= pre.push(s@.subrange(start as int, i as int)));
                assert(spec_lines_raw(tail) == seq![s@.subrange(start as int, i as int)] + spec_lines_raw(
                    s@.subrange(i + 1, s@.len() as int),
                ));
                assert(spec_lines_raw(s@) =~= out.deep_view() + spec_lines_raw(
                    s@.subrange(i + 1, s@.len() as int),
                ));
            }
            start = i + 1;
        }
        i = i + 1;
    }
    let ghost tail = s@.subrange(start as int, s@.len() as int);
    let line = s.substring_char(start, n).to_owned();
    let ghost pre = out.deep_view();
    out.push(line);
    proof {
        assert(forall|j: int| 0 <= j < tail.len() ==> tail[j] != '\n');
        assert(!tail.contains('\n'));
        assert(spec_lines_raw(tail) == seq![tail]);
        assert(out.deep_view() =~= pre.push(tail));
        assert(out.deep_view() =~= spec_lines_raw(s@));
    }
    out
}

/// If position `k` holds a newline and nothing before it does, it is the
/// first newline.
proof fn lemma_first_newline_found(s: Seq<char>, k: int)
    requires
        0 <= k < s.len(),
        s[k] == '\n',
        forall|j: int| 0 <= j < k ==> s[j] != '\n',
    ensures
        first_newline(s, 0) == k,
{
    lemma_first_newline_from(s, 0, k);
}

/// Helper induction for `lemma_first_newline_found`.
proof fn lemma_first_newline_from(s: Seq<char>, j: int, k: int)
    requires
        0 <= j <= k < s.len(),
        s[k] == '\n',
        forall|x: int| j <= x < k ==> s[x] != '\n',
    ensures
        first_newline(s, j) == k,
    decreases k - j,
{
    if j < k {
        lemma_first_newline_from(s, j + 1, k);
    }
}

/// The tags written as `#a #b #c`, the order kept.
pub open spec fn spec_hash_tags(tags: Seq<Seq<char>>, k: int) -> Seq<char>
    decreases k,
{
    if k <= 0 || k > tags.len() {
        Seq::empty()
    } else if k == 1 {
        "#"@ + tags[0]
    } else {
        spec_hash_tags(tags, k - 1) + " #"@ + tags[k - 1]
    }
}

/// Writes the tags as `#a #b #c`.
pub fn hash_tags_text(tags: &Vec<String>) -> (r: String)
    ensures
        r@ == spec_hash_tags(tags.deep_view(), tags.deep_view().len() as int),
{
    let mut r = String::new();
    let n = tags.len();
    for k in 0..n
        invariant
            n == tags.len(),
            r@ == spec_hash_tags(tags.deep_view(), k as int),
    {
        if k == 0 {
            r.append("#");
        } else {
            r.append(" #");
        }
        r.append(tags[k].as_str());
        proof {
            assert(tags.deep_view()[k as int] == tags@[k as int]@);
            if k == 0 {
                assert(r@ =~= "#"@ + tags.deep_view()[0]);
            } else {
                assert(r@ =~= spec_hash_tags(tags.deep_view(), k as int) + " #"@
                    + tags.deep_view()[k as int]);
            }
        }
    }
    r
}

/// A label directly followed by a value.
pub fn label_line(label: &str, value: &str) -> (r: String)
    ensures
        r@ == label@ + value@,
{
    let mut r = label.to_owned();
    r.append(value);
    r
}

/// The assignee or author text, `-` when absent.
pub open spec fn or_dash(o: Option<Seq<char>>) -> Seq<char> {
    match o {
        Some(a) => a,
        None => "-"@,
    }
}

/// The human marker appended to the name of a soft-deleted record.
pub open spec fn deleted_marker(deleted_at: Option<int>) -> Seq<char> {
    match deleted_at {
        Some(_) => " [DELETED]"@,
        None => Seq::empty(),
    }
}

/// The human marker appended to the name of a deactivated agent.
pub open spec fn inactive_marker(deactivated_at: Option<int>) -> Seq<char> {
    match deactivated_at {
        Some(_) => " [INACTIVE]"@,
        None => Seq::empty(),
    }
}

/// The cells of one card in the tabular view.
pub struct CardRow {
    pub id: String,
    pub name: String,
    pub status: String,
    pub assigned_to: String,
    pub board_id: String,
    pub created_at: String,
}

/// What each cell of a card row holds.
pub open spec fn is_card_row(r: CardRow, c: Card) -> bool {
    &&& r.id@ == c@.id
    &&& r.name@ == spec_truncate(c@.name, 35) + deleted_marker(c@.deleted_at)
    &&& r.status@ == c.status.spec_label()
    &&& r.assigned_to@ == or_dash(c@.assigned_to)
    &&& r.board_id@ == c@.board_id
    &&& r.created_at@ == crate::clock::minute_text_of(c.created_at)
}

/// Builds the tabular cells of one card: the name truncated to 35
/// characters plus the deletion marker, the assignee or `-`, and the
/// creation time at minute precision.
pub fn card_row(c: &Card) -> (r: CardRow)
    ensures
        is_card_row(r, *c),
{
    let mut name = truncate(c.name.as_str(), 35);
    if c.deleted_at.is_some() {
        name.append(" [DELETED]");
    }
    let assigned = match &c.assigned_to {
        Some(a) => a.clone(),
        None => String::from_str("-"),
    };
    let r = CardRow {
        id: c.id.clone(),
        name,
        status: c.status.label().to_owned(),
        assigned_to: assigned,
        board_id: c.board_id.clone(),
        created_at: crate::clock::minute_display(c.created_at),
    };
    proof {
        assert(r.name@ =~= spec_truncate(c@.name, 35) + deleted_marker(c@.deleted_at));
    }
    r
}

/// The rows of the card table, one per card in order.
pub fn cards_table_rows(cards: &Vec<Card>) -> (r: Vec<CardRow>)
    ensures
        r@.len() == cards@.len(),
        forall|i: int| 0 <= i < cards@.len() ==> is_card_row(#[trigger] r@[i], cards@[i]),
{
    let mut out: Vec<CardRow> = Vec::new();
    let n = cards.len();
    for i in 0..n
        invariant
            n == cards.len(),
            out@.len() == i,
            forall|j: int| 0 <= j < i ==> is_card_row(#[trigger] out@[j], cards@[j]),
    {
        out.push(card_row(&cards[i]));
    }
    out
}

/// The cells of one board in the tabular view.
pub struct BoardRow {
    pub id: String,
    pub name: String,
    pub description: String,
    pub created_at: String,
}

/// What each cell of a board row holds.
pub open spec fn is_board_row(r: BoardRow, b: Board) -> bool {
    &&& r.id@ == b@.id
    &&& r.name@ == b@.name + deleted_marker(b@.deleted_at)
    &&& r.description@ == or_dash(b@.description)
    &&& r.created_at@ == crate::clock::minute_text_of(b.created_at)
}

/// Builds the tabular cells of one board.
pub fn board_row(b: &Board) -> (r: BoardRow)
    ensures
        is_board_row(r, *b),
{
    let mut name = b.name.clone();
    if b.deleted_at.is_some() {
        name.append(" [DELETED]");
    }
    let description = match &b.description {
        Some(d) => d.clone(),
        None => String::from_str("-"),
    };
    let r = BoardRow {
        id: b.id.clone(),
        name,
        description,
        created_at: crate::clock::minute_display(b.created_at),
    };
    proof {
        assert(r.name@ =~= b@.name + deleted_marker(b@.deleted_at));
    }
    r
}

/// The rows of the board table, one per board in order.
pub fn boards_table_rows(boards: &Vec<Board>) -> (r: Vec<BoardRow>)
    ensures
        r@.len() == boards@.len(),
        forall|i: int| 0 <= i < boards@.len() ==> is_board_row(#[trigger] r@[i], boards@[i]),
{
    let mut out: Vec<BoardRow> = Vec::new();
    let n = boards.len();
    for i in 0..n
        invariant
            n == boards.len(),
            out@.len() == i,
            forall|j: int| 0 <= j < i ==> is_board_row(#[trigger] out@[j], boards@[j]),
    {
        out.push(board_row(&boards[i]));
    }
    out
}

/// The cells of one agent in the tabular view.
pub struct AgentRow {
    pub id: String,
    pub name: String,
    pub command: String,
    pub working_directory: String,
    pub created_at: String,
}

/// What each cell of an agent row holds.
pub open spec fn is_agent_row(r: AgentRow, a: Agent) -> bool {
    &&& r.id@ == a@.id
    &&& r.name@ == a@.name + inactive_marker(a@.deactivated_at)
    &&& r.command@ == a@.command
    &&& r.working_directory@ == spec_truncate(a@.working_directory, 40)
    &&& r.created_at@ == crate::clock::minute_text_of(a.created_at)
}

/// Builds the tabular cells of one agent, the working directory truncated
/// to 40 characters.
pub fn agent_row(a: &Agent) -> (r: AgentRow)
    ensures
        is_agent_row(r, *a),
{
    let mut name = a.name.clone();
    if a.deactivated_at.is_some() {
        name.append(" [INACTIVE]");
    }
    let r = AgentRow {
        id: a.id.clone(),
        name,
        command: a.command.clone(),
        working_directory: truncate(a.working_directory.as_str(), 40),
        created_at: crate::clock::minute_display(a.created_at),
    };
    proof {
        assert(r.name@ =~= a@.name + inactive_marker(a@.deactivated_at));
    }
    r
}

/// The rows of the agent table, one per agent in order.
pub fn agents_table_rows(agents: &Vec<Agent>) -> (r: Vec<AgentRow>)
    ensures
        r@.len() == agents@.len(),
        forall|i: int| 0 <= i < agents@.len() ==> is_agent_row(#[trigger] r@[i], agents@[i]),
{
    let mut out: Vec<AgentRow> = Vec::new();
    let n = agents.len();
    for i in 0..n
        invariant
            n == agents.len(),
            out@.len() == i,
            forall|j: int| 0 <= j < i ==> is_agent_row(#[trigger] out@[j], agents@[j]),
    {
        out.push(agent_row(&agents[i]));
    }
    out
}

/// The bare-ID view of a board list: one ID per line.
pub fn boards_id_lines(boards: &Vec<Board>) -> (r: Vec<String>)
    ensures
        r@.len() == boards@.len(),
        forall|i: int| 0 <= i < boards@.len() ==> (#[trigger] r@[i])@ == boards@[i]@.id,
{
    let mut out: Vec<String> = Vec::new();
    let n = boards.len();
    for i in 0..n
        invariant
            n == boards.len(),
            out@.len() == i,
            forall|j: int| 0 <= j < i ==> (#[trigger] out@[j])@ == boards@[j]@.id,
    {
        out.push(boards[i].id.clone());
    }
    out
}

/// The bare-ID view of a card list: one ID per line.
pub fn cards_id_lines(cards: &Vec<Card>) -> (r: Vec<String>)
    ensures
        r@.len() == cards@.len(),
        forall|i: int| 0 <= i < cards@.len() ==> (#[trigger] r@[i])@ == cards@[i]@.id,
{
    let mut out: Vec<String> = Vec::new();
    let n = cards.len();
    for i in 0..n
        invariant
            n == cards.len(),
            out@.len() == i,
            forall|j: int| 0 <= j < i ==> (#[trigger] out@[j])@ == cards@[j]@.id,
    {
        out.push(cards[i].id.clone());
    }
    out
}

/// The bare-ID view of an agent list: one ID per line.
pub fn agents_id_lines(agents: &Vec<Agent>) -> (r: Vec<String>)
    ensures
        r@.len() == agents@.len(),
        forall|i: int| 0 <= i < agents@.len() ==> (#[trigger] r@[i])@ == agents@[i]@.id,
{
    let mut out: Vec<String> = Vec::new();
    let n = agents.len();
    for i in 0..n
        invariant
            n == agents.len(),
            out@.len() == i,
            forall|j: int| 0 <= j < i ==> (#[trigger] out@[j])@ == agents@[j]@.id,
    {
        out.push(agents[i].id.clone());
    }
    out
}

/// The bare-ID view of a comment list: one ID per line.
pub fn comments_id_lines(comments: &Vec<Comment>) -> (r: Vec<String>)
    ensures
        r@.len() == comments@.len(),
        forall|i: int| 0 <= i < comments@.len() ==> (#[trigger] r@[i])@ == comments@[i]@.id,
{
    let mut out: Vec<String> = Vec::new();
    let n = comments.len();
    for i in 0..n
        invariant
            n == comments.len(),
            out@.len() == i,
            forall|j: int| 0 <= j < i ==> (#[trigger] out@[j])@ == comments@[j]@.id,
    {
        out.push(comments[i].id.clone());
    }
    out
}

/// The board detail view: identity lines, then the summary counts.
pub open spec fn board_detail_spec(b: Board, s: BoardSummary) -> Seq<Seq<char>> {
    seq!["Board: "@ + b@.id, "Name: "@ + b@.name] + (match b@.description {
        Some(d) => seq!["Description: "@ + d],
        None => Seq::<Seq<char>>::empty(),
    }) + seq![
        Seq::<char>::empty(),
        "Summary:"@,
        "  Todo: "@ + spec_dec(s.todo_count as int),
        "  In Progress: "@ + spec_dec(s.in_progress_count as int),
        "  Pending Review: "@ + spec_dec(s.pending_review_count as int),
        "  Done: "@ + spec_dec(s.done_count as int),
        "  Total: "@ + spec_dec(s.total_cards as int),
    ]
}

/// Renders the board detail view.
pub fn board_detail_lines(b: &Board, s: &BoardSummary) -> (r: Vec<String>)
    ensures
        r.deep_view() == board_detail_spec(*b, *s),
{
    let mut out: Vec<String> = Vec::new();
    out.push(label_line("Board: ", b.id.as_str()));
    out.push(label_line("Name: ", b.name.as_str()));
    match &b.description {
        Some(d) => {
            out.push(label_line("Description: ", d.as_str()));
        },
        None => {},
    }
    out.push(String::new());
    out.push(String::from_str("Summary:"));
    out.push(label_line("  Todo: ", usize_to_string(s.todo_count).as_str()));
    out.push(label_line("  In Progress: ", usize_to_string(s.in_progress_count).as_str()));
    out.push(label_line("  Pending Review: ", usize_to_string(s.pending_review_count).as_str()));
    out.push(label_line("  Done: ", usize_to_string(s.done_count).as_str()));
    out.push(label_line("  Total: ", usize_to_string(s.total_cards).as_str()));
    proof {
        assert(out.deep_view() =~= board_detail_spec(*b, *s));
    }
    out
}

/// The agent detail view.
pub open spec fn agent_detail_spec(a: Agent) -> Seq<Seq<char>> {
    seq![
        "Agent: "@ + a@.id,
        "Name: "@ + a@.name,
        "Command: "@ + a@.command,
        "Working Directory: "@ + a@.working_directory,
    ] + (match a@.description {
        Some(d) => seq!["Description: "@ + d],
        None => Seq::<Seq<char>>::empty(),
    }) + seq!["Created: "@ + crate::clock::minute_text_of(a.created_at)] + (match a.deactivated_at {
        Some(t) => seq!["Deactivated: "@ + crate::clock::minute_text_of(t)],
        None => Seq::<Seq<char>>::empty(),
    })
}

/// Renders the agent detail view.
pub fn agent_detail_lines(a: &Agent) -> (r: Vec<String>)
    ensures
        r.deep_view() == agent_detail_spec(*a),
{
    let mut out: Vec<String> = Vec::new();
    out.push(label_line("Agent: ", a.id.as_str()));
    out.push(label_line("Name: ", a.name.as_str()));
    out.push(label_line("Command: ", a.command.as_str()));
    out.push(label_line("Working Directory: ", a.working_directory.as_str()));
    match &a.description {
        Some(d) => {
            out.push(label_line("Description: ", d.as_str()));
        },
        None => {},
    }
    out.push(label_line("Created: ", crate::clock::minute_display(a.created_at).as_str()));
    match a.deactivated_at {
        Some(t) => {
            out.push(label_line("Deactivated: ", crate::clock::minute_display(t).as_str()));
        },
        None => {},
    }
    proof {
        assert(out.deep_view() =~= agent_detail_spec(*a));
    }
    out
}

/// The identity check of the whoami view: the detail lines, and a warning
/// exactly when the current directory differs from the registered one.
pub fn whoami_lines(a: &Agent, current_dir: &str) -> (r: (Vec<String>, Option<String>))
    ensures
        r.0.deep_view() == seq![
            "Agent: "@ + a@.id,
            "Name: "@ + a@.name,
            "Command: "@ + a@.command,
            "Working Directory: "@ + a@.working_directory,
        ] + (match a@.description {
            Some(d) => seq!["Description: "@ + d],
            None => Seq::<Seq<char>>::empty(),
        }),
        match r.1 {
            Some(w) => current_dir@ != a@.working_directory && w@ == "WARNING: Current directory ("@
                + current_dir@ + ") does not match registered working directory"@,
            None => current_dir@ == a@.working_directory,
        },
{
    let mut out: Vec<String> = Vec::new();
    out.push(label_line("Agent: ", a.id.as_str()));
    out.push(label_line("Name: ", a.name.as_str()));
    out.push(label_line("Command: ", a.command.as_str()));
    out.push(label_line("Working Directory: ", a.working_directory.as_str()));
    match &a.description {
        Some(d) => {
            out.push(label_line("Description: ", d.as_str()));
        },
        None => {},
    }
    let warning = if !crate::ids::str_eq(current_dir, a.working_directory.as_str()) {
        let mut w = String::from_str("WARNING: Current directory (");
        w.append(current_dir);
        w.append(") does not match registered working directory");
        Some(w)
    } else {
        None
    };
    proof {
        assert(out.deep_view() =~= seq![
            "Agent: "@ + a@.id,
            "Name: "@ + a@.name,
            "Command: "@ + a@.command,
            "Working Directory: "@ + a@.working_directory,
        ] + (match a@.description {
            Some(d) => seq!["Description: "@ + d],
            None => Seq::<Seq<char>>::empty(),
        }));
    }
    (out, warning)
}

/// The comment block header: author (or `anonymous`), time, ID.
pub open spec fn comment_header_spec(m: Comment) -> Seq<char> {
    "["@ + (match m@.author {
        Some(a) => a,
        None => "anonymous"@,
    }) + "] "@ + crate::clock::minute_text_of(m.created_at) + " ("@ + m@.id + ")"@
}

/// Renders one comment block header.
pub fn comment_header(m: &Comment) -> (r: String)
    ensures
        r@ == comment_header_spec(*m),
{
    let mut r = String::from_str("[");
    match &m.author {
        Some(a) => {
            r.append(a.as_str());
        },
        None => {
            r.append("anonymous");
        },
    }
    r.append("] ");
    r.append(crate::clock::minute_display(m.created_at).as_str());
    r.append(" (");
    r.append(m.id.as_str());
    r.append(")");
    proof {
        assert(r@ =~= comment_header_spec(*m));
    }
    r
}

/// One comment in the comment listing: a separator, the header, a blank
/// line, the raw text, a blank line.
pub open spec fn comment_block_spec(m: Comment) -> Seq<Seq<char>> {
    seq![
        spec_repeat("─"@, 61),
        comment_header_spec(m),
        Seq::<char>::empty(),
        m@.text,
        Seq::<char>::empty(),
    ]
}

/// The comment listing, block after block in order.
pub open spec fn comment_blocks_spec(ms: Seq<Comment>, k: int) -> Seq<Seq<char>>
    decreases k,
{
    if k <= 0 || k > ms.len() {
        Seq::empty()
    } else {
        comment_blocks_spec(ms, k - 1) + comment_block_spec(ms[k - 1])
    }
}

/// Renders the comment listing.
pub fn comments_table_lines(comments: &Vec<Comment>) -> (r: Vec<String>)
    ensures
        r.deep_view() == comment_blocks_spec(comments@, comments@.len() as int),
{
    let mut out: Vec<String> = Vec::new();
    let n = comments.len();
    for i in 0..n
        invariant
            n == comments.len(),
            out.deep_view() == comment_blocks_spec(comments@, i as int),
    {
        let ghost pre = out.deep_view();
        out.push(repeat_str("─", 61));
        out.push(comment_header(&comments[i]));
        out.push(String::new());
        out.push(comments[i].text.clone());
        out.push(String::new());
        proof {
            assert(out.deep_view() =~= pre + comment_block_spec(comments@[i as int]));
        }
    }
    out
}

/// One checklist item line: checkbox, text, ID.
pub open spec fn item_line_spec(it: ChecklistItemV) -> Seq<char> {
    "  ["@ + (if it.checked {
        "x"@
    } else {
        " "@
    }) + "] "@ + it.text + " ("@ + it.id + ")"@
}

/// Renders one checklist item line.
pub fn item_line(it: &ChecklistItem) -> (r: String)
    ensures
        r@ == item_line_spec(it@),
{
    let mut r = String::from_str("  [");
    if it.checked {
        r.append("x");
    } else {
        r.append(" ");
    }
    r.append("] ");
    r.append(it.text.as_str());
    r.append(" (");
    r.append(it.id.as_str());
    r.append(")");
    proof {
        assert(r@ =~= item_line_spec(it@));
    }
    r
}

/// One checklist in the card detail view: a blank line, the checklist
/// header, then one line per item.
pub open spec fn checklist_block_spec(cl: ChecklistV) -> Seq<Seq<char>> {
    seq![Seq::<char>::empty(), "Checklist: "@ + cl.name + " ("@ + cl.id + ")"@] + Seq::new(
        cl.items.len(),
        |k: int| item_line_spec(cl.items[k]),
    )
}

/// The checklists of the card detail view, block after block.
pub open spec fn checklist_blocks_spec(cls: Seq<Checklist>, k: int) -> Seq<Seq<char>>
    decreases k,
{
    if k <= 0 || k > cls.len() {
        Seq::empty()
    } else {
        checklist_blocks_spec(cls, k - 1) + checklist_block_spec(cls[k - 1]@)
    }
}

/// Appends one checklist block to the detail lines.
fn push_checklist_block(out: &mut Vec<String>, cl: &Checklist)
    ensures
        final(out).deep_view() == old(out).deep_view() + checklist_block_spec(cl@),
{
    let ghost base = old(out).deep_view();
    out.push(String::new());
    let mut header = String::from_str("Checklist: ");
    header.append(cl.name.as_str());
    header.append(" (");
    header.append(cl.id.as_str());
    header.append(")");
    out.push(header);
    let n = cl.items.len();
    for k in 0..n
        invariant
            n == cl.items.len(),
            out.deep_view() =~= base + seq![
                Seq::<char>::empty(),
                "Checklist: "@ + cl@.name + " ("@ + cl@.id + ")"@,
            ] + Seq::new(k as nat, |j: int| item_line_spec(cl@.items[j])),
    {
        let ghost pre = out.deep_view();
        out.push(item_line(&cl.items[k]));
        proof {
            assert(cl@.items[k as int] == cl.items@[k as int]@);
            assert(out.deep_view() =~= pre.push(item_line_spec(cl@.items[k as int])));
            assert(Seq::new((k + 1) as nat, |j: int| item_line_spec(cl@.items[j])) =~= Seq::new(
                k as nat,
                |j: int| item_line_spec(cl@.items[j]),
            ).push(item_line_spec(cl@.items[k as int])));
        }
    }
    proof {
        assert(out.deep_view() =~= base + checklist_block_spec(cl@));
    }
}

/// One comment in the card detail view: an indented header, then the text
/// indented line by line.
pub open spec fn comment_detail_block_spec(m: Comment) -> Seq<Seq<char>> {
    seq!["  "@ + comment_header_spec(m)] + Seq::new(
        spec_lines(m@.text).len(),
        |k: int| "    "@ + spec_lines(m@.text)[k],
    )
}

/// The comments of the card detail view, block after block.
pub open spec fn comment_detail_blocks_spec(ms: Seq<Comment>, k: int) -> Seq<Seq<char>>
    decreases k,
{
    if k <= 0 || k > ms.len() {
        Seq::empty()
    } else {
        comment_detail_blocks_spec(ms, k - 1) + comment_detail_block_spec(ms[k - 1])
    }
}

/// Appends one comment block to the detail lines.
fn push_comment_detail_block(out: &mut Vec<String>, m: &Comment)
    ensures
        final(out).deep_view() == old(out).deep_view() + comment_detail_block_spec(*m),
{
    let ghost base = old(out).deep_view();
    out.push(label_line("  ", comment_header(m).as_str()));
    let lines = split_lines(m.text.as_str());
    let n = lines.len();
    for k in 0..n
        invariant
            n == lines.len(),
            lines.deep_view() == spec_lines(m@.text),
            out.deep_view() =~= base + seq!["  "@ + comment_header_spec(*m)] + Seq::new(
                k as nat,
                |j: int| "    "@ + spec_lines(m@.text)[j],
            ),
    {
        let ghost pre = out.deep_view();
        out.push(label_line("    ", lines[k].as_str()));
        proof {
            assert(lines.deep_view()[k as int] == lines@[k as int]@);
            assert(out.deep_view() =~= pre.push("    "@ + spec_lines(m@.text)[k as int]));
            assert(Seq::new((k + 1) as nat, |j: int| "    "@ + spec_lines(m@.text)[j]) =~= Seq::new(
                k as nat,
                |j: int| "    "@ + spec_lines(m@.text)[j],
            ).push("    "@ + spec_lines(m@.text)[k as int]));
        }
    }
    proof {
        assert(out.deep_view() =~= base + comment_detail_block_spec(*m));
    }
}

/// The card detail view: identity and status lines, the optional
/// description and tag list, every checklist with its items, and the
/// comments.
pub open spec fn card_detail_spec(c: Card, ms: Seq<Comment>) -> Seq<Seq<char>> {
    seq![
        "Card: "@ + c@.id,
        "Name: "@ + c@.name,
        "Board: "@ + c@.board_id,
        "Status: "@ + c.status.spec_label(),
        "Assigned To: "@ + or_dash(c@.assigned_to),
    ] + (match c@.description {
        Some(d) => seq!["Description: "@ + d],
        None => Seq::<Seq<char>>::empty(),
    }) + (if c@.tags.len() > 0 {
        seq!["Tags: "@ + spec_join(c@.tags, ", "@, c@.tags.len() as int)]
    } else {
        Seq::<Seq<char>>::empty()
    }) + checklist_blocks_spec(c.checklists@, c.checklists@.len() as int) + (if ms.len() > 0 {
        seq![Seq::<char>::empty(), "Comments:"@] + comment_detail_blocks_spec(ms, ms.len() as int)
    } else {
        Seq::<Seq<char>>::empty()
    })
}

/// Renders the card detail view.
pub fn card_detail_lines(c: &Card, comments: &Vec<Comment>) -> (r: Vec<String>)
    ensures
        r.deep_view() == card_detail_spec(*c, comments@),
{
    let mut out: Vec<String> = Vec::new();
    out.push(label_line("Card: ", c.id.as_str()));
    out.push(label_line("Name: ", c.name.as_str()));
    out.push(label_line("Board: ", c.board_id.as_str()));
    out.push(label_line("Status: ", c.status.label()));
    match &c.assigned_to {
        Some(a) => {
            out.push(label_line("Assigned To: ", a.as_str()));
        },
        None => {
            out.push(label_line("Assigned To: ", "-"));
        },
    }
    match &c.description {
        Some(d) => {
            out.push(label_line("Description: ", d.as_str()));
        },
        None => {},
    }
    if c.tags.len() > 0 {
        out.push(label_line("Tags: ", join_strings(&c.tags, ", ").as_str()));
    }
    proof {
        assert(c@.tags == c.tags.deep_view());
        assert(out.deep_view() =~= seq![
            "Card: "@ + c@.id,
            "Name: "@ + c@.name,
            "Board: "@ + c@.board_id,
            "Status: "@ + c.status.spec_label(),
            "Assigned To: "@ + or_dash(c@.assigned_to),
        ] + (match c@.description {
            Some(d) => seq!["Description: "@ + d],
            None => Seq::<Seq<char>>::empty(),
        }) + (if c@.tags.len() > 0 {
            seq!["Tags: "@ + spec_join(c@.tags, ", "@, c@.tags.len() as int)]
        } else {
            Seq::<Seq<char>>::empty()
        }));
    }
    let ghost head = out.deep_view();
    let ncl = c.checklists.len();
    for j in 0..ncl
        invariant
            ncl == c.checklists.len(),
            out.deep_view() =~= head + checklist_blocks_spec(c.checklists@, j as int),
    {
        push_checklist_block(&mut out, &c.checklists[j]);
        proof {
            assert(c.checklists@[j as int]@ == c.checklists@[j as int]@);
        }
    }
    if comments.len() > 0 {
        out.push(String::new());
        out.push(String::from_str("Comments:"));
        let ghost mid = out.deep_view();
        let nm = comments.len();
        for k in 0..nm
            invariant
                nm == comments.len(),
                out.deep_view() =~= mid + comment_detail_blocks_spec(comments@, k as int),
        {
            push_comment_detail_block(&mut out, &comments[k]);
        }
    }
    proof {
        assert(out.deep_view() =~= card_detail_spec(*c, comments@));
    }
    out
}

/// The first `n` characters of a text, or all of it when shorter.
pub open spec fn first_chars(s: Seq<char>, n: int) -> Seq<char> {
    if s.len() > n {
        s.subrange(0, n)
    } else {
        s
    }
}

/// The characters of a text after the first `n`, empty when shorter.
pub open spec fn rest_chars(s: Seq<char>, n: int) -> Seq<char> {
    if s.len() > n {
        s.subrange(n, s.len() as int)
    } else {
        Seq::empty()
    }
}

/// Cuts a text at `n` characters: the head, or everything.
fn first_chars_exec(s: &str, n: usize) -> (r: String)
    ensures
        r@ == first_chars(s@, n as int),
{
    let len = s.unicode_len();
    if len > n {
        s.substring_char(0, n).to_owned()
    } else {
        s.to_owned()
    }
}

/// The tail of a text after `n` characters.
fn rest_chars_exec(s: &str, n: usize) -> (r: String)
    ensures
        r@ == rest_chars(s@, n as int),
{
    let len = s.unicode_len();
    if len > n {
        s.substring_char(n, len).to_owned()
    } else {
        String::new()
    }
}

/// The one line of a card sub-box, by kind.
#[derive(Clone, Copy, Debug, PartialEq, Eq, Structural)]
pub enum CardLine {
    Top,
    NameA,
    NameB,
    Id,
    Assignee,
    TagsA,
    TagsB,
    Comments,
    Bottom,
}

/// First wrapped line of the card name, padded to the inner width.
pub open spec fn cell_name_a(c: CardV) -> Seq<char> {
    spec_pad(first_chars(c.name, 22), 22)
}

/// Second wrapped line of the card name, truncated with an ellipsis.
pub open spec fn cell_name_b(c: CardV) -> Seq<char> {
    spec_pad(spec_truncate(rest_chars(c.name, 22), 22), 22)
}

/// The card ID, truncated to the inner width.
pub open spec fn cell_id(c: CardV) -> Seq<char> {
    spec_pad(spec_truncate(c.id, 22), 22)
}

/// The assignee, prefixed with `@`, or `@-` for nobody.
pub open spec fn cell_assignee(c: CardV) -> Seq<char> {
    spec_pad("@"@ + spec_truncate(or_dash(c.assigned_to), 20), 22)
}

/// The tag text of a card sub-box.
pub open spec fn card_tags_text(c: CardV) -> Seq<char> {
    spec_hash_tags(c.tags, c.tags.len() as int)
}

/// First wrapped line of the tag text; blank for a tagless card.
pub open spec fn cell_tags_a(c: CardV) -> Seq<char> {
    if c.tags.len() == 0 {
        spec_pad(Seq::empty(), 22)
    } else {
        spec_pad(first_chars(card_tags_text(c), 22), 22)
    }
}

/// Second wrapped line of the tag text, truncated with an ellipsis.
pub open spec fn cell_tags_b(c: CardV) -> Seq<char> {
    if c.tags.len() == 0 {
        spec_pad(Seq::empty(), 22)
    } else {
        spec_pad(spec_truncate(rest_chars(card_tags_text(c), 22), 22), 22)
    }
}

/// The comment count, singular or plural.
pub open spec fn cell_comments(count: u64) -> Seq<char> {
    if count == 1 {
        spec_pad("[1 comment]"@, 22)
    } else {
        spec_pad("["@ + spec_dec(count as int) + " comments]"@, 22)
    }
}

/// One 29-character cell of a card sub-box, right column border included.
pub open spec fn present_cell(c: CardV, count: u64, kind: CardLine) -> Seq<char> {
    match kind {
        CardLine::Top => " ┌"@ + spec_repeat("─"@, 24) + "┐ │"@,
        CardLine::NameA => " │ "@ + cell_name_a(c) + " │ │"@,
        CardLine::NameB => " │ "@ + cell_name_b(c) + " │ │"@,
        CardLine::Id => " │ "@ + cell_id(c) + " │ │"@,
        CardLine::Assignee => " │ "@ + cell_assignee(c) + " │ │"@,
        CardLine::TagsA => " │ "@ + cell_tags_a(c) + " │ │"@,
        CardLine::TagsB => " │ "@ + cell_tags_b(c) + " │ │"@,
        CardLine::Comments => " │ "@ + cell_comments(count) + " │ │"@,
        CardLine::Bottom => " └"@ + spec_repeat("─"@, 24) + "┘ │"@,
    }
}

/// The cell of a column that has run out of cards.
pub open spec fn blank_cell() -> Seq<char> {
    spec_repeat(" "@, 28) + "│"@
}

/// Renders the inner content of a card sub-box line.
fn cell_content(c: &Card, count: u64, kind: CardLine) -> (r: String)
    requires
        kind != CardLine::Top && kind != CardLine::Bottom,
    ensures
        " │ "@ + r@ + " │ │"@ == present_cell(c@, count, kind),
{
    proof {
        reveal_strlit("");
        assert(""@ =~= Seq::<char>::empty());
        assert(c@.tags.len() == c.tags@.len());
    }
    let r = match kind {
        CardLine::NameA => pad_right(first_chars_exec(c.name.as_str(), 22).as_str(), 22),
        CardLine::NameB => pad_right(
            truncate(rest_chars_exec(c.name.as_str(), 22).as_str(), 22).as_str(),
            22,
        ),
        CardLine::Id => pad_right(truncate(c.id.as_str(), 22).as_str(), 22),
        CardLine::Assignee => {
            let who = match &c.assigned_to {
                Some(a) => truncate(a.as_str(), 20),
                None => truncate("-", 20),
            };
            let mut s = String::from_str("@");
            s.append(who.as_str());
            proof {
                assert(s@ =~= "@"@ + spec_truncate(or_dash(c@.assigned_to), 20));
            }
            pad_right(s.as_str(), 22)
        },
        CardLine::TagsA => {
            if c.tags.len() == 0 {
                pad_right("", 22)
            } else {
                let ht = hash_tags_text(&c.tags);
                pad_right(first_chars_exec(ht.as_str(), 22).as_str(), 22)
            }
        },
        CardLine::TagsB => {
            if c.tags.len() == 0 {
                pad_right("", 22)
            } else {
                let ht = hash_tags_text(&c.tags);
                pad_right(truncate(rest_chars_exec(ht.as_str(), 22).as_str(), 22).as_str(), 22)
            }
        },
        _ => {
            let text = if count == 1 {
                String::from_str("[1 comment]")
            } else {
                let mut t = String::from_str("[");
                t.append(u64_to_string(count).as_str());
                t.append(" comments]");
                proof {
                    assert(t@ =~= "["@ + spec_dec(count as int) + " comments]"@);
                }
                t
            };
            pad_right(text.as_str(), 22)
        },
    };
    proof {
        assert(" │ "@ + r@ + " │ │"@ =~= present_cell(c@, count, kind));
    }
    r
}

/// Renders one 29-character cell of a card sub-box.
fn cell_text(c: &Card, count: u64, kind: CardLine) -> (r: String)
    ensures
        r@ == present_cell(c@, count, kind),
{
    match kind {
        CardLine::Top => {
            let mut r = String::from_str(" ┌");
            r.append(repeat_str("─", 24).as_str());
            r.append("┐ │");
            proof {
                assert(r@ =~= " ┌"@ + spec_repeat("─"@, 24) + "┐ │"@);
            }
            r
        },
        CardLine::Bottom => {
            let mut r = String::from_str(" └");
            r.append(repeat_str("─", 24).as_str());
            r.append("┘ │");
            proof {
                assert(r@ =~= " └"@ + spec_repeat("─"@, 24) + "┘ │"@);
            }
            r
        },
        _ => {
            let content = cell_content(c, count, kind);
            let mut r = String::from_str(" │ ");
            r.append(content.as_str());
            r.append(" │ │");
            proof {
                assert(r@ =~= " │ "@ + content@ + " │ │"@);
            }
            r
        },
    }
}

/// The status of each kanban column, left to right.
pub open spec fn col_status(c: int) -> Status {
    if c == 0 {
        Status::Todo
    } else if c == 1 {
        Status::InProgress
    } else if c == 2 {
        Status::PendingReview
    } else {
        Status::Done
    }
}

/// The positions of the cards with this status, in order.
pub open spec fn column_of(cards: Seq<CardV>, st: Status) -> Seq<int>
    decreases cards.len(),
{
    if cards.len() == 0 {
        Seq::empty()
    } else if cards.last().status == st {
        column_of(cards.drop_last(), st).push(cards.len() - 1)
    } else {
        column_of(cards.drop_last(), st)
    }
}

/// One 29-character cell of a kanban body line: a card sub-box line where
/// the column still has a card, blank space below that.
pub open spec fn kanban_cell(
    cards: Seq<CardV>,
    counts: Seq<u64>,
    row: int,
    c: int,
    kind: CardLine,
) -> Seq<char> {
    let col = column_of(cards, col_status(c));
    if 0 <= row < col.len() {
        present_cell(cards[col[row]], counts[col[row]], kind)
    } else {
        blank_cell()
    }
}

/// The first `c` cells of a kanban body line, concatenated.
pub open spec fn kanban_cells_upto(
    cards: Seq<CardV>,
    counts: Seq<u64>,
    row: int,
    kind: CardLine,
    c: int,
) -> Seq<char>
    decreases c,
{
    if c <= 0 {
        Seq::empty()
    } else {
        kanban_cells_upto(cards, counts, row, kind, c - 1) + kanban_cell(
            cards,
            counts,
            row,
            c - 1,
            kind,
        )
    }
}

/// One body line of the kanban: the left border, then four cells.
pub open spec fn kanban_body_line(
    cards: Seq<CardV>,
    counts: Seq<u64>,
    row: int,
    kind: CardLine,
) -> Seq<char> {
    "│"@ + kanban_cells_upto(cards, counts, row, kind, 4)
}

/// The nine lines of one card row of the kanban.
pub open spec fn kanban_row_lines(cards: Seq<CardV>, counts: Seq<u64>, row: int) -> Seq<Seq<char>> {
    seq![
        kanban_body_line(cards, counts, row, CardLine::Top),
        kanban_body_line(cards, counts, row, CardLine::NameA),
        kanban_body_line(cards, counts, row, CardLine::NameB),
        kanban_body_line(cards, counts, row, CardLine::Id),
        kanban_body_line(cards, counts, row, CardLine::Assignee),
        kanban_body_line(cards, counts, row, CardLine::TagsA),
        kanban_body_line(cards, counts, row, CardLine::TagsB),
        kanban_body_line(cards, counts, row, CardLine::Comments),
        kanban_body_line(cards, counts, row, CardLine::Bottom),
    ]
}

/// The first `r` card rows of the kanban, concatenated.
pub open spec fn kanban_rows_upto(cards: Seq<CardV>, counts: Seq<u64>, r: int) -> Seq<Seq<char>>
    decreases r,
{
    if r <= 0 {
        Seq::empty()
    } else {
        kanban_rows_upto(cards, counts, r - 1) + kanban_row_lines(cards, counts, r - 1)
    }
}

/// The larger of two numbers.
pub open spec fn max2(a: int, b: int) -> int {
    if a >= b {
        a
    } else {
        b
    }
}

/// The height of the tallest kanban column.
pub open spec fn max_rows(cards: Seq<CardV>) -> int {
    max2(
        max2(
            column_of(cards, Status::Todo).len() as int,
            column_of(cards, Status::InProgress).len() as int,
        ),
        max2(
            column_of(cards, Status::PendingReview).len() as int,
            column_of(cards, Status::Done).len() as int,
        ),
    )
}

/// One 29-character header-style cell: a space, padded text, the border.
pub open spec fn header_cell(label: Seq<char>) -> Seq<char> {
    " "@ + spec_pad(label, 27) + "│"@
}

/// The column header line of the kanban.
pub open spec fn kanban_header_line() -> Seq<char> {
    "│"@ + header_cell("TODO"@) + header_cell("IN PROGRESS"@) + header_cell("PENDING REVIEW"@)
        + header_cell("DONE"@)
}

/// One card-count cell of the kanban.
pub open spec fn count_cell(n: int) -> Seq<char> {
    header_cell("("@ + spec_dec(n) + " cards)"@)
}

/// The card-count line of the kanban.
pub open spec fn kanban_counts_line(cards: Seq<CardV>) -> Seq<char> {
    "│"@ + count_cell(column_of(cards, Status::Todo).len() as int) + count_cell(
        column_of(cards, Status::InProgress).len() as int,
    ) + count_cell(column_of(cards, Status::PendingReview).len() as int) + count_cell(
        column_of(cards, Status::Done).len() as int,
    )
}

/// A horizontal border of the kanban: four column-wide bars between the
/// given corner and joint characters.
pub open spec fn kanban_sep_spec(left: Seq<char>, mid: Seq<char>, right: Seq<char>) -> Seq<char> {
    left + spec_repeat("─"@, 28) + mid + spec_repeat("─"@, 28) + mid + spec_repeat("─"@, 28) + mid
        + spec_repeat("─"@, 28) + right
}

/// The placeholder line of a board without cards.
pub open spec fn kanban_empty_line() -> Seq<char> {
    "│"@ + header_cell("(empty)"@) + header_cell("(empty)"@) + header_cell("(empty)"@)
        + header_cell("(empty)"@)
}

/// The whole kanban: a blank line, the board header box, the four column
/// headers with their counts, one 9-line row of sub-boxes per card row
/// (columns pad to the tallest), a single placeholder line when the board
/// has no cards at all, the bottom border, a blank line.
pub open spec fn kanban_spec(b: BoardV, cards: Seq<CardV>, counts: Seq<u64>) -> Seq<Seq<char>> {
    seq![
        Seq::<char>::empty(),
        "┌"@ + spec_repeat("─"@, 115) + "┐"@,
        "│ "@ + spec_pad(b.name + " - "@ + b.id, 113) + " │"@,
    ] + (match b.description {
        Some(d) => seq!["│ "@ + spec_pad(spec_truncate(d, 111), 113) + " │"@],
        None => Seq::<Seq<char>>::empty(),
    }) + seq![
        kanban_sep_spec("├"@, "┬"@, "┤"@),
        kanban_header_line(),
        kanban_counts_line(cards),
        kanban_sep_spec("├"@, "┼"@, "┤"@),
    ] + kanban_rows_upto(cards, counts, max_rows(cards)) + (if max_rows(cards) == 0 {
        seq![kanban_empty_line()]
    } else {
        Seq::<Seq<char>>::empty()
    }) + seq![kanban_sep_spec("└"@, "┴"@, "┘"@), Seq::<char>::empty()]
}

/// Collects the positions of the cards with this status, in order.
fn column_indices(cards: &Vec<Card>, st: Status) -> (r: Vec<usize>)
    ensures
        r@.map_values(|u: usize| u as int) == column_of(crate::store::cviews(cards@), st),
        forall|a: int| 0 <= a < r@.len() ==> (#[trigger] r@[a]) < cards@.len(),
{
    let ghost cv = crate::store::cviews(cards@);
    let mut out: Vec<usize> = Vec::new();
    let n = cards.len();
    for i in 0..n
        invariant
            n == cards.len(),
            cv == crate::store::cviews(cards@),
            out@.map_values(|u: usize| u as int) == column_of(cv.take(i as int), st),
            forall|a: int| 0 <= a < out@.len() ==> (#[trigger] out@[a]) < i,
    {
        proof {
            assert(cv.take(i + 1).drop_last() =~= cv.take(i as int));
            assert(cv.take(i + 1).last() == cv[i as int]);
        }
        if cards[i].status == st {
            let ghost pre = out@.map_values(|u: usize| u as int);
            out.push(i);
            proof {
                assert(out@.map_values(|u: usize| u as int) =~= pre.push(i as int));
            }
        }
    }
    proof {
        assert(cv.take(n as int) =~= cv);
    }
    out
}

/// Renders one body line of the kanban.
fn kanban_line(
    cards: &Vec<Card>,
    counts: &Vec<u64>,
    cols: &Vec<Vec<usize>>,
    row: usize,
    kind: CardLine,
) -> (r: String)
    requires
        counts@.len() == cards@.len(),
        cols@.len() == 4,
        forall|c: int|
            0 <= c < 4 ==> (#[trigger] cols@[c])@.map_values(|u: usize| u as int) == column_of(
                crate::store::cviews(cards@),
                col_status(c),
            ),
        forall|c: int, a: int|
            0 <= c < 4 && 0 <= a < cols@[c]@.len() ==> (#[trigger] cols@[c]@[a]) < cards@.len(),
    ensures
        r@ == kanban_body_line(crate::store::cviews(cards@), counts@, row as int, kind),
{
    let ghost cv = crate::store::cviews(cards@);
    let mut r = String::from_str("│");
    for c in 0..4usize
        invariant
            counts@.len() == cards@.len(),
            cols@.len() == 4,
            forall|x: int|
                0 <= x < 4 ==> (#[trigger] cols@[x])@.map_values(|u: usize| u as int) == column_of(
                    crate::store::cviews(cards@),
                    col_status(x),
                ),
            forall|x: int, a: int|
                0 <= x < 4 && 0 <= a < cols@[x]@.len() ==> (#[trigger] cols@[x]@[a])
                    < cards@.len(),
            cv == crate::store::cviews(cards@),
            r@ == "│"@ + kanban_cells_upto(cv, counts@, row as int, kind, c as int),
    {
        let col = &cols[c];
        if row < col.len() {
            let idx = col[row];
            proof {
                assert(cols@[c as int]@.map_values(|u: usize| u as int)[row as int] == idx as int);
                assert(column_of(cv, col_status(c as int))[row as int] == idx as int);
                assert(cv[idx as int] == cards@[idx as int]@);
            }
            let cell = cell_text(&cards[idx], counts[idx], kind);
            r.append(cell.as_str());
            proof {
                assert(r@ =~= "│"@ + kanban_cells_upto(cv, counts@, row as int, kind, c + 1));
            }
        } else {
            r.append(repeat_str(" ", 28).as_str());
            r.append("│");
            proof {
                assert(column_of(cv, col_status(c as int)).len() == cols@[c as int]@.len());
                assert(r@ =~= "│"@ + kanban_cells_upto(cv, counts@, row as int, kind, c + 1));
            }
        }
    }
    r
}

/// Renders one header-style cell.
fn header_cell_exec(label: &str) -> (r: String)
    ensures
        r@ == header_cell(label@),
{
    let mut r = String::from_str(" ");
    r.append(pad_right(label, 27).as_str());
    r.append("│");
    proof {
        assert(r@ =~= header_cell(label@));
    }
    r
}

/// Renders a horizontal border of the kanban.
fn kanban_sep(left: &str, mid: &str, right: &str) -> (r: String)
    ensures
        r@ == kanban_sep_spec(left@, mid@, right@),
{
    let bars = repeat_str("─", 28);
    let mut r = left.to_owned();
    r.append(bars.as_str());
    r.append(mid);
    r.append(bars.as_str());
    r.append(mid);
    r.append(bars.as_str());
    r.append(mid);
    r.append(bars.as_str());
    r.append(right);
    proof {
        assert(r@ =~= kanban_sep_spec(left@, mid@, right@));
    }
    r
}

/// Renders one card-count cell.
fn count_cell_exec(n: usize) -> (r: String)
    ensures
        r@ == count_cell(n as int),
{
    let mut label = String::from_str("(");
    label.append(usize_to_string(n).as_str());
    label.append(" cards)");
    proof {
        assert(label@ =~= "("@ + spec_dec(n as int) + " cards)"@);
    }
    header_cell_exec(label.as_str())
}

/// Renders the kanban view of one board: four status columns of card
/// sub-boxes (name wrapped over two lines, truncated ID, assignee, two
/// lines of tag text, comment count), columns padded to the tallest, with
/// a placeholder row for an empty board. `comment_counts[i]` is the
/// precomputed comment count of `cards[i]`.
#[verifier::rlimit(60)]
pub fn render_kanban(board: &Board, cards: &Vec<Card>, comment_counts: &Vec<u64>) -> (r: Vec<
    String,
>)
    requires
        comment_counts@.len() == cards@.len(),
    ensures
        r.deep_view() == kanban_spec(board@, crate::store::cviews(cards@), comment_counts@),
{
    let ghost cv = crate::store::cviews(cards@);
    let todo = column_indices(cards, Status::Todo);
    let in_progress = column_indices(cards, Status::InProgress);
    let pending_review = column_indices(cards, Status::PendingReview);
    let done = column_indices(cards, Status::Done);
    let n_todo = todo.len();
    let n_in_progress = in_progress.len();
    let n_pending_review = pending_review.len();
    let n_done = done.len();
    let mut cols: Vec<Vec<usize>> = Vec::new();
    cols.push(todo);
    cols.push(in_progress);
    cols.push(pending_review);
    cols.push(done);
    let mut maxr = n_todo;
    if n_in_progress > maxr {
        maxr = n_in_progress;
    }
    if n_pending_review > maxr {
        maxr = n_pending_review;
    }
    if n_done > maxr {
        maxr = n_done;
    }
    proof {
        assert(maxr as int == max_rows(cv));
    }
    let mut out: Vec<String> = Vec::new();
    out.push(String::new());
    let mut top = String::from_str("┌");
    top.append(repeat_str("─", 115).as_str());
    top.append("┐");
    proof {
        assert(top@ =~= "┌"@ + spec_repeat("─"@, 115) + "┐"@);
    }
    out.push(top);
    let mut title = board.name.clone();
    title.append(" - ");
    title.append(board.id.as_str());
    let mut title_line = String::from_str("│ ");
    title_line.append(pad_right(title.as_str(), 113).as_str());
    title_line.append(" │");
    proof {
        assert(title_line@ =~= "│ "@ + spec_pad(board@.name + " - "@ + board@.id, 113) + " │"@);
    }
    out.push(title_line);
    match &board.description {
        Some(d) => {
            let mut desc_line = String::from_str("│ ");
            desc_line.append(pad_right(truncate(d.as_str(), 111).as_str(), 113).as_str());
            desc_line.append(" │");
            proof {
                assert(desc_line@ =~= "│ "@ + spec_pad(spec_truncate(d@, 111), 113) + " │"@);
            }
            out.push(desc_line);
        },
        None => {},
    }
    out.push(kanban_sep("├", "┬", "┤"));
    let mut header = String::from_str("│");
    header.append(header_cell_exec("TODO").as_str());
    header.append(header_cell_exec("IN PROGRESS").as_str());
    header.append(header_cell_exec("PENDING REVIEW").as_str());
    header.append(header_cell_exec("DONE").as_str());
    proof {
        assert(header@ =~= kanban_header_line());
    }
    out.push(header);
    let mut counts_line = String::from_str("│");
    counts_line.append(count_cell_exec(n_todo).as_str());
    counts_line.append(count_cell_exec(n_in_progress).as_str());
    counts_line.append(count_cell_exec(n_pending_review).as_str());
    counts_line.append(count_cell_exec(n_done).as_str());
    proof {
        assert(counts_line@ =~= kanban_counts_line(cv));
    }
    out.push(counts_line);
    out.push(kanban_sep("├", "┼", "┤"));
    let ghost head = out.deep_view();
    proof {
        assert(head =~= seq![
            Seq::<char>::empty(),
            "┌"@ + spec_repeat("─"@, 115) + "┐"@,
            "│ "@ + spec_pad(board@.name + " - "@ + board@.id, 113) + " │"@,
        ] + (match board@.description {
            Some(d) => seq!["│ "@ + spec_pad(spec_truncate(d, 111), 113) + " │"@],
            None => Seq::<Seq<char>>::empty(),
        }) + seq![
            kanban_sep_spec("├"@, "┬"@, "┤"@),
            kanban_header_line(),
            kanban_counts_line(cv),
            kanban_sep_spec("├"@, "┼"@, "┤"@),
        ]);
    }
    for row in 0..maxr
        invariant
            comment_counts@.len() == cards@.len(),
            cols@.len() == 4,
            forall|x: int|
                0 <= x < 4 ==> (#[trigger] cols@[x])@.map_values(|u: usize| u as int) == column_of(
                    crate::store::cviews(cards@),
                    col_status(x),
                ),
            forall|x: int, a: int|
                0 <= x < 4 && 0 <= a < cols@[x]@.len() ==> (#[trigger] cols@[x]@[a])
                    < cards@.len(),
            cv == crate::store::cviews(cards@),
            out.deep_view() =~= head + kanban_rows_upto(cv, comment_counts@, row as int),
    {
        let ghost pre = out.deep_view();
        out.push(kanban_line(cards, comment_counts, &cols, row, CardLine::Top));
        out.push(kanban_line(cards, comment_counts, &cols, row, CardLine::NameA));
        out.push(kanban_line(cards, comment_counts, &cols, row, CardLine::NameB));
        out.push(kanban_line(cards, comment_counts, &cols, row, CardLine::Id));
        out.push(kanban_line(cards, comment_counts, &cols, row, CardLine::Assignee));
        out.push(kanban_line(cards, comment_counts, &cols, row, CardLine::TagsA));
        out.push(kanban_line(cards, comment_counts, &cols, row, CardLine::TagsB));
        out.push(kanban_line(cards, comment_counts, &cols, row, CardLine::Comments));
        out.push(kanban_line(cards, comment_counts, &cols, row, CardLine::Bottom));
        proof {
            assert(out.deep_view() =~= pre + kanban_row_lines(cv, comment_counts@, row as int));
        }
    }
    if maxr == 0 {
        let mut empty_line = String::from_str("│");
        empty_line.append(header_cell_exec("(empty)").as_str());
        empty_line.append(header_cell_exec("(empty)").as_str());
        empty_line.append(header_cell_exec("(empty)").as_str());
        empty_line.append(header_cell_exec("(empty)").as_str());
        proof {
            assert(empty_line@ =~= kanban_empty_line());
        }
        out.push(empty_line);
    }
    proof {
        assert(out.deep_view() =~= head + kanban_rows_upto(cv, comment_counts@, maxr as int) + (
        if max_rows(cv) == 0 {
            seq![kanban_empty_line()]
        } else {
            Seq::<Seq<char>>::empty()
        }));
    }
    out.push(kanban_sep("└", "┴", "┘"));
    out.push(String::new());
    proof {
        assert(out.deep_view() =~= kanban_spec(board@, cv, comment_counts@));
    }
    out
}

/// The first `r` kanban card rows take nine lines each.
pub proof fn lemma_kanban_rows_len(cards: Seq<CardV>, counts: Seq<u64>, r: int)
    requires
        r >= 0,
    ensures
        kanban_rows_upto(cards, counts, r).len() == 9 * r,
    decreases r,
{
    if r > 0 {
        lemma_kanban_rows_len(cards, counts, r - 1);
    }
}

/// The height of the kanban: nine fixed lines, one more for a described
/// board, and nine per card row — or a single placeholder line when the
/// board has no cards.
pub proof fn lemma_kanban_height(b: BoardV, cards: Seq<CardV>, counts: Seq<u64>)
    ensures
        kanban_spec(b, cards, counts).len() == 9 + (if b.description is Some {
            1int
        } else {
            0int
        }) + (if max_rows(cards) == 0 {
            1int
        } else {
            9 * max_rows(cards)
        }),
{
    lemma_kanban_rows_len(cards, counts, max_rows(cards));
}

/// The strings joined with a separator, the order kept.
pub open spec fn spec_join(items: Seq<Seq<char>>, sep: Seq<char>, k: int) -> Seq<char>
    decreases k,
{
    if k <= 0 || k > items.len() {
        Seq::empty()
    } else if k == 1 {
        items[0]
    } else {
        spec_join(items, sep, k - 1) + sep + items[k - 1]
    }
}

/// Joins strings with a separator.
pub fn join_strings(items: &Vec<String>, sep: &str) -> (r: String)
    ensures
        r@ == spec_join(items.deep_view(), sep@, items.deep_view().len() as int),
{
    let mut r = String::new();
    let n = items.len();
    for k in 0..n
        invariant
            n == items.len(),
            r@ == spec_join(items.deep_view(), sep@, k as int),
    {
        if k > 0 {
            r.append(sep);
        }
        r.append(items[k].as_str());
        proof {
            assert(items.deep_view()[k as int] == items@[k as int]@);
            if k == 0 {
                assert(r@ =~= items.deep_view()[0]);
            } else {
                assert(r@ =~= spec_join(items.deep_view(), sep@, k as int) + sep@
                    + items.deep_view()[k as int]);
            }
        }
    }
    r
}

} // verus!
