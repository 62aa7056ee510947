//! Identifiers: every entity carries a globally unique ID whose prefix
//! reveals its kind, so a bare ID string can be routed to the right
//! entity without further context.

use vstd::prelude::*;

verus! {

use vstd::string::StrSliceExecFns;

/// `p` is a prefix of `id`.
pub open spec fn has_prefix(id: Seq<char>, p: Seq<char>) -> bool {
    id.len() >= p.len() && id.subrange(0, p.len() as int) == p
}

/// The ID shape of each entity kind.
pub open spec fn is_board_id(id: Seq<char>) -> bool {
    has_prefix(id, "board_"@)
}

pub open spec fn is_card_id(id: Seq<char>) -> bool {
    has_prefix(id, "card_"@)
}

pub open spec fn is_agent_id(id: Seq<char>) -> bool {
    has_prefix(id, "agent_"@)
}

pub open spec fn is_comment_id(id: Seq<char>) -> bool {
    has_prefix(id, "comment_"@)
}

pub open spec fn is_checklist_id(id: Seq<char>) -> bool {
    has_prefix(id, "checklist_"@)
}

pub open spec fn is_item_id(id: Seq<char>) -> bool {
    has_prefix(id, "item_"@)
}

/// Compares two string slices by their character sequences.
pub fn str_eq(a: &str, b: &str) -> (r: bool)
    ensures
        r == (a@ == b@),
{
    let av = a.to_owned();
    let bv = b.to_owned();
    av.eq(&bv)
}

/// Whether `p` is a prefix of `s`.
pub fn str_has_prefix(s: &str, p: &str) -> (b: bool)
    ensures
        b == has_prefix(s@, p@),
{
    let sl = s.unicode_len();
    let pl = p.unicode_len();
    if sl < pl {
        return false;
    }
    let mut i: usize = 0;
    while i < pl
        invariant
            0 <= i <= pl,
            pl == p@.len(),
            pl <= sl == s@.len(),
            forall|j: int| 0 <= j < i ==> s@[j] == p@[j],
        decreases pl - i,
    {
        if s.get_char(i) != p.get_char(i) {
            proof {
                assert(s@.subrange(0, pl as int)[i as int] != p@[i as int]);
            }
            return false;
        }
        i = i + 1;
    }
    proof {
        assert(s@.subrange(0, pl as int) =~= p@);
    }
    true
}

/// The entity kinds a bare ID can be routed to at the command boundary.
#[derive(Clone, Copy, Debug, PartialEq, Eq, Structural)]
pub enum EntityKind {
    Agent,
    Board,
    Card,
    Unknown,
}

/// The routing rule: the first matching prefix decides the kind.
pub open spec fn spec_kind_of_id(id: Seq<char>) -> EntityKind {
    if has_prefix(id, "agent_"@) {
        EntityKind::Agent
    } else if has_prefix(id, "board_"@) {
        EntityKind::Board
    } else if has_prefix(id, "card_"@) {
        EntityKind::Card
    } else {
        EntityKind::Unknown
    }
}

/// Routes a bare ID to its entity kind by looking at the prefix alone.
pub fn kind_of_id(id: &str) -> (k: EntityKind)
    ensures
        k == spec_kind_of_id(id@),
{
    if str_has_prefix(id, "agent_") {
        EntityKind::Agent
    } else if str_has_prefix(id, "board_") {
        EntityKind::Board
    } else if str_has_prefix(id, "card_") {
        EntityKind::Card
    } else {
        EntityKind::Unknown
    }
}

} // verus!
