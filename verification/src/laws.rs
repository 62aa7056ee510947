//! The laws the store keeps: soft-delete hiding and recall, tag-set
//! idempotence, AND-composition of tag filters, start-work assignment,
//! and the create/lookup and check/uncheck round trips. Each is proved
//! from the operations' own contracts.

use vstd::prelude::*;

verus! {

use crate::models::{CardV, ChecklistItemV, Status};
use crate::store::{
    DatabaseV, board_deleted_rel, card_after_board_delete, card_after_check_item, card_has_item,
    card_matches, checklist_after_check, distinct_seqs, has_active_card, matching_cards,
    spec_add_tag, spec_remove_tags,
};
use crate::resolver::{AssignmentDecision, spec_resolve};

/// After a board deletion, a plain listing of that board's cards is empty:
/// every card of the board carries a deletion mark.
pub proof fn lemma_no_live_cards_after_delete(
    cards: Seq<CardV>,
    id: Seq<char>,
    status: Option<Status>,
    assigned: Option<Seq<char>>,
    tags: Seq<Seq<char>>,
)
    requires
        forall|k: int|
            0 <= k < cards.len() && (#[trigger] cards[k]).board_id == id ==> cards[k].deleted_at
                is Some,
    ensures
        matching_cards(cards, id, status, assigned, tags, false) == Seq::<CardV>::empty(),
    decreases cards.len(),
{
    reveal(Seq::filter);
    if cards.len() > 0 {
        lemma_no_live_cards_after_delete(cards.drop_last(), id, status, assigned, tags);
        assert(!card_matches(cards.last(), id, status, assigned, tags, false));
    }
    assert(matching_cards(cards, id, status, assigned, tags, false) =~= Seq::<CardV>::empty());
}

/// After a board deletion, a listing that opts into deleted cards still
/// returns the board's cards, one for one, each marked deleted and
/// otherwise carrying its old identity and name.
pub proof fn lemma_deleted_cards_still_listed(
    pre_cards: Seq<CardV>,
    post_cards: Seq<CardV>,
    id: Seq<char>,
    now: int,
)
    requires
        post_cards.len() == pre_cards.len(),
        forall|k: int|
            0 <= k < pre_cards.len() ==> post_cards[k] == card_after_board_delete(
                #[trigger] pre_cards[k],
                id,
                now,
            ),
    ensures
        ({
            let before = matching_cards(pre_cards, id, None, None, Seq::empty(), true);
            let after = matching_cards(post_cards, id, None, None, Seq::empty(), true);
            &&& after.len() == before.len()
            &&& forall|i: int|
                0 <= i < after.len() ==> (#[trigger] after[i]).id == before[i].id && after[i].name
                    == before[i].name && after[i].deleted_at is Some
        }),
    decreases pre_cards.len(),
{
    reveal(Seq::filter);
    if pre_cards.len() > 0 {
        assert(post_cards.drop_last() =~= post_cards.subrange(0, pre_cards.len() - 1));
        assert forall|k: int|
            0 <= k < pre_cards.drop_last().len() implies post_cards.drop_last()[k]
            == card_after_board_delete(#[trigger] pre_cards.drop_last()[k], id, now) by {
            assert(pre_cards.drop_last()[k] == pre_cards[k]);
            assert(post_cards.drop_last()[k] == post_cards[k]);
        }
        lemma_deleted_cards_still_listed(pre_cards.drop_last(), post_cards.drop_last(), id, now);
        let lp = pre_cards.last();
        let la = post_cards.last();
        assert(la == card_after_board_delete(lp, id, now));
        assert(card_matches(la, id, None, None, Seq::empty(), true) == card_matches(
            lp,
            id,
            None,
            None,
            Seq::empty(),
            true,
        ));
    }
}

/// Soft-deleting a board hides its cards from a plain listing while a
/// listing that opts in still returns them, each marked deleted.
pub proof fn lemma_delete_board_then_list(pre: DatabaseV, post: DatabaseV, id: Seq<char>, now: int)
    requires
        board_deleted_rel(pre, post, id, now),
    ensures
        matching_cards(post.cards, id, None, None, Seq::empty(), false) == Seq::<CardV>::empty(),
        ({
            let before = matching_cards(pre.cards, id, None, None, Seq::empty(), true);
            let after = matching_cards(post.cards, id, None, None, Seq::empty(), true);
            &&& after.len() == before.len()
            &&& forall|i: int|
                0 <= i < after.len() ==> (#[trigger] after[i]).id == before[i].id && after[i].name
                    == before[i].name && after[i].deleted_at is Some
        }),
{
    assert forall|k: int|
        0 <= k < post.cards.len() && (#[trigger] post.cards[k]).board_id == id implies
    post.cards[k].deleted_at is Some by {
        assert(post.cards[k] == card_after_board_delete(pre.cards[k], id, now));
    }
    lemma_no_live_cards_after_delete(post.cards, id, None, None, Seq::empty());
    lemma_deleted_cards_still_listed(pre.cards, post.cards, id, now);
}

/// Adding a tag is idempotent: adding it twice is adding it once, and the
/// tag is present afterwards.
pub proof fn lemma_add_tag_idempotent(tags: Seq<Seq<char>>, t: Seq<char>)
    ensures
        spec_add_tag(spec_add_tag(tags, t), t) == spec_add_tag(tags, t),
        spec_add_tag(tags, t).contains(t),
{
    if !tags.contains(t) {
        assert(spec_add_tag(tags, t)[tags.len() as int] == t);
        assert(spec_add_tag(tags, t).contains(t));
    }
}

/// Two updates that each add the same single tag leave the same tag list
/// as one: the second add is a no-op.
pub proof fn lemma_add_same_tag_twice(tags: Seq<Seq<char>>, t: Seq<char>)
    ensures
        crate::store::spec_add_tags(crate::store::spec_add_tags(tags, seq![t]), seq![t])
            == crate::store::spec_add_tags(tags, seq![t]),
{
    assert(crate::store::spec_add_tags_from(spec_add_tag(tags, t), seq![t], 1) == spec_add_tag(
        tags,
        t,
    ));
    assert(crate::store::spec_add_tags(tags, seq![t]) == spec_add_tag(tags, t));
    let once = spec_add_tag(tags, t);
    assert(crate::store::spec_add_tags_from(spec_add_tag(once, t), seq![t], 1) == spec_add_tag(
        once,
        t,
    ));
    assert(crate::store::spec_add_tags(once, seq![t]) == spec_add_tag(once, t));
    lemma_add_tag_idempotent(tags, t);
}

/// A duplicate-free tag list stays duplicate-free under adding, so an
/// added tag occurs exactly once.
pub proof fn lemma_add_tag_distinct(tags: Seq<Seq<char>>, t: Seq<char>)
    requires
        distinct_seqs(tags),
    ensures
        distinct_seqs(spec_add_tag(tags, t)),
{
    if !tags.contains(t) {
        let r = spec_add_tag(tags, t);
        assert forall|a: int, b: int| 0 <= a < b < r.len() implies r[a] != r[b] by {
            if b == tags.len() {
                assert(!tags.contains(t));
                assert(r[a] == tags[a]);
            }
        }
    }
}

/// Removing an absent tag is a no-op.
pub proof fn lemma_remove_absent_tag(tags: Seq<Seq<char>>, t: Seq<char>)
    requires
        !tags.contains(t),
    ensures
        spec_remove_tags(tags, seq![t]) == tags,
    decreases tags.len(),
{
    reveal(Seq::filter);
    if tags.len() > 0 {
        assert(!tags.drop_last().contains(t)) by {
            if tags.drop_last().contains(t) {
                let i = choose|i: int|
                    0 <= i < tags.drop_last().len() && tags.drop_last()[i] == t;
                assert(tags[i] == t);
            }
        }
        lemma_remove_absent_tag(tags.drop_last(), t);
        assert(!seq![t].contains(tags.last())) by {
            assert(tags.contains(tags.last()));
            if seq![t].contains(tags.last()) {
                assert(tags.last() == t);
            }
        }
        assert(spec_remove_tags(tags, seq![t]) =~= tags);
    } else {
        assert(spec_remove_tags(tags, seq![t]) =~= tags);
    }
}

/// A card listing filters by tag containment with AND semantics: every
/// returned card carries every requested tag.
pub proof fn lemma_tag_filter_is_and(
    cards: Seq<CardV>,
    board_id: Seq<char>,
    tags: Seq<Seq<char>>,
    i: int,
)
    requires
        0 <= i < matching_cards(cards, board_id, None, None, tags, false).len(),
    ensures
        forall|k: int|
            0 <= k < tags.len() ==> matching_cards(
                cards,
                board_id,
                None,
                None,
                tags,
                false,
            )[i].tags.contains(#[trigger] tags[k]),
{
    broadcast use vstd::seq_lib::group_filter_ensures;

    let r = matching_cards(cards, board_id, None, None, tags, false);
    assert(card_matches(r[i], board_id, None, None, tags, false));
}

/// Starting work resolves the assignee: moving a card to InProgress with
/// no explicit assignment falls back to the ambient identity, and calls
/// for provisioning exactly when none is configured.
pub proof fn lemma_start_work_assignment(ambient: Option<String>)
    ensures
        spec_resolve(None, false, Some(Status::InProgress), ambient) == (match ambient {
            Some(a) => AssignmentDecision::SetTo(a),
            None => AssignmentDecision::Provision,
        }),
{
}

/// After a create, a lookup of the new ID sees exactly the created card:
/// the ID pins it down in a well-formed store.
pub proof fn lemma_create_then_get(pre: DatabaseV, post: DatabaseV, c: CardV)
    requires
        post.wf(),
        post.cards == pre.cards.push(c),
        c.deleted_at is None,
    ensures
        has_active_card(post, c.id),
        forall|i: int|
            0 <= i < post.cards.len() && (#[trigger] post.cards[i]).id == c.id ==> post.cards[i]
                == c,
{
    let n = pre.cards.len() as int;
    assert(post.cards[n] == c);
    assert forall|i: int|
        0 <= i < post.cards.len() && (#[trigger] post.cards[i]).id == c.id implies post.cards[i]
        == c by {
        if i != n {
            assert(post.cards[i].id != post.cards[n].id);
        }
    }
}

/// When the clock handed in does not run backwards, two successive item
/// checks advance the owning card's update timestamp monotonically; no
/// other card's timestamps move at all (each call's own relation pins
/// them unchanged).
pub proof fn lemma_check_item_clock_monotonic(c: CardV, item_id: Seq<char>, n1: int, n2: int)
    requires
        card_has_item(c, item_id),
        c.updated_at <= n1,
        n1 <= n2,
    ensures
        ({
            let c1 = card_after_check_item(c, item_id, true, n1);
            let c2 = card_after_check_item(c1, item_id, false, n2);
            c.updated_at <= c1.updated_at && c1.updated_at <= c2.updated_at
        }),
{
    let c1 = card_after_check_item(c, item_id, true, n1);
    let (jw, kw) = choose|j: int, k: int|
        0 <= j < c.checklists.len() && 0 <= k < c.checklists[j].items.len()
            && c.checklists[j].items[k].id == item_id;
    assert(c1.checklists[jw] == checklist_after_check(c.checklists[jw], item_id, true));
    assert(c1.checklists[jw].items[kw].id == item_id);
    assert(card_has_item(c1, item_id));
}

/// Checking an item and then unchecking it restores the unchecked state,
/// and each call stamps the owning card's update time with its own clock
/// value, so the timestamps grow with the clock.
pub proof fn lemma_check_then_uncheck(c: CardV, item_id: Seq<char>, n1: int, n2: int)
    requires
        card_has_item(c, item_id),
    ensures
        ({
            let c1 = card_after_check_item(c, item_id, true, n1);
            let c2 = card_after_check_item(c1, item_id, false, n2);
            &&& c1.updated_at == n1
            &&& c2.updated_at == n2
            &&& c2.checklists.len() == c.checklists.len()
            &&& forall|j: int, k: int|
                0 <= j < c.checklists.len() && 0 <= k < c.checklists[j].items.len()
                    ==> c2.checklists[j].items[k] == (if (#[trigger] c.checklists[j].items[k]).id
                    == item_id {
                    ChecklistItemV { checked: false, ..c.checklists[j].items[k] }
                } else {
                    c.checklists[j].items[k]
                })
        }),
{
    let c1 = card_after_check_item(c, item_id, true, n1);
    let (jw, kw) = choose|j: int, k: int|
        0 <= j < c.checklists.len() && 0 <= k < c.checklists[j].items.len()
            && c.checklists[j].items[k].id == item_id;
    assert(c1.checklists[jw] == checklist_after_check(c.checklists[jw], item_id, true));
    assert(c1.checklists[jw].items[kw].id == item_id);
    assert(card_has_item(c1, item_id));
    let c2 = card_after_check_item(c1, item_id, false, n2);
    assert forall|j: int, k: int|
        0 <= j < c.checklists.len() && 0 <= k < c.checklists[j].items.len() implies
    c2.checklists[j].items[k] == (if (#[trigger] c.checklists[j].items[k]).id == item_id {
        ChecklistItemV { checked: false, ..c.checklists[j].items[k] }
    } else {
        c.checklists[j].items[k]
    }) by {
        assert(c1.checklists[j] == checklist_after_check(c.checklists[j], item_id, true));
        assert(c2.checklists[j] == checklist_after_check(c1.checklists[j], item_id, false));
        assert(c1.checklists[j].items[k] == (if c.checklists[j].items[k].id == item_id {
            ChecklistItemV { checked: true, ..c.checklists[j].items[k] }
        } else {
            c.checklists[j].items[k]
        }));
    }
}

} // verus!
