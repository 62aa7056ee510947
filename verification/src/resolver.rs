//! The assignment resolver: decides, from the update request flags and the
//! ambient caller identity, the tri-state assignment patch of a card
//! update, auto-provisioning an acting identity when none exists.

use vstd::prelude::*;

verus! {

use vstd::string::StringExecFns;
use crate::models::{Agent, AgentBoardError, AssignPatch, CardUpdate, Status};
use crate::store::{Database, card_after_update_at, has_active_card};
use crate::ids::is_agent_id;

/// What the resolver decides: leave the assignment alone, clear it, set it
/// to a known identity, or provision a fresh identity and use that.
#[derive(Debug)]
pub enum AssignmentDecision {
    NoChange,
    Clear,
    SetTo(String),
    Provision,
}

/// The resolution rules, in order: an explicit "null" clears, an explicit
/// value assigns, the assign-to-me flag or a move to InProgress falls back
/// to the ambient identity and provisions one if none is configured;
/// otherwise nothing changes.
pub open spec fn spec_resolve(
    assign: Option<String>,
    assign_to_me: bool,
    status: Option<Status>,
    ambient: Option<String>,
) -> AssignmentDecision {
    match assign {
        Some(v) => if v@ == "null"@ {
            AssignmentDecision::Clear
        } else {
            AssignmentDecision::SetTo(v)
        },
        None => {
            if assign_to_me || status == Some(Status::InProgress) {
                match ambient {
                    Some(a) => AssignmentDecision::SetTo(a),
                    None => AssignmentDecision::Provision,
                }
            } else {
                AssignmentDecision::NoChange
            }
        },
    }
}

/// Computes the assignment decision for a card update request.
pub fn resolve_assignment(
    assign: &Option<String>,
    assign_to_me: bool,
    status: &Option<Status>,
    ambient: &Option<String>,
) -> (d: AssignmentDecision)
    ensures
        d == spec_resolve(*assign, assign_to_me, *status, *ambient),
{
    match assign {
        Some(v) => {
            if crate::ids::str_eq(v.as_str(), "null") {
                AssignmentDecision::Clear
            } else {
                AssignmentDecision::SetTo(v.clone())
            }
        },
        None => {
            let wants_identity = assign_to_me || match status {
                Some(st) => *st == Status::InProgress,
                None => false,
            };
            if wants_identity {
                match ambient {
                    Some(a) => AssignmentDecision::SetTo(a.clone()),
                    None => AssignmentDecision::Provision,
                }
            } else {
                AssignmentDecision::NoChange
            }
        },
    }
}

/// The assignment patch that ends up in the applied update: a provisioning
/// decision uses the freshly created agent's ID.
pub open spec fn applied_patch(d: AssignmentDecision, provisioned: Option<Agent>) -> AssignPatch {
    match d {
        AssignmentDecision::NoChange => AssignPatch::NoChange,
        AssignmentDecision::Clear => AssignPatch::Clear,
        AssignmentDecision::SetTo(v) => AssignPatch::SetTo(v),
        AssignmentDecision::Provision => match provisioned {
            Some(a) => AssignPatch::SetTo(a.id),
            None => AssignPatch::NoChange,
        },
    }
}

/// The update that a card update request applies, given the provisioning
/// outcome.
pub open spec fn applied_update(
    name: Option<String>,
    description: Option<String>,
    status: Option<Status>,
    d: AssignmentDecision,
    provisioned: Option<Agent>,
    add_tags: Vec<String>,
    remove_tags: Vec<String>,
) -> CardUpdate {
    CardUpdate {
        name: name,
        description: description,
        status: status,
        assignment: applied_patch(d, provisioned),
        add_tags: add_tags,
        remove_tags: remove_tags,
    }
}

impl Database {
    /// Handles a whole card update request: resolves the assignment,
    /// provisions an acting identity at most once if the rules call for
    /// one, then applies the patch. A newly created identity is returned
    /// so the caller can persist it for future invocations.
    pub fn update_card_request(
        &mut self,
        card_id: &str,
        name: Option<String>,
        description: Option<String>,
        status: Option<Status>,
        assign: Option<String>,
        assign_to_me: bool,
        add_tags: Vec<String>,
        remove_tags: Vec<String>,
        ambient: Option<String>,
        workdir: String,
        now: i64,
    ) -> (r: Result<Option<Agent>, AgentBoardError>)
        requires
            old(self)@.wf(),
        ensures
            final(self)@.wf(),
            final(self)@.boards == old(self)@.boards,
            final(self)@.comments == old(self)@.comments,
            match r {
                Ok(provisioned) => {
                    &&& has_active_card(old(self)@, card_id@)
                    &&& (match provisioned {
                        Some(a) => {
                            &&& spec_resolve(assign, assign_to_me, status, ambient)
                                is Provision
                            &&& is_agent_id(a@.id)
                            &&& a@.name.len() > 0
                            &&& a@.command == "stakpak"@
                            &&& a@.working_directory == workdir@
                            &&& a@.deactivated_at is None
                            &&& final(self)@.agents == old(self)@.agents.push(a@)
                        },
                        None => {
                            &&& !(spec_resolve(assign, assign_to_me, status, ambient)
                                is Provision)
                            &&& final(self)@.agents == old(self)@.agents
                        },
                    })
                    &&& final(self)@.cards.len() == old(self)@.cards.len()
                    &&& forall|k: int|
                        0 <= k < old(self)@.cards.len() ==> final(self)@.cards[k]
                            == card_after_update_at(
                            #[trigger] old(self)@.cards[k],
                            card_id@,
                            applied_update(
                                name,
                                description,
                                status,
                                spec_resolve(assign, assign_to_me, status, ambient),
                                provisioned,
                                add_tags,
                                remove_tags,
                            ),
                            now as int,
                        )
                },
                Err(e) => {
                    &&& final(self)@.cards == old(self)@.cards
                    &&& (e is NotFound ==> !has_active_card(old(self)@, card_id@))
                    &&& (final(self)@.agents == old(self)@.agents || exists|a: crate::models::AgentV|
                        final(self)@.agents == old(self)@.agents.push(a))
                    &&& (!(spec_resolve(assign, assign_to_me, status, ambient) is Provision)
                        ==> e is NotFound && final(self)@ == old(self)@ && !has_active_card(
                        old(self)@,
                        card_id@,
                    ))
                },
            },
    {
        let decision = resolve_assignment(&assign, assign_to_me, &status, &ambient);
        let mut provisioned: Option<Agent> = None;
        let patch: AssignPatch = match decision {
            AssignmentDecision::NoChange => AssignPatch::NoChange,
            AssignmentDecision::Clear => AssignPatch::Clear,
            AssignmentDecision::SetTo(v) => AssignPatch::SetTo(v),
            AssignmentDecision::Provision => {
                let agent = match self.register_agent(
                    None,
                    String::from_str("stakpak"),
                    workdir,
                    None,
                    now,
                ) {
                    Ok(a) => a,
                    Err(e) => {
                        return Err(e);
                    },
                };
                let id = agent.id.clone();
                provisioned = Some(agent);
                AssignPatch::SetTo(id)
            },
        };
        let update = CardUpdate {
            name,
            description,
            status,
            assignment: patch,
            add_tags,
            remove_tags,
        };
        match self.update_card(card_id, update, now) {
            Ok(()) => Ok(provisioned),
            Err(e) => Err(e),
        }
    }
}

} // verus!
