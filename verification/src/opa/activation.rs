//! Activation of a complete configuration: policy, middleware and credentials
//! become live together, or nothing changes.

use crate::opa::engine;
use crate::opa::engine::{DataModel, EngineView, OpaEngine, PreparedData, RulesTurn};
use vstd::prelude::*;

verus! {

/// What is done to activate a configuration whose policy is in place.
#[derive(Debug, Clone, Copy, PartialEq, Eq, Structural)]
pub enum ActivationAction {
    /// Publish the generation. Guards of any other generation are stale from
    /// then on.
    Publish(u64),
    /// Commit the prepared credentials.
    CommitCredentials,
    /// Replace the middleware runner.
    ReplaceRunner,
}

/// The actions of an activation, in order. Guards are stale before the
/// credentials change.
pub open spec fn activation_actions(generation: u64, replaces_runner: bool) -> Seq<
    ActivationAction,
> {
    let first = seq![ActivationAction::Publish(generation), ActivationAction::CommitCredentials];
    if replaces_runner {
        first.push(ActivationAction::ReplaceRunner)
    } else {
        first
    }
}

/// The engine that the built-in rules and data make, or why they make none.
pub open spec fn candidate(baked_rules: Seq<char>, data: DataModel) -> Result<
    EngineView,
    Seq<char>,
> {
    match engine::load_fault("policy.rego"@, baked_rules, data, RulesTurn::Last) {
        Some(fault) => Err(fault),
        None => Ok(engine::fresh("policy.rego"@, baked_rules, data->Ready_0, true)),
    }
}

/// What the outcome of an activation denotes.
pub open spec fn activation_outcome(r: Result<Vec<ActivationAction>, String>) -> Result<
    Seq<ActivationAction>,
    Seq<char>,
> {
    match r {
        Ok(actions) => Ok(actions@),
        Err(message) => Err(message@),
    }
}

/// Whether an activation takes an engine from one state to another with an
/// outcome: the candidate takes the place of rules and data, or nothing changes
/// and nothing is done.
pub open spec fn activates(
    before: EngineView,
    after: EngineView,
    candidate: Result<EngineView, Seq<char>>,
    replaces_runner: bool,
    outcome: Result<Seq<ActivationAction>, Seq<char>>,
) -> bool {
    match candidate {
        Ok(new) => {
            &&& after == engine::reloaded(before, new)
            &&& outcome == Ok::<Seq<ActivationAction>, Seq<char>>(
                activation_actions(after.generation, replaces_runner),
            )
        },
        Err(message) => {
            &&& after == before
            &&& outcome == Err::<Seq<ActivationAction>, Seq<char>>(message)
        },
    }
}

impl OpaEngine {
    /// Puts a validated policy in place and says what is done, in order, to
    /// make the whole configuration live. Where the policy does not load,
    /// nothing changes and nothing is done.
    pub fn reload_configuration_from_proto_with_pid(
        &mut self,
        baked_rules: &str,
        data: &PreparedData,
        replaces_runner: bool,
    ) -> (r: Result<Vec<ActivationAction>, String>)
        ensures
            activates(
                old(self)@,
                final(self)@,
                candidate(baked_rules@, data@),
                replaces_runner,
                activation_outcome(r),
            ),
    {
        if let Err(message) = self.reload_from_proto(baked_rules, data) {
            return Err(message);
        }
        let mut actions: Vec<ActivationAction> = Vec::new();
        actions.push(ActivationAction::Publish(self.current_generation()));
        actions.push(ActivationAction::CommitCredentials);
        if replaces_runner {
            actions.push(ActivationAction::ReplaceRunner);
        }
        assert(actions@ == activation_actions(self@.generation, replaces_runner));
        Ok(actions)
    }
}

/// What the rest of the supervisor sees of a configuration.
#[verifier::ext_equal]
pub struct Live {
    /// The generation that guards compare theirs with.
    pub published: u64,
    /// For each commit of credentials, the generation that was published then.
    pub commits: Seq<u64>,
    /// How often the middleware runner was replaced.
    pub runners: nat,
}

/// What is seen after an action.
pub open spec fn performed(live: Live, action: ActivationAction) -> Live {
    match action {
        ActivationAction::Publish(generation) => Live { published: generation, ..live },
        ActivationAction::CommitCredentials => Live {
            commits: live.commits.push(live.published),
            ..live
        },
        ActivationAction::ReplaceRunner => Live { runners: live.runners + 1, ..live },
    }
}

/// What is seen after actions, one after the other.
pub open spec fn all_performed(live: Live, actions: Seq<ActivationAction>) -> Live
    decreases actions.len(),
{
    if actions.len() == 0 {
        live
    } else {
        performed(all_performed(live, actions.drop_last()), actions.last())
    }
}

/// What is seen after an activation that ended in an outcome.
pub open spec fn live_after(
    live: Live,
    outcome: Result<Seq<ActivationAction>, Seq<char>>,
) -> Live {
    match outcome {
        Ok(actions) => all_performed(live, actions),
        Err(_) => live,
    }
}

/// An activation is whole or nothing. Where it succeeds, the credentials are
/// committed exactly once, at a moment when all guards of the generation before
/// are stale; then the next generation is live, there is no quarantine, the
/// identity requirement stays, and the runner is replaced exactly where a new
/// one was given. Where it fails, no credentials are committed, and policy,
/// runner, quarantine and generation stay as they were.
pub proof fn activation_is_whole_or_nothing(
    before: EngineView,
    after: EngineView,
    candidate: Result<EngineView, Seq<char>>,
    replaces_runner: bool,
    outcome: Result<Seq<ActivationAction>, Seq<char>>,
    live: Live,
)
    requires
        activates(before, after, candidate, replaces_runner, outcome),
        live.published == before.generation,
    ensures
        ({
            let then = live_after(live, outcome);
            &&& outcome is Ok ==> {
                &&& then.commits.len() == live.commits.len() + 1
                &&& then.commits.drop_last() == live.commits
                &&& then.commits.last() != before.generation
                &&& then.published == engine::next_generation(before.generation)
                &&& after.generation == then.published
                &&& after.quarantine is None
                &&& after.binary_identity_required == before.binary_identity_required
                &&& then.runners == live.runners + if replaces_runner {
                    1int
                } else {
                    0int
                }
            }
            &&& outcome is Err ==> after == before && then == live
        }),
{
    if let Ok(actions) = outcome {
        let publish = ActivationAction::Publish(after.generation);
        let commit = ActivationAction::CommitCredentials;
        let published = performed(live, publish);
        let committed = performed(published, commit);
        let first = seq![publish, commit];
        assert(seq![publish].drop_last() == Seq::<ActivationAction>::empty());
        assert(all_performed(live, seq![publish].drop_last()) == live);
        assert(all_performed(live, seq![publish]) == published);
        assert(first.drop_last() == seq![publish]);
        assert(all_performed(live, first) == committed);
        assert(committed.commits.drop_last() == live.commits);
        if replaces_runner {
            assert(actions.drop_last() == first);
        }
    }
}

} // verus!
