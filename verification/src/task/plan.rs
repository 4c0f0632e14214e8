//! The plan of one load cycle: the tables in their two fixed orders, the
//! phases of the cycle and the step that each phase calls for.

use vstd::prelude::*;

verus! {

/// The ten record types of a feed.
#[derive(Clone, Copy, Debug, PartialEq, Eq, Structural)]
pub enum Entity {
    Agency,
    Route,
    Stop,
    Calendar,
    CalendarDate,
    Trip,
    Frequency,
    Shape,
    StopTime,
    Transfer,
}

/// Whether rows of `child` hold a reference to rows of `parent`.
pub open spec fn references(child: Entity, parent: Entity) -> bool {
    match (child, parent) {
        (Entity::Route, Entity::Agency) => true,
        (Entity::Stop, Entity::Stop) => true,
        (Entity::CalendarDate, Entity::Calendar) => true,
        (Entity::Trip, Entity::Route) => true,
        (Entity::Trip, Entity::Calendar) => true,
        (Entity::Trip, Entity::Shape) => true,
        (Entity::Frequency, Entity::Trip) => true,
        (Entity::StopTime, Entity::Trip) => true,
        (Entity::StopTime, Entity::Stop) => true,
        (Entity::Transfer, Entity::Stop) => true,
        _ => false,
    }
}

/// The order in which the tables are emptied: referencing tables before
/// the tables they reference.
pub open spec fn truncate_order() -> Seq<Entity> {
    seq![
        Entity::Transfer,
        Entity::Frequency,
        Entity::StopTime,
        Entity::Trip,
        Entity::CalendarDate,
        Entity::Calendar,
        Entity::Route,
        Entity::Stop,
        Entity::Shape,
        Entity::Agency,
    ]
}

/// The order in which the tables are filled: each table after all tables
/// that it references.
pub open spec fn insert_order() -> Seq<Entity> {
    seq![
        Entity::Agency,
        Entity::Shape,
        Entity::Stop,
        Entity::Route,
        Entity::Calendar,
        Entity::CalendarDate,
        Entity::Trip,
        Entity::StopTime,
        Entity::Frequency,
        Entity::Transfer,
    ]
}

/// The position of `e` in the truncate order.
pub open spec fn truncate_rank(e: Entity) -> int {
    match e {
        Entity::Transfer => 0,
        Entity::Frequency => 1,
        Entity::StopTime => 2,
        Entity::Trip => 3,
        Entity::CalendarDate => 4,
        Entity::Calendar => 5,
        Entity::Route => 6,
        Entity::Stop => 7,
        Entity::Shape => 8,
        Entity::Agency => 9,
    }
}

/// The position of `e` in the insert order.
pub open spec fn insert_rank(e: Entity) -> int {
    match e {
        Entity::Agency => 0,
        Entity::Shape => 1,
        Entity::Stop => 2,
        Entity::Route => 3,
        Entity::Calendar => 4,
        Entity::CalendarDate => 5,
        Entity::Trip => 6,
        Entity::StopTime => 7,
        Entity::Frequency => 8,
        Entity::Transfer => 9,
    }
}

/// Each of the two orders holds every table exactly once, at the position
/// that its rank names.
pub proof fn lemma_orders_complete()
    ensures
        truncate_order().len() == 10,
        insert_order().len() == 10,
        forall|e: Entity| 0 <= #[trigger] truncate_rank(e) < 10 && truncate_order()[truncate_rank(e)] == e,
        forall|e: Entity| 0 <= #[trigger] insert_rank(e) < 10 && insert_order()[insert_rank(e)] == e,
        forall|k: int| 0 <= k < 10 ==> truncate_rank(#[trigger] truncate_order()[k]) == k,
        forall|k: int| 0 <= k < 10 ==> insert_rank(#[trigger] insert_order()[k]) == k,
{
}

/// A table is emptied before every other table that it references, and
/// filled after every other table that it references.
pub proof fn lemma_orders_respect_references(child: Entity, parent: Entity)
    requires
        references(child, parent),
        child != parent,
    ensures
        truncate_rank(child) < truncate_rank(parent),
        insert_rank(parent) < insert_rank(child),
{
}

/// The table at position `k` of the truncate order.
pub fn truncate_target(k: usize) -> (e: Entity)
    requires
        k < 10,
    ensures
        e == truncate_order()[k as int],
{
    match k {
        0 => Entity::Transfer,
        1 => Entity::Frequency,
        2 => Entity::StopTime,
        3 => Entity::Trip,
        4 => Entity::CalendarDate,
        5 => Entity::Calendar,
        6 => Entity::Route,
        7 => Entity::Stop,
        8 => Entity::Shape,
        _ => Entity::Agency,
    }
}

/// The table at position `k` of the insert order.
pub fn insert_target(k: usize) -> (e: Entity)
    requires
        k < 10,
    ensures
        e == insert_order()[k as int],
{
    match k {
        0 => Entity::Agency,
        1 => Entity::Shape,
        2 => Entity::Stop,
        3 => Entity::Route,
        4 => Entity::Calendar,
        5 => Entity::CalendarDate,
        6 => Entity::Trip,
        7 => Entity::StopTime,
        8 => Entity::Frequency,
        _ => Entity::Transfer,
    }
}

/// How far one load cycle has come. Each phase names what the store has
/// acknowledged last.
#[derive(Clone, Copy, Debug, PartialEq, Eq, Structural)]
pub enum Phase {
    /// Nothing has been asked of the store.
    Idle,
    /// The transaction is open.
    TransactionOpen,
    /// Referential checks are suspended; no table has been emptied.
    ChecksSuspended,
    /// The first `done` tables of the truncate order are empty.
    Truncating { done: usize },
    /// Every table is empty and referential checks are in force again.
    ChecksResumed,
    /// The first `done` tables of the insert order are filled.
    Inserting { done: usize },
    /// The transaction is committed.
    Committed,
    /// The cycle has failed; nothing of it persists.
    Aborted,
}

/// How the store answered a step.
#[derive(Clone, Copy, Debug, PartialEq, Eq, Structural)]
pub enum Outcome {
    Succeeded,
    Failed,
}

/// What is asked of the store, by its meaning.
#[derive(Clone, Copy, Debug, PartialEq, Eq, Structural)]
pub enum Step {
    /// Open the transaction.
    Begin,
    /// Suspend referential checks.
    SuspendChecks,
    /// Remove every row of a table.
    Truncate(Entity),
    /// Put referential checks in force again.
    ResumeChecks,
    /// Insert the rows of a table as one batch.
    InsertAll(Entity),
    /// Commit the transaction.
    Commit,
    /// Roll the transaction back; before that, put referential checks in
    /// force again if `restore` is set.
    Abort { restore: bool },
    /// Nothing: the cycle is over.
    Finished,
}

impl Phase {
    /// Whether the counter of the phase is one that a cycle can reach.
    pub open spec fn valid(self) -> bool {
        match self {
            Phase::Truncating { done } => 1 <= done <= 10,
            Phase::Inserting { done } => 1 <= done <= 10,
            _ => true,
        }
    }

    /// Whether the cycle is over.
    pub open spec fn terminal(self) -> bool {
        self == Phase::Committed || self == Phase::Aborted
    }

    /// Whether referential checks are suspended in this phase.
    pub open spec fn checks_suspended(self) -> bool {
        self == Phase::ChecksSuspended || self is Truncating
    }

    /// The step that the phase calls for.
    pub open spec fn planned(self) -> Step {
        match self {
            Phase::Idle => Step::Begin,
            Phase::TransactionOpen => Step::SuspendChecks,
            Phase::ChecksSuspended => Step::Truncate(truncate_order()[0]),
            Phase::Truncating { done } => if done < 10 {
                Step::Truncate(truncate_order()[done as int])
            } else {
                Step::ResumeChecks
            },
            Phase::ChecksResumed => Step::InsertAll(insert_order()[0]),
            Phase::Inserting { done } => if done < 10 {
                Step::InsertAll(insert_order()[done as int])
            } else {
                Step::Commit
            },
            Phase::Committed => Step::Finished,
            Phase::Aborted => Step::Finished,
        }
    }

    /// The phase that follows when the planned step has succeeded.
    pub open spec fn advanced(self) -> Phase {
        match self {
            Phase::Idle => Phase::TransactionOpen,
            Phase::TransactionOpen => Phase::ChecksSuspended,
            Phase::ChecksSuspended => Phase::Truncating { done: 1 },
            Phase::Truncating { done } => if done < 10 {
                Phase::Truncating { done: (done + 1) as usize }
            } else {
                Phase::ChecksResumed
            },
            Phase::ChecksResumed => Phase::Inserting { done: 1 },
            Phase::Inserting { done } => if done < 10 {
                Phase::Inserting { done: (done + 1) as usize }
            } else {
                Phase::Committed
            },
            Phase::Committed => Phase::Committed,
            Phase::Aborted => Phase::Aborted,
        }
    }

    /// The phase that follows the outcome of the planned step: the first
    /// failure ends the cycle.
    pub open spec fn after(self, outcome: Outcome) -> Phase {
        match outcome {
            Outcome::Succeeded => self.advanced(),
            Outcome::Failed => if self.terminal() {
                self
            } else {
                Phase::Aborted
            },
        }
    }

    /// The step to take on the outcome of the planned step: the next
    /// planned step on success; on failure the abort of the transaction, if
    /// one is open.
    pub open spec fn response(self, outcome: Outcome) -> Step {
        match outcome {
            Outcome::Succeeded => self.advanced().planned(),
            Outcome::Failed => if self.terminal() || self == Phase::Idle {
                Step::Finished
            } else {
                Step::Abort { restore: self.checks_suspended() }
            },
        }
    }
}

/// The number of steps of a cycle in which nothing fails.
pub open spec fn script_len() -> nat {
    24
}

/// The phase that a cycle is in when its first `k` steps have succeeded.
pub open spec fn milestone(k: nat) -> Phase {
    if k == 0 {
        Phase::Idle
    } else if k == 1 {
        Phase::TransactionOpen
    } else if k == 2 {
        Phase::ChecksSuspended
    } else if k <= 12 {
        Phase::Truncating { done: (k - 2) as usize }
    } else if k == 13 {
        Phase::ChecksResumed
    } else if k <= 23 {
        Phase::Inserting { done: (k - 13) as usize }
    } else {
        Phase::Committed
    }
}

/// The steps of a cycle in which nothing fails: the opening of the
/// transaction, the suspension of checks, ten truncations, the resumption
/// of checks, ten batch inserts, and the commit.
pub open spec fn script() -> Seq<Step> {
    seq![Step::Begin, Step::SuspendChecks] + truncate_order().map_values(
        |e: Entity| Step::Truncate(e),
    ) + seq![Step::ResumeChecks] + insert_order().map_values(|e: Entity| Step::InsertAll(e))
        + seq![Step::Commit]
}

/// The phase reached from `start` when the planned steps have had the
/// outcomes `outcomes`, in order.
pub open spec fn phase_after(start: Phase, outcomes: Seq<Outcome>) -> Phase
    decreases outcomes.len(),
{
    if outcomes.len() == 0 {
        start
    } else {
        phase_after(start, outcomes.drop_last()).after(outcomes.last())
    }
}

/// `k` successes.
pub open spec fn successes(k: nat) -> Seq<Outcome> {
    Seq::new(k, |i: int| Outcome::Succeeded)
}

/// Every phase that follows a valid phase is valid.
pub proof fn lemma_after_valid(p: Phase, outcome: Outcome)
    requires
        p.valid(),
    ensures
        p.after(outcome).valid(),
{
}

/// While nothing fails, a cycle passes through the milestones in order and
/// takes the steps of the script: after `k` successes it is in the phase
/// `milestone(k)`, whose planned step is the script's step `k`.
pub proof fn lemma_success_path(k: nat)
    requires
        k <= script_len(),
    ensures
        phase_after(Phase::Idle, successes(k)) == milestone(k),
        milestone(k).valid(),
        k < script_len() ==> milestone(k).planned() == script()[k as int],
        k == script_len() ==> milestone(k) == Phase::Committed,
    decreases k,
{
    if k > 0 {
        lemma_success_path((k - 1) as nat);
        assert(successes(k).drop_last() =~= successes((k - 1) as nat));
        assert(milestone((k - 1) as nat).advanced() == milestone(k));
    }
    assert(script().len() == 24);
}

/// The first failure ends the cycle: whatever number of steps succeeded
/// before it, the cycle is then aborted, the response is the abort of the
/// transaction if one was open, and no later outcome changes the phase.
pub proof fn lemma_failure_aborts(k: nat, later: Outcome)
    requires
        k < script_len(),
    ensures
        phase_after(Phase::Idle, successes(k).push(Outcome::Failed)) == Phase::Aborted,
        k > 0 ==> milestone(k).response(Outcome::Failed) is Abort,
        Phase::Aborted.after(later) == Phase::Aborted,
        Phase::Aborted.response(later) == Step::Finished,
{
    lemma_success_path(k);
    assert(successes(k).push(Outcome::Failed).drop_last() =~= successes(k));
}

} // verus!
