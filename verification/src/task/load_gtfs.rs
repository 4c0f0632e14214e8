//! The load orchestrator: for ten freshly parsed row sequences, the
//! statements that replace the store's contents with them, one step at a
//! time, inside one transaction.

use crate::descriptor::DescriptorView;
use crate::mapper::{Batch, BatchView, Statement, StatementView};
use crate::model::gtfs::{
    Agency, Calendar, CalendarDate, Frequency, Route, Shape, Stop, StopTime, Transfer, Trip,
};
use crate::statement::{insert_text, truncate_text};
use crate::task::plan::{insert_target, truncate_target, Entity, Outcome, Phase, Step};
use crate::task::stop_order::{ordered, parents_first, rank_class, sort_stops};
use crate::util::record::{rows_of, Record};
use crate::value::ValueView;
use vstd::prelude::*;

verus! {

/// The rows of one load: one sequence for each record type.
#[derive(Debug)]
pub struct Dataset {
    pub agencies: Vec<Agency>,
    pub routes: Vec<Route>,
    pub stops: Vec<Stop>,
    pub calendars: Vec<Calendar>,
    pub calendar_dates: Vec<CalendarDate>,
    pub trips: Vec<Trip>,
    pub frequencies: Vec<Frequency>,
    pub shapes: Vec<Shape>,
    pub stop_times: Vec<StopTime>,
    pub transfers: Vec<Transfer>,
}

impl Dataset {
    /// The rows of the table of `e`, in order.
    pub open spec fn rows(&self, e: Entity) -> Seq<Seq<ValueView>> {
        match e {
            Entity::Agency => rows_of(self.agencies@),
            Entity::Route => rows_of(self.routes@),
            Entity::Stop => rows_of(self.stops@),
            Entity::Calendar => rows_of(self.calendars@),
            Entity::CalendarDate => rows_of(self.calendar_dates@),
            Entity::Trip => rows_of(self.trips@),
            Entity::Frequency => rows_of(self.frequencies@),
            Entity::Shape => rows_of(self.shapes@),
            Entity::StopTime => rows_of(self.stop_times@),
            Entity::Transfer => rows_of(self.transfers@),
        }
    }
}

impl View for Dataset {
    type V = Map<Entity, Seq<Seq<ValueView>>>;

    /// The rows of every table.
    open spec fn view(&self) -> Map<Entity, Seq<Seq<ValueView>>> {
        Map::total(|e: Entity| self.rows(e))
    }
}

/// The descriptor of the record type of `e`.
pub open spec fn shape_of(e: Entity) -> DescriptorView {
    match e {
        Entity::Agency => Agency::shape(),
        Entity::Route => Route::shape(),
        Entity::Stop => Stop::shape(),
        Entity::Calendar => Calendar::shape(),
        Entity::CalendarDate => CalendarDate::shape(),
        Entity::Trip => Trip::shape(),
        Entity::Frequency => Frequency::shape(),
        Entity::Shape => Shape::shape(),
        Entity::StopTime => StopTime::shape(),
        Entity::Transfer => Transfer::shape(),
    }
}

/// What the driver of a load has to do next.
#[derive(Debug)]
pub enum Action {
    /// Open the transaction.
    Begin,
    /// Execute a statement inside the transaction.
    Execute(Statement),
    /// Execute a batch inside the transaction.
    ExecuteBatch(Batch),
    /// Commit the transaction.
    Commit,
    /// Execute the statement, if there is one, whatever its outcome; then
    /// roll the transaction back.
    Abort(Option<Statement>),
    /// Nothing: the load is over.
    Finished,
}

/// The mathematical form of an [`Action`].
pub ghost enum ActionView {
    Begin,
    Execute(StatementView),
    ExecuteBatch(BatchView),
    Commit,
    Abort(Option<StatementView>),
    Finished,
}

impl View for Action {
    type V = ActionView;

    open spec fn view(&self) -> ActionView {
        match self {
            Action::Begin => ActionView::Begin,
            Action::Execute(s) => ActionView::Execute(s@),
            Action::ExecuteBatch(b) => ActionView::ExecuteBatch(b@),
            Action::Commit => ActionView::Commit,
            Action::Abort(Some(s)) => ActionView::Abort(Some(s@)),
            Action::Abort(None) => ActionView::Abort(None),
            Action::Finished => ActionView::Finished,
        }
    }
}

/// The statement that suspends referential checks.
pub open spec fn suspend_checks() -> StatementView {
    StatementView { text: "SET FOREIGN_KEY_CHECKS = 0"@, params: Seq::empty() }
}

/// The statement that puts referential checks in force again.
pub open spec fn resume_checks() -> StatementView {
    StatementView { text: "SET FOREIGN_KEY_CHECKS = 1"@, params: Seq::empty() }
}

/// The action that carries out `step` for the tables `data`.
pub open spec fn rendered(step: Step, data: Map<Entity, Seq<Seq<ValueView>>>) -> ActionView {
    match step {
        Step::Begin => ActionView::Begin,
        Step::SuspendChecks => ActionView::Execute(suspend_checks()),
        Step::Truncate(e) => ActionView::Execute(
            StatementView { text: truncate_text(shape_of(e)), params: Seq::empty() },
        ),
        Step::ResumeChecks => ActionView::Execute(resume_checks()),
        Step::InsertAll(e) => ActionView::ExecuteBatch(
            BatchView { text: insert_text(shape_of(e)), rows: data[e] },
        ),
        Step::Commit => ActionView::Commit,
        Step::Abort { restore } => ActionView::Abort(
            if restore {
                Some(resume_checks())
            } else {
                None
            },
        ),
        Step::Finished => ActionView::Finished,
    }
}

/// Whether `after` is `before` with its stops sorted for insertion: the
/// same stops, those without a parent station first, ordered by rank, and
/// stops of one rank in the order they came in. The other tables are the
/// same.
pub open spec fn stabilized(before: Dataset, after: Dataset) -> bool {
    &&& after == (Dataset { stops: after.stops, ..before })
    &&& ordered(after.stops@)
    &&& parents_first(after.stops@)
    &&& after.stops@.to_multiset() == before.stops@.to_multiset()
    &&& forall|e: Stop| #[trigger] rank_class(after.stops@, e) == rank_class(before.stops@, e)
}

fn set_checks(on: bool) -> (s: Statement)
    ensures
        s@ == if on {
            resume_checks()
        } else {
            suspend_checks()
        },
{
    let text = if on {
        String::from_str("SET FOREIGN_KEY_CHECKS = 1")
    } else {
        String::from_str("SET FOREIGN_KEY_CHECKS = 0")
    };
    let s = Statement { text, params: Vec::new() };
    assert(s@.params =~= Seq::empty());
    s
}

/// The statement that empties the table of `e`.
pub fn truncate_of(e: Entity) -> (s: Statement)
    ensures
        s@ == (StatementView { text: truncate_text(shape_of(e)), params: Seq::empty() }),
{
    match e {
        Entity::Agency => Agency::destroy_all(),
        Entity::Route => Route::destroy_all(),
        Entity::Stop => Stop::destroy_all(),
        Entity::Calendar => Calendar::destroy_all(),
        Entity::CalendarDate => CalendarDate::destroy_all(),
        Entity::Trip => Trip::destroy_all(),
        Entity::Frequency => Frequency::destroy_all(),
        Entity::Shape => Shape::destroy_all(),
        Entity::StopTime => StopTime::destroy_all(),
        Entity::Transfer => Transfer::destroy_all(),
    }
}

/// The batch that fills the table of `e` with its rows in `data`.
pub fn insert_of(e: Entity, data: &Dataset) -> (b: Batch)
    ensures
        b@ == (BatchView { text: insert_text(shape_of(e)), rows: data@[e] }),
{
    match e {
        Entity::Agency => Agency::save_all(&data.agencies),
        Entity::Route => Route::save_all(&data.routes),
        Entity::Stop => Stop::save_all(&data.stops),
        Entity::Calendar => Calendar::save_all(&data.calendars),
        Entity::CalendarDate => CalendarDate::save_all(&data.calendar_dates),
        Entity::Trip => Trip::save_all(&data.trips),
        Entity::Frequency => Frequency::save_all(&data.frequencies),
        Entity::Shape => Shape::save_all(&data.shapes),
        Entity::StopTime => StopTime::save_all(&data.stop_times),
        Entity::Transfer => Transfer::save_all(&data.transfers),
    }
}

/// One load cycle: the rows to load and how far the load has come.
#[derive(Debug)]
pub struct Loader {
    phase: Phase,
    data: Dataset,
}

impl Loader {
    #[verifier::type_invariant]
    spec fn reachable(&self) -> bool {
        self.phase.valid()
    }

    /// How far the load has come.
    pub closed spec fn current(&self) -> Phase {
        self.phase
    }

    /// The rows that the load puts into the store.
    pub closed spec fn dataset(&self) -> Dataset {
        self.data
    }

    /// A load of `data` that has not begun. The stops are sorted for
    /// insertion first.
    pub fn new(data: Dataset) -> (loader: Loader)
        ensures
            loader.current() == Phase::Idle,
            stabilized(data, loader.dataset()),
    {
        let mut data = data;
        sort_stops(&mut data.stops);
        Loader { phase: Phase::Idle, data }
    }

    /// How far the load has come.
    pub fn phase(&self) -> (p: Phase)
        ensures
            p == self.current(),
            p.valid(),
    {
        proof {
            use_type_invariant(self);
        }
        self.phase
    }

    /// The rows that the load puts into the store.
    pub fn data(&self) -> (d: &Dataset)
        ensures
            *d == self.dataset(),
    {
        &self.data
    }

    /// The action that the current phase calls for.
    pub fn pending(&self) -> (action: Action)
        ensures
            action@ == rendered(self.current().planned(), self.dataset()@),
    {
        proof {
            use_type_invariant(self);
        }
        match self.phase {
            Phase::Idle => Action::Begin,
            Phase::TransactionOpen => Action::Execute(set_checks(false)),
            Phase::ChecksSuspended => Action::Execute(truncate_of(truncate_target(0))),
            Phase::Truncating { done } => {
                if done < 10 {
                    Action::Execute(truncate_of(truncate_target(done)))
                } else {
                    Action::Execute(set_checks(true))
                }
            },
            Phase::ChecksResumed => Action::ExecuteBatch(insert_of(insert_target(0), &self.data)),
            Phase::Inserting { done } => {
                if done < 10 {
                    Action::ExecuteBatch(insert_of(insert_target(done), &self.data))
                } else {
                    Action::Commit
                }
            },
            Phase::Committed => Action::Finished,
            Phase::Aborted => Action::Finished,
        }
    }

    /// Takes note of the outcome of the pending action and says what to do
    /// next. On success the load moves to the next phase and its action is
    /// returned. On the first failure the load is aborted: if a transaction
    /// is open, the action is its abort, which first puts referential checks
    /// in force again if they were suspended. Once the load is over, the
    /// phase stays and the action is `Finished`.
    pub fn step(&mut self, outcome: Outcome) -> (action: Action)
        ensures
            final(self).current() == old(self).current().after(outcome),
            final(self).dataset() == old(self).dataset(),
            action@ == rendered(old(self).current().response(outcome), old(self).dataset()@),
    {
        proof {
            use_type_invariant(&*self);
        }
        let before = self.phase;
        match outcome {
            Outcome::Succeeded => {
                self.phase = match before {
                    Phase::Idle => Phase::TransactionOpen,
                    Phase::TransactionOpen => Phase::ChecksSuspended,
                    Phase::ChecksSuspended => Phase::Truncating { done: 1 },
                    Phase::Truncating { done } => {
                        if done < 10 {
                            Phase::Truncating { done: done + 1 }
                        } else {
                            Phase::ChecksResumed
                        }
                    },
                    Phase::ChecksResumed => Phase::Inserting { done: 1 },
                    Phase::Inserting { done } => {
                        if done < 10 {
                            Phase::Inserting { done: done + 1 }
                        } else {
                            Phase::Committed
                        }
                    },
                    Phase::Committed => Phase::Committed,
                    Phase::Aborted => Phase::Aborted,
                };
                self.pending()
            },
            Outcome::Failed => {
                match before {
                    Phase::Committed => Action::Finished,
                    Phase::Aborted => Action::Finished,
                    Phase::Idle => {
                        self.phase = Phase::Aborted;
                        Action::Finished
                    },
                    Phase::ChecksSuspended => {
                        self.phase = Phase::Aborted;
                        Action::Abort(Some(set_checks(true)))
                    },
                    Phase::Truncating { done } => {
                        self.phase = Phase::Aborted;
                        Action::Abort(Some(set_checks(true)))
                    },
                    _ => {
                        self.phase = Phase::Aborted;
                        Action::Abort(None)
                    },
                }
            },
        }
    }
}

} // verus!
