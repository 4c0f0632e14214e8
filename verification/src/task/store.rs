//! A model of the store during a load, and what a load does to it. The
//! model holds the rows of each table twice: as committed, which other
//! readers see, and as the open transaction sees them.

use crate::task::load_gtfs::{stabilized, Dataset};
use crate::task::plan::{
    insert_order, insert_rank, lemma_orders_complete, lemma_success_path, milestone, script,
    script_len, truncate_order, truncate_rank, Entity, Step,
};
use crate::task::stop_order::lemma_parent_precedes_child;
use crate::util::record::{conforms, rows_of, Record};
use crate::value::ValueView;
use vstd::prelude::*;

verus! {

/// The rows of each table.
pub type Tables = Map<Entity, Seq<Seq<ValueView>>>;

/// The store as one load sees it.
pub ghost struct Session {
    /// The rows that are committed.
    pub committed: Tables,
    /// The rows as the open transaction sees them.
    pub working: Tables,
}

/// The session after `step` has succeeded, when the rows to load are
/// `data`. A truncation leaves its table without rows, a batch insert adds
/// its rows behind those that the table has, a commit makes the
/// transaction's rows the committed ones, and an abort discards them.
pub open spec fn effect(s: Session, step: Step, data: Tables) -> Session {
    match step {
        Step::Begin => Session { working: s.committed, ..s },
        Step::Truncate(e) => Session { working: s.working.insert(e, Seq::empty()), ..s },
        Step::InsertAll(e) => Session { working: s.working.insert(e, s.working[e] + data[e]), ..s },
        Step::Commit => Session { committed: s.working, ..s },
        Step::Abort { restore } => Session { working: s.committed, ..s },
        Step::SuspendChecks => s,
        Step::ResumeChecks => s,
        Step::Finished => s,
    }
}

/// The session after each of `steps` has succeeded, in order.
pub open spec fn effects(s: Session, steps: Seq<Step>, data: Tables) -> Session
    decreases steps.len(),
{
    if steps.len() == 0 {
        s
    } else {
        effect(effects(s, steps.drop_last(), data), steps.last(), data)
    }
}

/// Truncation is idempotent: a second truncation of a table leaves the
/// session as the first left it, with no rows in the table.
pub proof fn lemma_truncate_idempotent(s: Session, e: Entity, data: Tables)
    ensures
        effect(s, Step::Truncate(e), data).working[e] == Seq::<Seq<ValueView>>::empty(),
        effect(effect(s, Step::Truncate(e), data), Step::Truncate(e), data) == effect(
            s,
            Step::Truncate(e),
            data,
        ),
{
    let once = effect(s, Step::Truncate(e), data);
    assert(once.working.insert(e, Seq::empty()) =~= once.working);
}

/// A batch insert into an emptied table leaves exactly the inserted rows,
/// in order. Each of them is the row of one of `items` and fits the record
/// type, so reading the table back gives the records that were saved.
pub proof fn lemma_insert_then_fetch<T: Record>(s: Session, e: Entity, items: Seq<T>, data: Tables)
    requires
        data.dom().contains(e),
        data[e] == rows_of(items),
    ensures
        ({
            let emptied = effect(s, Step::Truncate(e), data);
            let filled = effect(emptied, Step::InsertAll(e), data);
            &&& filled.working[e] == rows_of(items)
            &&& forall|k: int|
                0 <= k < items.len() ==> conforms(T::shape().fields, #[trigger] filled.working[e][k])
        }),
{
    let emptied = effect(s, Step::Truncate(e), data);
    let filled = effect(emptied, Step::InsertAll(e), data);
    assert(filled.working[e] =~= rows_of(items));
    assert forall|k: int| 0 <= k < items.len() implies conforms(
        T::shape().fields,
        #[trigger] filled.working[e][k],
    ) by {
        items[k].lemma_row_conforms();
    }
}

/// What the transaction sees of the table of `e` when the first `k` steps
/// of the script have succeeded, from the moment the table is emptied.
pub open spec fn seen(k: nat, e: Entity, data: Tables) -> Seq<Seq<ValueView>> {
    if k > 13 + insert_rank(e) {
        data[e]
    } else {
        Seq::empty()
    }
}

/// While the script runs, the committed rows stay as they were, and each
/// table is seen empty from its truncation to its batch insert, and with
/// the rows to load from then on.
pub proof fn lemma_script_progress(s: Session, data: Tables, k: nat)
    requires
        1 <= k < script_len(),
    ensures
        effects(s, script().take(k as int), data).committed == s.committed,
        forall|e: Entity|
            k > 2 + #[trigger] truncate_rank(e) ==> effects(
                s,
                script().take(k as int),
                data,
            ).working.dom().contains(e) && effects(s, script().take(k as int), data).working[e]
                == seen(k, e, data),
    decreases k,
{
    lemma_orders_complete();
    assert(script().len() == 24);
    let steps = script().take(k as int);
    assert(steps.drop_last() =~= script().take(k - 1));
    assert(steps.last() == script()[k - 1]);
    lemma_success_path((k - 1) as nat);
    if k == 1 {
        assert(script().take(0) =~= Seq::<Step>::empty());
    } else {
        lemma_script_progress(s, data, (k - 1) as nat);
        let before = effects(s, script().take(k - 1), data);
        let now = effects(s, steps, data);
        assert(now == effect(before, script()[k - 1], data));
        assert forall|e: Entity| k > 2 + #[trigger] truncate_rank(e) implies now.working.dom().contains(
            e,
        ) && now.working[e] == seen(k, e, data) by {
            if 3 <= k <= 12 {
                let target = truncate_order()[k - 3];
                assert(script()[k - 1] == Step::Truncate(target));
                assert(truncate_rank(target) == k - 3);
            } else if 14 <= k <= 23 {
                let target = insert_order()[k - 14];
                assert(script()[k - 1] == Step::InsertAll(target));
                assert(insert_rank(target) == k - 14);
                if e == target {
                    assert(before.working[e] == seen((k - 1) as nat, e, data));
                    assert(now.working[e] =~= data[e]);
                }
            }
        }
    }
}

/// A load in which nothing fails replaces the store's contents: whatever
/// the store held, it then holds the rows of `data` and no others. So a
/// second load of the same rows leaves what the first left.
pub proof fn lemma_load_replaces(s: Session, data: Dataset)
    ensures
        effects(s, script(), data@).committed == data@,
        effects(effects(s, script(), data@), script(), data@).committed == data@,
{
    lemma_script_done(s, data@);
    lemma_script_done(effects(s, script(), data@), data@);
}

proof fn lemma_script_done(s: Session, data: Tables)
    requires
        data.dom() == Set::<Entity>::full(),
    ensures
        effects(s, script(), data).committed == data,
{
    assert(script().len() == 24);
    lemma_script_progress(s, data, 23);
    lemma_success_path(23);
    assert(script().drop_last() =~= script().take(23));
    let last = effects(s, script().take(23), data);
    let end = effects(s, script(), data);
    assert(end == effect(last, Step::Commit, data));
    assert forall|e: Entity| #[trigger] end.committed.dom().contains(e) by {
        assert(23 > 2 + truncate_rank(e));
    }
    assert forall|e: Entity| #[trigger] end.committed[e] == data[e] by {
        assert(23 > 2 + truncate_rank(e));
    }
    assert(end.committed =~= data);
}

/// A full cycle keeps a station and its platform consistent: if the stops
/// to load hold a stop without a parent station and a stop that names it as
/// its parent, in either order, then after a load in which nothing fails
/// the table of stops holds the rows of the sorted stops, both stops are
/// among them, and the station's row stands before the platform's.
pub proof fn lemma_load_keeps_parent_first(
    s: Session,
    input: Dataset,
    loaded: Dataset,
    a: int,
    b: int,
)
    requires
        stabilized(input, loaded),
        0 <= a < input.stops@.len(),
        0 <= b < input.stops@.len(),
        input.stops@[a].parent_station is None,
        input.stops@[b].parent_station == input.stops@[a].stop_id,
        input.stops@[b].parent_station is Some,
    ensures
        effects(s, script(), loaded@).committed[Entity::Stop] == rows_of(loaded.stops@),
        exists|i: int, j: int|
            0 <= i < j < loaded.stops@.len() && loaded.stops@[i] == input.stops@[a]
                && loaded.stops@[j] == input.stops@[b],
{
    lemma_load_replaces(s, loaded);
    lemma_parent_precedes_child(input.stops@, loaded.stops@, a, b);
}

/// Failure atomicity: if the step that follows `k` successful steps of the
/// script fails, then whatever the transaction saw at that moment, the
/// abort leaves the committed rows as they were before the load.
pub proof fn lemma_failure_leaves_store(s: Session, data: Tables, k: nat, left: Tables, restore: bool)
    requires
        1 <= k < script_len(),
    ensures
        ({
            let failed = Session { working: left, ..effects(s, script().take(k as int), data) };
            let end = effect(failed, Step::Abort { restore }, data);
            &&& end.committed == s.committed
            &&& end.working == s.committed
        }),
{
    lemma_script_progress(s, data, k);
}

} // verus!
