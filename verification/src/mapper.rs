//! The record mapper on rows: for one table, the statements and parameters
//! of each data-access operation.

use crate::descriptor::{
    fields_view, indices_view, pick, positions_where, DescriptorView, EntityDescriptor,
};
use crate::statement::{
    count_statement, count_text, insert_statement, insert_text, select_statement, select_text,
    truncate_statement, truncate_text, update_statement, update_text,
};
use crate::value::{duplicate_row, row_view, rows_view, Value, ValueView};
use vstd::prelude::*;

verus! {

/// A statement with the values of its placeholders, in placeholder order.
#[derive(Debug)]
pub struct Statement {
    /// The statement's text.
    pub text: String,
    /// One value for each placeholder.
    pub params: Vec<Value>,
}

/// The mathematical form of a [`Statement`].
pub ghost struct StatementView {
    pub text: Seq<char>,
    pub params: Seq<ValueView>,
}

impl View for Statement {
    type V = StatementView;

    open spec fn view(&self) -> StatementView {
        StatementView { text: self.text@, params: row_view(self.params@) }
    }
}

/// One statement to be executed once for each row of parameters, in a
/// single round trip.
#[derive(Debug)]
pub struct Batch {
    /// The statement's text.
    pub text: String,
    /// The parameter rows, in order.
    pub rows: Vec<Vec<Value>>,
}

/// The mathematical form of a [`Batch`].
pub ghost struct BatchView {
    pub text: Seq<char>,
    pub rows: Seq<Seq<ValueView>>,
}

impl View for Batch {
    type V = BatchView;

    open spec fn view(&self) -> BatchView {
        BatchView { text: self.text@, rows: rows_view(self.rows@) }
    }
}

/// The kinds of failure of a data-access operation.
#[derive(Clone, Copy, Debug, PartialEq, Eq, Structural)]
pub enum RecordError {
    /// A save was attempted on a record that lacks a primary-key value.
    ContractViolation,
    /// The store failed, or handed back a value that fits no record.
    DataAccess,
}

/// Whether `row` has a value in every primary-key field.
pub open spec fn keys_present(d: DescriptorView, row: Seq<ValueView>) -> bool {
    forall|i: int| 0 <= i < d.fields.len() && d.fields[i].primary ==> row[i] != ValueView::Null
}

/// The parameters of the existence check for `row`: its primary-key values.
pub open spec fn key_params(d: DescriptorView, row: Seq<ValueView>) -> Seq<ValueView> {
    pick(row, d.key_positions())
}

/// The parameters of the update of `row`: the values outside the primary
/// key, then the primary-key values, each group in descriptor order.
pub open spec fn update_params(d: DescriptorView, row: Seq<ValueView>) -> Seq<ValueView> {
    pick(row, d.plain_positions()) + pick(row, d.key_positions())
}

/// The statement that writes `row`, given the count that the existence check
/// found.
pub open spec fn write_of(d: DescriptorView, row: Seq<ValueView>, count: nat) -> StatementView {
    if count == 0 {
        StatementView { text: insert_text(d), params: row }
    } else {
        StatementView { text: update_text(d), params: update_params(d, row) }
    }
}

/// Copies of the values of `row` at the positions `at`.
pub fn pick_values(row: &Vec<Value>, at: &Vec<usize>) -> (out: Vec<Value>)
    requires
        forall|k: int| 0 <= k < at.len() ==> at[k] < row.len(),
    ensures
        row_view(out@) == pick(row_view(row@), indices_view(at@)),
{
    let mut out: Vec<Value> = Vec::new();
    let mut k: usize = 0;
    while k < at.len()
        invariant
            k <= at.len(),
            out.len() == k,
            forall|j: int| 0 <= j < at.len() ==> at[j] < row.len(),
            forall|j: int| 0 <= j < k ==> out[j]@ == row[at[j] as int]@,
        decreases at.len() - k,
    {
        out.push(row[at[k]].duplicate());
        k += 1;
    }
    assert(row_view(out@) =~= pick(row_view(row@), indices_view(at@)));
    out
}

/// Whether `row` has a value in every primary-key field of `d`.
pub fn has_keys(d: &EntityDescriptor, row: &Vec<Value>) -> (present: bool)
    requires
        row.len() == d@.fields.len(),
    ensures
        present == keys_present(d@, row_view(row@)),
{
    let fields = d.fields();
    let mut i: usize = 0;
    while i < fields.len()
        invariant
            i <= fields.len(),
            row.len() == fields.len(),
            fields_view(fields@) == d@.fields,
            forall|k: int|
                0 <= k < i && d@.fields[k].primary ==> row_view(row@)[k] != ValueView::Null,
        decreases fields.len() - i,
    {
        if fields[i].primary && row[i].is_null() {
            assert(d@.fields[i as int].primary && row_view(row@)[i as int] == ValueView::Null);
            return false;
        }
        i += 1;
    }
    true
}

/// The query that fetches every row of the table of `d`.
pub fn fetch_all(d: &EntityDescriptor) -> (query: Statement)
    ensures
        query@ == (StatementView { text: select_text(d@), params: Seq::empty() }),
{
    let query = Statement { text: select_statement(d), params: Vec::new() };
    assert(query@.params =~= Seq::empty());
    query
}

/// The first step of a save of `row`: the existence check, a count of the
/// rows that have the primary key of `row`. A row that lacks a primary-key
/// value is refused, and no statement is made.
pub fn save_check(d: &EntityDescriptor, row: &Vec<Value>) -> (step: Result<Statement, RecordError>)
    requires
        row.len() == d@.fields.len(),
    ensures
        keys_present(d@, row_view(row@)) ==> step is Ok && step->Ok_0@ == (StatementView {
            text: count_text(d@),
            params: key_params(d@, row_view(row@)),
        }),
        !keys_present(d@, row_view(row@)) ==> step == Err::<Statement, RecordError>(
            RecordError::ContractViolation,
        ),
{
    if !has_keys(d, row) {
        return Err(RecordError::ContractViolation);
    }
    let at = positions_where(d.fields(), true);
    Ok(Statement { text: count_statement(d), params: pick_values(row, &at) })
}

/// The second step of a save of `row`, given the `count` that the existence
/// check found: an insert of every field when no row has the key, else an
/// update of the fields outside the key. A row that lacks a primary-key
/// value is refused, and no statement is made.
pub fn save_write(d: &EntityDescriptor, row: &Vec<Value>, count: usize) -> (step: Result<
    Statement,
    RecordError,
>)
    requires
        row.len() == d@.fields.len(),
    ensures
        keys_present(d@, row_view(row@)) ==> step is Ok && step->Ok_0@ == write_of(
            d@,
            row_view(row@),
            count as nat,
        ),
        !keys_present(d@, row_view(row@)) ==> step == Err::<Statement, RecordError>(
            RecordError::ContractViolation,
        ),
{
    if !has_keys(d, row) {
        return Err(RecordError::ContractViolation);
    }
    if count == 0 {
        Ok(Statement { text: insert_statement(d), params: duplicate_row(row) })
    } else {
        let fields = d.fields();
        let plain = positions_where(fields, false);
        let keys = positions_where(fields, true);
        let mut params = pick_values(row, &plain);
        let mut tail = pick_values(row, &keys);
        let ghost head = params@;
        let ghost rest = tail@;
        params.append(&mut tail);
        assert(row_view(params@) =~= row_view(head) + row_view(rest));
        Ok(Statement { text: update_statement(d), params })
    }
}

/// The statement that removes every row of the table of `d`.
pub fn truncate(d: &EntityDescriptor) -> (command: Statement)
    ensures
        command@ == (StatementView { text: truncate_text(d@), params: Seq::empty() }),
{
    let command = Statement { text: truncate_statement(d), params: Vec::new() };
    assert(command@.params =~= Seq::empty());
    command
}

/// The batch that inserts `rows`, in order, each with the insert statement
/// of `d`. No existence check is made.
pub fn insert_all(d: &EntityDescriptor, rows: Vec<Vec<Value>>) -> (batch: Batch)
    ensures
        batch@ == (BatchView { text: insert_text(d@), rows: rows_view(rows@) }),
{
    Batch { text: insert_statement(d), rows }
}

} // verus!
