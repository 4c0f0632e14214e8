//! Record types: what a type provides to be mapped to a table, and the
//! data-access operations that follow from it.

use crate::descriptor::{DescriptorView, EntityDescriptor, FieldKind, FieldSpecView};
use crate::mapper::{
    fetch_all, insert_all, key_params, keys_present, save_check, save_write, truncate, write_of,
    Batch, BatchView, RecordError, Statement, StatementView,
};
use crate::statement::{count_text, insert_text, select_text, truncate_text};
use crate::value::{row_view, rows_view, Value, ValueView};
use vstd::prelude::*;

verus! {

/// Whether the value `v` may stand in the field `f`.
pub open spec fn fits(f: FieldSpecView, v: ValueView) -> bool {
    match v {
        ValueView::Null => f.optional,
        ValueView::Text(_) => f.kind == FieldKind::Text,
        ValueView::Small(_) => f.kind == FieldKind::Small,
        ValueView::Integer(_) => f.kind == FieldKind::Integer,
    }
}

/// Whether `row` has one fitting value for each field of `fields`, in order.
pub open spec fn conforms(fields: Seq<FieldSpecView>, row: Seq<ValueView>) -> bool {
    &&& row.len() == fields.len()
    &&& forall|i: int| 0 <= i < fields.len() ==> fits(#[trigger] fields[i], row[i])
}

/// The rows of a sequence of records.
pub open spec fn rows_of<T: Record>(items: Seq<T>) -> Seq<Seq<ValueView>> {
    items.map_values(|r: T| r.row())
}

/// A record type: one row of one table.
pub trait Record: Sized {
    /// The descriptor of the record type.
    spec fn shape() -> DescriptorView;

    /// The record's values, in descriptor field order.
    spec fn row(&self) -> Seq<ValueView>;

    /// The values of a record fit the fields of its type.
    proof fn lemma_row_conforms(&self)
        ensures
            conforms(Self::shape().fields, self.row()),
    ;

    /// The descriptor of the record type.
    fn descriptor() -> (d: EntityDescriptor)
        ensures
            d@ == Self::shape(),
    ;

    /// The record's values, in descriptor field order.
    fn to_row(&self) -> (row: Vec<Value>)
        ensures
            row_view(row@) == self.row(),
    ;

    /// The record that `row` holds, if `row` has one fitting value for each
    /// field.
    fn from_row(row: &Vec<Value>) -> (made: Option<Self>)
        ensures
            made is Some <==> conforms(Self::shape().fields, row_view(row@)),
            made is Some ==> made->0.row() == row_view(row@),
    ;

    /// The query that fetches every row of the table.
    fn all() -> (query: Statement)
        ensures
            query@ == (StatementView { text: select_text(Self::shape()), params: Seq::empty() }),
    {
        fetch_all(&Self::descriptor())
    }

    /// One record for each row that the query of `all` returned, in order.
    /// Fails when a row fits no record.
    fn collect(rows: &Vec<Vec<Value>>) -> (made: Result<Vec<Self>, RecordError>)
        ensures
            (forall|k: int|
                0 <= k < rows.len() ==> conforms(Self::shape().fields, #[trigger] rows_view(rows@)[k]))
                ==> made is Ok && made->Ok_0@.map_values(|r: Self| r.row()) == rows_view(rows@),
            !(forall|k: int|
                0 <= k < rows.len() ==> conforms(Self::shape().fields, #[trigger] rows_view(rows@)[k]))
                ==> made is Err && made->Err_0 == RecordError::DataAccess,
    {
        let mut out: Vec<Self> = Vec::new();
        let mut k: usize = 0;
        while k < rows.len()
            invariant
                k <= rows.len(),
                out.len() == k,
                forall|j: int|
                    0 <= j < k ==> conforms(Self::shape().fields, #[trigger] rows_view(rows@)[j]),
                forall|j: int| 0 <= j < k ==> (#[trigger] out[j]).row() == rows_view(rows@)[j],
            decreases rows.len() - k,
        {
            assert(rows_view(rows@)[k as int] == row_view(rows[k as int]@));
            match Self::from_row(&rows[k]) {
                Some(record) => {
                    out.push(record);
                },
                None => {
                    return Err(RecordError::DataAccess);
                },
            }
            k += 1;
        }
        assert(out@.map_values(|r: Self| r.row()) =~= rows_view(rows@));
        Ok(out)
    }

    /// The first step of an existence-checked save: the count query on the
    /// record's primary key. A record that lacks a primary-key value is
    /// refused, and no statement is made.
    fn save(&self) -> (step: Result<Statement, RecordError>)
        ensures
            keys_present(Self::shape(), self.row()) ==> step is Ok && step->Ok_0@ == (
            StatementView {
                text: count_text(Self::shape()),
                params: key_params(Self::shape(), self.row()),
            }),
            !keys_present(Self::shape(), self.row()) ==> step is Err && step->Err_0
                == RecordError::ContractViolation,
    {
        let d = Self::descriptor();
        let row = self.to_row();
        proof {
            self.lemma_row_conforms();
        }
        save_check(&d, &row)
    }

    /// The second step of an existence-checked save, given the `count` that
    /// the first step's query found: an insert when it is zero, else an
    /// update.
    fn save_after(&self, count: usize) -> (step: Result<Statement, RecordError>)
        ensures
            keys_present(Self::shape(), self.row()) ==> step is Ok && step->Ok_0@ == write_of(
                Self::shape(),
                self.row(),
                count as nat,
            ),
            !keys_present(Self::shape(), self.row()) ==> step is Err && step->Err_0
                == RecordError::ContractViolation,
    {
        let d = Self::descriptor();
        let row = self.to_row();
        proof {
            self.lemma_row_conforms();
        }
        save_write(&d, &row, count)
    }

    /// The statement that removes every row of the table.
    fn destroy_all() -> (command: Statement)
        ensures
            command@ == (StatementView {
                text: truncate_text(Self::shape()),
                params: Seq::empty(),
            }),
    {
        truncate(&Self::descriptor())
    }

    /// The batch that inserts `items`, in order, with no existence check.
    fn save_all(items: &Vec<Self>) -> (batch: Batch)
        ensures
            batch@ == (BatchView { text: insert_text(Self::shape()), rows: items@.map_values(|r: Self| r.row()) }),
    {
        let mut rows: Vec<Vec<Value>> = Vec::new();
        let mut k: usize = 0;
        while k < items.len()
            invariant
                k <= items.len(),
                rows.len() == k,
                forall|j: int| 0 <= j < k ==> row_view(#[trigger] rows[j]@) == items[j].row(),
            decreases items.len() - k,
        {
            rows.push(items[k].to_row());
            k += 1;
        }
        assert(rows_view(rows@) =~= items@.map_values(|r: Self| r.row()));
        insert_all(&Self::descriptor(), rows)
    }
}

} // verus!
