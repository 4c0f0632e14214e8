//! The text of the statements that the record mapper issues for one table.

use crate::descriptor::{
    fields_view, indices_view, names_of, pick, positions_where, DescriptorView, EntityDescriptor,
    FieldSpec,
};
use crate::text::{join, joined, texts_view};
use vstd::prelude::*;

verus! {

/// One equality test against a placeholder for each name.
pub open spec fn conditions(names: Seq<Seq<char>>) -> Seq<Seq<char>> {
    names.map_values(|n: Seq<char>| n + " = ?"@)
}

/// `n` placeholders.
pub open spec fn marks(n: nat) -> Seq<Seq<char>> {
    Seq::new(n, |i: int| "?"@)
}

/// The equality tests on the primary-key fields, joined by `AND`.
pub open spec fn key_filter(d: DescriptorView) -> Seq<char> {
    joined(conditions(pick(d.names(), d.key_positions())), " AND "@)
}

/// The statement that selects every row of the table.
pub open spec fn select_text(d: DescriptorView) -> Seq<char> {
    "SELECT * FROM "@ + d.table
}

/// The statement that counts the rows with a given primary key.
pub open spec fn count_text(d: DescriptorView) -> Seq<char> {
    "SELECT COUNT(*) FROM "@ + d.table + " WHERE "@ + key_filter(d)
}

/// The statement that inserts one row, every field in descriptor order.
pub open spec fn insert_text(d: DescriptorView) -> Seq<char> {
    "INSERT INTO "@ + d.table + " ("@ + joined(d.names(), ", "@) + ") VALUES ("@ + joined(
        marks(d.fields.len()),
        ", "@,
    ) + ")"@
}

/// The statement that sets every field outside the primary key of the row
/// with a given primary key.
pub open spec fn update_text(d: DescriptorView) -> Seq<char> {
    "UPDATE "@ + d.table + " SET "@ + joined(
        conditions(pick(d.names(), d.plain_positions())),
        ", "@,
    ) + " WHERE "@ + key_filter(d)
}

/// The statement that removes every row of the table.
pub open spec fn truncate_text(d: DescriptorView) -> Seq<char> {
    "TRUNCATE "@ + d.table
}

/// The names of `fields`, in order.
pub fn field_names(fields: &Vec<FieldSpec>) -> (names: Vec<String>)
    ensures
        texts_view(names@) == names_of(fields_view(fields@)),
{
    let mut names: Vec<String> = Vec::new();
    let mut i: usize = 0;
    while i < fields.len()
        invariant
            i <= fields.len(),
            names.len() == i,
            forall|k: int| 0 <= k < i ==> names[k]@ == fields[k].name@,
        decreases fields.len() - i,
    {
        names.push(fields[i].name.clone());
        i += 1;
    }
    assert(texts_view(names@) =~= names_of(fields_view(fields@)));
    names
}

/// The equality tests on the fields at the positions `at`.
pub fn conditions_at(fields: &Vec<FieldSpec>, at: &Vec<usize>) -> (tests: Vec<String>)
    requires
        forall|k: int| 0 <= k < at.len() ==> at[k] < fields.len(),
    ensures
        texts_view(tests@) == conditions(
            pick(names_of(fields_view(fields@)), indices_view(at@)),
        ),
{
    let mut tests: Vec<String> = Vec::new();
    let mut k: usize = 0;
    while k < at.len()
        invariant
            k <= at.len(),
            tests.len() == k,
            forall|j: int| 0 <= j < at.len() ==> at[j] < fields.len(),
            forall|j: int| 0 <= j < k ==> tests[j]@ == fields[at[j] as int].name@ + " = ?"@,
        decreases at.len() - k,
    {
        let mut test = fields[at[k]].name.clone();
        test.append(" = ?");
        tests.push(test);
        k += 1;
    }
    assert(texts_view(tests@) =~= conditions(
        pick(names_of(fields_view(fields@)), indices_view(at@)),
    ));
    tests
}

/// `n` placeholders.
pub fn placeholders(n: usize) -> (out: Vec<String>)
    ensures
        texts_view(out@) == marks(n as nat),
{
    let mut out: Vec<String> = Vec::new();
    let mut i: usize = 0;
    while i < n
        invariant
            i <= n,
            out.len() == i,
            forall|k: int| 0 <= k < i ==> out[k]@ == "?"@,
        decreases n - i,
    {
        out.push(String::from_str("?"));
        i += 1;
    }
    assert(texts_view(out@) =~= marks(n as nat));
    out
}

fn key_filter_text(d: &EntityDescriptor) -> (out: String)
    ensures
        out@ == key_filter(d@),
{
    let fields = d.fields();
    let at = positions_where(fields, true);
    let tests = conditions_at(fields, &at);
    join(&tests, " AND ")
}

/// The text of the statement that selects every row of the table.
pub fn select_statement(d: &EntityDescriptor) -> (out: String)
    ensures
        out@ == select_text(d@),
{
    let mut out = String::from_str("SELECT * FROM ");
    out.append(d.table().as_str());
    out
}

/// The text of the statement that counts the rows with a given primary key.
pub fn count_statement(d: &EntityDescriptor) -> (out: String)
    ensures
        out@ == count_text(d@),
{
    let mut out = String::from_str("SELECT COUNT(*) FROM ");
    out.append(d.table().as_str());
    out.append(" WHERE ");
    let filter = key_filter_text(d);
    out.append(filter.as_str());
    out
}

/// The text of the statement that inserts one row.
pub fn insert_statement(d: &EntityDescriptor) -> (out: String)
    ensures
        out@ == insert_text(d@),
{
    let fields = d.fields();
    let names = field_names(fields);
    let columns = join(&names, ", ");
    let marks = placeholders(fields.len());
    let slots = join(&marks, ", ");
    let mut out = String::from_str("INSERT INTO ");
    out.append(d.table().as_str());
    out.append(" (");
    out.append(columns.as_str());
    out.append(") VALUES (");
    out.append(slots.as_str());
    out.append(")");
    out
}

/// The text of the statement that updates the row with a given primary key.
pub fn update_statement(d: &EntityDescriptor) -> (out: String)
    ensures
        out@ == update_text(d@),
{
    let fields = d.fields();
    let at = positions_where(fields, false);
    let tests = conditions_at(fields, &at);
    let changes = join(&tests, ", ");
    let filter = key_filter_text(d);
    let mut out = String::from_str("UPDATE ");
    out.append(d.table().as_str());
    out.append(" SET ");
    out.append(changes.as_str());
    out.append(" WHERE ");
    out.append(filter.as_str());
    out
}

/// The text of the statement that removes every row of the table.
pub fn truncate_statement(d: &EntityDescriptor) -> (out: String)
    ensures
        out@ == truncate_text(d@),
{
    let mut out = String::from_str("TRUNCATE ");
    out.append(d.table().as_str());
    out
}

} // verus!
