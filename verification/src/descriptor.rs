//! Entity descriptors: the table, the ordered fields and the primary key of
//! one record type.

use crate::naming::{to_upper_snake, upper_snake_case};
use vstd::prelude::*;

verus! {

/// The semantic type of a column.
#[derive(Clone, Copy, Debug, PartialEq, Eq, Structural)]
pub enum FieldKind {
    /// Text.
    Text,
    /// A small integer enumeration.
    Small,
    /// An integer.
    Integer,
}

/// One field of a record type.
#[derive(Debug)]
pub struct FieldSpec {
    /// The column's name.
    pub name: String,
    /// The column's semantic type.
    pub kind: FieldKind,
    /// Whether a record may leave the field without a value.
    pub optional: bool,
    /// Whether the field belongs to the primary key.
    pub primary: bool,
}

/// The mathematical form of a [`FieldSpec`].
pub ghost struct FieldSpecView {
    pub name: Seq<char>,
    pub kind: FieldKind,
    pub optional: bool,
    pub primary: bool,
}

impl View for FieldSpec {
    type V = FieldSpecView;

    open spec fn view(&self) -> FieldSpecView {
        FieldSpecView {
            name: self.name@,
            kind: self.kind,
            optional: self.optional,
            primary: self.primary,
        }
    }
}

/// The fields that a sequence of field specifications stands for.
pub open spec fn fields_view(fields: Seq<FieldSpec>) -> Seq<FieldSpecView> {
    fields.map_values(|f: FieldSpec| f@)
}

/// Whether some field of `fields` belongs to the primary key.
pub open spec fn has_primary(fields: Seq<FieldSpecView>) -> bool {
    exists|i: int| 0 <= i < fields.len() && #[trigger] fields[i].primary
}

/// The mathematical form of an [`EntityDescriptor`].
pub ghost struct DescriptorView {
    pub table: Seq<char>,
    pub fields: Seq<FieldSpecView>,
}

/// The names of `fields`, in order.
pub open spec fn names_of(fields: Seq<FieldSpecView>) -> Seq<Seq<char>> {
    fields.map_values(|f: FieldSpecView| f.name)
}

/// The positions, in ascending order, of the fields whose primary flag is
/// `primary`.
pub open spec fn positions(fields: Seq<FieldSpecView>, primary: bool) -> Seq<int> {
    Seq::new(fields.len(), |i: int| i).filter(|i: int| fields[i].primary == primary)
}

/// The items of `items` at the positions `at`, in the order of `at`.
pub open spec fn pick<T>(items: Seq<T>, at: Seq<int>) -> Seq<T> {
    at.map_values(|i: int| items[i])
}

/// The positions that a vector of indices stands for.
pub open spec fn indices_view(at: Seq<usize>) -> Seq<int> {
    at.map_values(|i: usize| i as int)
}

impl DescriptorView {
    /// The positions of the primary-key fields, in field order.
    pub open spec fn key_positions(self) -> Seq<int> {
        positions(self.fields, true)
    }

    /// The positions of the fields outside the primary key, in field order.
    pub open spec fn plain_positions(self) -> Seq<int> {
        positions(self.fields, false)
    }

    /// The names of all fields, in field order.
    pub open spec fn names(self) -> Seq<Seq<char>> {
        names_of(self.fields)
    }
}

/// Where some field is primary, the primary-key positions are not empty: a
/// filter on the primary key always has a condition.
pub proof fn lemma_key_positions_nonempty(fields: Seq<FieldSpecView>)
    requires
        has_primary(fields),
    ensures
        positions(fields, true).len() > 0,
{
    let i = choose|i: int| 0 <= i < fields.len() && #[trigger] fields[i].primary;
    let all = Seq::new(fields.len(), |i: int| i);
    let pred = |i: int| fields[i].primary == true;
    assert(pred(all[i]));
    all.lemma_filter_contains(pred, i);
}

/// Every position is either a primary-key position or a position outside
/// the key: the two selections together have one entry for each field.
pub proof fn lemma_positions_cover(fields: Seq<FieldSpecView>)
    ensures
        positions(fields, true).len() + positions(fields, false).len() == fields.len(),
{
    lemma_split_len(fields, fields.len());
}

proof fn lemma_split_len(fields: Seq<FieldSpecView>, n: nat)
    ensures
        Seq::new(n, |i: int| i).filter(|i: int| fields[i].primary == true).len() + Seq::new(
            n,
            |i: int| i,
        ).filter(|i: int| fields[i].primary == false).len() == n,
    decreases n,
{
    reveal(Seq::filter);
    if n > 0 {
        lemma_split_len(fields, (n - 1) as nat);
        assert(Seq::new(n, |i: int| i).drop_last() =~= Seq::new((n - 1) as nat, |i: int| i));
    }
}

/// The positions of the fields of `fields` whose primary flag is `primary`.
pub fn positions_where(fields: &Vec<FieldSpec>, primary: bool) -> (at: Vec<usize>)
    ensures
        indices_view(at@) == positions(fields_view(fields@), primary),
        forall|k: int| 0 <= k < at.len() ==> at[k] < fields.len(),
{
    let ghost fv = fields_view(fields@);
    let ghost pred = |i: int| fv[i].primary == primary;
    let mut at: Vec<usize> = Vec::new();
    let mut i: usize = 0;
    proof {
        reveal(Seq::filter);
        assert(Seq::new(0, |j: int| j).filter(pred) =~= Seq::<int>::empty());
        assert(indices_view(at@) =~= Seq::<int>::empty());
    }
    while i < fields.len()
        invariant
            i <= fields.len(),
            fv == fields_view(fields@),
            pred == |i: int| fv[i].primary == primary,
            indices_view(at@) == Seq::new(i as nat, |j: int| j).filter(pred),
            forall|k: int| 0 <= k < at.len() ==> at[k] < fields.len(),
        decreases fields.len() - i,
    {
        proof {
            reveal(Seq::filter);
            let next = Seq::new((i + 1) as nat, |j: int| j);
            assert(next.drop_last() =~= Seq::new(i as nat, |j: int| j));
            assert(next.last() == i as int);
            assert(pred(i as int) == (fields[i as int].primary == primary));
        }
        let ghost before = at@;
        if fields[i].primary == primary {
            at.push(i);
            assert(indices_view(at@) =~= indices_view(before).push(i as int));
        }
        i += 1;
    }
    at
}

/// Why a descriptor could not be built.
#[derive(Clone, Copy, Debug, PartialEq, Eq, Structural)]
pub enum DescriptorError {
    /// No field is marked as part of the primary key.
    MissingPrimaryField,
}

/// Static metadata of one record type. Every descriptor has at least one
/// primary-key field.
#[derive(Debug)]
pub struct EntityDescriptor {
    table: String,
    fields: Vec<FieldSpec>,
}

impl View for EntityDescriptor {
    type V = DescriptorView;

    closed spec fn view(&self) -> DescriptorView {
        DescriptorView { table: self.table@, fields: fields_view(self.fields@) }
    }
}

impl FieldSpec {
    /// A field called `name`.
    pub fn new(name: &str, kind: FieldKind, optional: bool, primary: bool) -> (f: FieldSpec)
        ensures
            f@ == (FieldSpecView { name: name@, kind, optional, primary }),
    {
        FieldSpec { name: String::from_str(name), kind, optional, primary }
    }
}

/// Whether some field of `fields` is marked primary.
pub fn any_primary(fields: &Vec<FieldSpec>) -> (found: bool)
    ensures
        found == has_primary(fields_view(fields@)),
{
    let mut i: usize = 0;
    while i < fields.len()
        invariant
            i <= fields.len(),
            forall|k: int| 0 <= k < i ==> !fields_view(fields@)[k].primary,
        decreases fields.len() - i,
    {
        if fields[i].primary {
            assert(fields_view(fields@)[i as int].primary);
            return true;
        }
        i += 1;
    }
    false
}

impl EntityDescriptor {
    #[verifier::type_invariant]
    spec fn keyed(&self) -> bool {
        has_primary(fields_view(self.fields@))
    }

    /// The descriptor of the table `table` with the fields `fields`, in
    /// their order. Fails when no field is primary.
    pub fn new(table: String, fields: Vec<FieldSpec>) -> (made: Result<
        EntityDescriptor,
        DescriptorError,
    >)
        ensures
            has_primary(fields_view(fields@)) ==> made is Ok && made->Ok_0@ == (DescriptorView {
                table: table@,
                fields: fields_view(fields@),
            }),
            !has_primary(fields_view(fields@)) ==> made == Err::<EntityDescriptor, DescriptorError>(
                DescriptorError::MissingPrimaryField,
            ),
    {
        if any_primary(&fields) {
            Ok(EntityDescriptor { table, fields })
        } else {
            Err(DescriptorError::MissingPrimaryField)
        }
    }

    /// The descriptor of the record type called `entity`: its table is the
    /// upper snake case form of that name.
    pub fn for_entity(entity: &str, fields: Vec<FieldSpec>) -> (made: Result<
        EntityDescriptor,
        DescriptorError,
    >)
        ensures
            has_primary(fields_view(fields@)) ==> made is Ok && made->Ok_0@ == (DescriptorView {
                table: upper_snake_case(entity@),
                fields: fields_view(fields@),
            }),
            !has_primary(fields_view(fields@)) ==> made == Err::<EntityDescriptor, DescriptorError>(
                DescriptorError::MissingPrimaryField,
            ),
    {
        EntityDescriptor::new(to_upper_snake(entity), fields)
    }

    /// The backing table's name.
    pub fn table(&self) -> (t: &String)
        ensures
            t@ == self@.table,
    {
        &self.table
    }

    /// The fields, in their order. At least one of them is primary.
    pub fn fields(&self) -> (fs: &Vec<FieldSpec>)
        ensures
            fields_view(fs@) == self@.fields,
            has_primary(self@.fields),
    {
        proof {
            use_type_invariant(self);
        }
        &self.fields
    }
}

} // verus!
