//! The catalog of models and relations against which requests are compiled, and what the
//! connector behind it is able to do.

use vstd::prelude::*;

verus! {

/// Something a connector may be able to do in a single statement.
#[derive(Clone, Copy, Debug, PartialEq, Eq, Structural)]
pub enum ConnectorCapability {
    InsertReturning,
    UpdateReturning,
    DeleteReturning,
    NativeUpsert,
}

/// Who enforces relational integrity.
#[derive(Clone, Copy, Debug, PartialEq, Eq, Structural)]
pub enum RelationMode {
    /// The database does, through foreign keys.
    ForeignKeys,
    /// The query layer does, by reading before it writes.
    Prisma,
}

impl RelationMode {
    pub open spec fn spec_is_prisma(self) -> bool {
        self == RelationMode::Prisma
    }

    #[verifier::when_used_as_spec(spec_is_prisma)]
    pub fn is_prisma(self) -> (r: bool)
        ensures
            r == self.spec_is_prisma(),
    {
        match self {
            RelationMode::Prisma => true,
            RelationMode::ForeignKeys => false,
        }
    }

    pub open spec fn spec_uses_foreign_keys(self) -> bool {
        self == RelationMode::ForeignKeys
    }

    #[verifier::when_used_as_spec(spec_uses_foreign_keys)]
    pub fn uses_foreign_keys(self) -> (r: bool)
        ensures
            r == self.spec_uses_foreign_keys(),
    {
        match self {
            RelationMode::ForeignKeys => true,
            RelationMode::Prisma => false,
        }
    }
}

/// What the builders need to know of the connector and the schema as a whole.
#[derive(Debug, PartialEq, Eq)]
pub struct QuerySchema {
    pub capabilities: Vec<ConnectorCapability>,
    pub relation_mode: RelationMode,
}

/// The mathematical model of a [`QuerySchema`].
pub struct QuerySchemaView {
    pub capabilities: Set<ConnectorCapability>,
    pub relation_mode: RelationMode,
}

impl View for QuerySchema {
    type V = QuerySchemaView;

    open spec fn view(&self) -> QuerySchemaView {
        QuerySchemaView {
            capabilities: self.capabilities@.to_set(),
            relation_mode: self.relation_mode,
        }
    }
}

impl QuerySchema {
    /// Whether the connector has the capability.
    pub fn has_capability(&self, capability: ConnectorCapability) -> (r: bool)
        ensures
            r == self@.capabilities.contains(capability),
    {
        let mut i: usize = 0;
        while i < self.capabilities.len()
            invariant
                i <= self.capabilities.len(),
                forall|j: int| 0 <= j < i ==> self.capabilities[j] != capability,
            decreases self.capabilities.len() - i,
        {
            if self.capabilities[i] == capability {
                assert(self.capabilities@.contains(capability));
                return true;
            }
            i += 1;
        }
        assert(!self.capabilities@.contains(capability));
        false
    }

    pub fn relation_mode(&self) -> (r: RelationMode)
        ensures
            r == self@.relation_mode,
    {
        self.relation_mode
    }
}

/// An ordered selection of scalar fields, by database name.
#[derive(Debug, PartialEq, Eq)]
pub struct FieldSelection {
    pub fields: Vec<String>,
}

impl View for FieldSelection {
    type V = Seq<Seq<char>>;

    open spec fn view(&self) -> Seq<Seq<char>> {
        self.fields.deep_view()
    }
}

impl DeepView for FieldSelection {
    type V = Seq<Seq<char>>;

    open spec fn deep_view(&self) -> Seq<Seq<char>> {
        self@
    }
}

impl Clone for FieldSelection {
    fn clone(&self) -> (r: Self)
        ensures
            r@ == self@,
    {
        let fields = self.fields.clone();
        assert(fields.deep_view() =~= self.fields.deep_view());
        FieldSelection { fields }
    }
}

impl FieldSelection {
    /// The database names of the selected fields, in order.
    pub fn db_names(&self) -> (r: Vec<String>)
        ensures
            r.deep_view() == self@,
    {
        let names = self.fields.clone();
        assert(names.deep_view() =~= self.fields.deep_view());
        names
    }

    /// Whether a field of that name is selected.
    pub fn contains(&self, name: &String) -> (r: bool)
        ensures
            r == self@.contains(name@),
    {
        let mut i: usize = 0;
        while i < self.fields.len()
            invariant
                i <= self.fields.len(),
                forall|j: int| 0 <= j < i ==> self@[j] != name@,
            decreases self.fields.len() - i,
        {
            if self.fields[i] == *name {
                assert(self@[i as int] == name@);
                return true;
            }
            i += 1;
        }
        false
    }
}

/// A model as a relation sees it from the other side: its name and what identifies its records.
#[derive(Debug, PartialEq, Eq)]
pub struct ModelRef {
    pub name: String,
    pub primary_identifier: FieldSelection,
}

/// The mathematical model of a [`ModelRef`].
pub struct ModelRefView {
    pub name: Seq<char>,
    pub primary_identifier: Seq<Seq<char>>,
}

impl View for ModelRef {
    type V = ModelRefView;

    open spec fn view(&self) -> ModelRefView {
        ModelRefView { name: self.name@, primary_identifier: self.primary_identifier@ }
    }
}

impl Clone for ModelRef {
    fn clone(&self) -> (r: Self)
        ensures
            r@ == self@,
    {
        ModelRef { name: self.name.clone(), primary_identifier: self.primary_identifier.clone() }
    }
}

impl ModelRef {
    /// The fields that identify a record of the model.
    pub fn shard_aware_primary_identifier(&self) -> (r: FieldSelection)
        ensures
            r@ == self@.primary_identifier,
    {
        self.primary_identifier.clone()
    }
}

/// A field of a model that points to records of another model.
#[derive(Debug, PartialEq, Eq)]
pub struct RelationField {
    pub name: String,
    pub relation_name: String,
    pub many_to_many: bool,
    pub model: ModelRef,
    pub related_model: ModelRef,
}

/// The mathematical model of a [`RelationField`].
pub struct RelationFieldView {
    pub name: Seq<char>,
    pub relation_name: Seq<char>,
    pub many_to_many: bool,
    pub model: ModelRefView,
    pub related_model: ModelRefView,
}

impl View for RelationField {
    type V = RelationFieldView;

    open spec fn view(&self) -> RelationFieldView {
        RelationFieldView {
            name: self.name@,
            relation_name: self.relation_name@,
            many_to_many: self.many_to_many,
            model: self.model@,
            related_model: self.related_model@,
        }
    }
}

impl DeepView for RelationField {
    type V = RelationFieldView;

    open spec fn deep_view(&self) -> RelationFieldView {
        self@
    }
}

impl Clone for RelationField {
    fn clone(&self) -> (r: Self)
        ensures
            r@ == self@,
    {
        RelationField {
            name: self.name.clone(),
            relation_name: self.relation_name.clone(),
            many_to_many: self.many_to_many,
            model: self.model.clone(),
            related_model: self.related_model.clone(),
        }
    }
}

impl RelationField {
    /// Whether the relation links many records on either side through a join table.
    pub fn is_many_to_many(&self) -> (r: bool)
        ensures
            r == self@.many_to_many,
    {
        self.many_to_many
    }

    /// The model that owns the field.
    pub fn model(&self) -> (r: &ModelRef)
        ensures
            r@ == self@.model,
    {
        &self.model
    }

    /// The model that the field points to.
    pub fn related_model(&self) -> (r: &ModelRef)
        ensures
            r@ == self@.related_model,
    {
        &self.related_model
    }
}

/// A model of the schema: its scalar fields, its relation fields, what identifies a record, and
/// the fields that hold the time of the last update.
#[derive(Debug, PartialEq, Eq)]
pub struct Model {
    pub name: String,
    pub primary_identifier: FieldSelection,
    pub scalar_fields: Vec<String>,
    pub relation_fields: Vec<RelationField>,
    pub updated_at_fields: Vec<String>,
}

/// The mathematical model of a [`Model`].
pub struct ModelView {
    pub name: Seq<char>,
    pub primary_identifier: Seq<Seq<char>>,
    pub scalar_fields: Seq<Seq<char>>,
    pub relation_fields: Seq<RelationFieldView>,
    pub updated_at_fields: Seq<Seq<char>>,
}

impl ModelView {
    /// Whether the model has a scalar field of that name.
    pub open spec fn has_scalar(self, name: Seq<char>) -> bool {
        self.scalar_fields.contains(name)
    }

    /// The position of the first relation field of that name, or the number of relation fields.
    pub open spec fn relation_position(self, name: Seq<char>) -> int {
        first_relation_named(self.relation_fields, name)
    }

    /// Whether the model has a relation field of that name.
    pub open spec fn has_relation(self, name: Seq<char>) -> bool {
        self.relation_position(name) < self.relation_fields.len()
    }
}

/// The position of the first field of that name among `fields`, or their number if none has it.
pub open spec fn first_relation_named(fields: Seq<RelationFieldView>, name: Seq<char>) -> int
    decreases fields.len(),
{
    if fields.len() == 0 {
        0
    } else if fields[0].name == name {
        0
    } else {
        1 + first_relation_named(fields.drop_first(), name)
    }
}

/// The position of a relation field lies within the fields or just behind them.
pub proof fn lemma_relation_position_bounds(fields: Seq<RelationFieldView>, name: Seq<char>)
    ensures
        0 <= first_relation_named(fields, name) <= fields.len(),
    decreases fields.len(),
{
    if fields.len() > 0 && fields[0].name != name {
        lemma_relation_position_bounds(fields.drop_first(), name);
    }
}

impl View for Model {
    type V = ModelView;

    open spec fn view(&self) -> ModelView {
        ModelView {
            name: self.name@,
            primary_identifier: self.primary_identifier@,
            scalar_fields: self.scalar_fields.deep_view(),
            relation_fields: self.relation_fields.deep_view(),
            updated_at_fields: self.updated_at_fields.deep_view(),
        }
    }
}

impl Clone for Model {
    fn clone(&self) -> (r: Self)
        ensures
            r@ == self@,
    {
        let scalar_fields = self.scalar_fields.clone();
        assert(scalar_fields.deep_view() =~= self.scalar_fields.deep_view());
        let relation_fields = self.relation_fields.clone();
        assert(relation_fields.deep_view() =~= self.relation_fields.deep_view());
        let updated_at_fields = self.updated_at_fields.clone();
        assert(updated_at_fields.deep_view() =~= self.updated_at_fields.deep_view());
        Model {
            name: self.name.clone(),
            primary_identifier: self.primary_identifier.clone(),
            scalar_fields,
            relation_fields,
            updated_at_fields,
        }
    }
}

impl Model {
    /// The fields that identify a record of the model.
    pub fn shard_aware_primary_identifier(&self) -> (r: FieldSelection)
        ensures
            r@ == self@.primary_identifier,
    {
        self.primary_identifier.clone()
    }

    /// Whether the model has a scalar field of that name.
    pub fn has_scalar_field(&self, name: &String) -> (r: bool)
        ensures
            r == self@.has_scalar(name@),
    {
        let mut i: usize = 0;
        while i < self.scalar_fields.len()
            invariant
                i <= self.scalar_fields.len(),
                forall|j: int| 0 <= j < i ==> self@.scalar_fields[j] != name@,
            decreases self.scalar_fields.len() - i,
        {
            if self.scalar_fields[i] == *name {
                assert(self@.scalar_fields[i as int] == name@);
                return true;
            }
            i += 1;
        }
        false
    }

    /// The first relation field of that name, if the model has one.
    pub fn find_relation_field(&self, name: &String) -> (r: Option<&RelationField>)
        ensures
            r.is_some() == self@.has_relation(name@),
            r.is_some() ==> r.unwrap()@ == self@.relation_fields[self@.relation_position(name@)],
    {
        let mut i: usize = 0;
        assert(self@.relation_fields.skip(0) =~= self@.relation_fields);
        while i < self.relation_fields.len()
            invariant
                i <= self.relation_fields.len(),
                first_relation_named(self@.relation_fields, name@) == i + first_relation_named(
                    self@.relation_fields.skip(i as int),
                    name@,
                ),
            decreases self.relation_fields.len() - i,
        {
            let ghost rest = self@.relation_fields.skip(i as int);
            assert(rest[0] == self@.relation_fields[i as int]);
            assert(rest.drop_first() =~= self@.relation_fields.skip(i + 1));
            if self.relation_fields[i].name == *name {
                return Some(&self.relation_fields[i]);
            }
            i += 1;
        }
        None
    }
}

} // verus!
