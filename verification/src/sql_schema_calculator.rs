//! The rules by which a data model becomes a SQL schema, as far as they are rules of naming and
//! of kinds: how the constraints of an implicit join table are named, and which kind of column
//! a scalar field gets.

use crate::value::{PrismaValue, PrismaValueView};
use vstd::prelude::*;
use vstd::string::*;

verus! {

/// How often a field holds a value.
#[derive(Clone, Copy, Debug, PartialEq, Eq, Structural)]
pub enum FieldArity {
    Required,
    Optional,
    List,
}

/// How often a column holds a value.
#[derive(Clone, Copy, Debug, PartialEq, Eq, Structural)]
pub enum ColumnArity {
    Required,
    Nullable,
    List,
}

/// The arity of the column for a field of the given arity.
pub open spec fn spec_column_arity(arity: FieldArity) -> ColumnArity {
    match arity {
        FieldArity::Required => ColumnArity::Required,
        FieldArity::List => ColumnArity::List,
        FieldArity::Optional => ColumnArity::Nullable,
    }
}

/// The arity of the column for a field of the given arity.
#[verifier::when_used_as_spec(spec_column_arity)]
pub fn column_arity(arity: FieldArity) -> (r: ColumnArity)
    ensures
        r == spec_column_arity(arity),
{
    match arity {
        FieldArity::Required => ColumnArity::Required,
        FieldArity::List => ColumnArity::List,
        FieldArity::Optional => ColumnArity::Nullable,
    }
}

/// What the data model says is to happen to the records that refer to a record which is
/// deleted or whose key changes.
#[derive(Clone, Copy, Debug, PartialEq, Eq, Structural)]
pub enum ReferentialAction {
    Cascade,
    Restrict,
    NoAction,
    SetNull,
    SetDefault,
}

/// What a foreign key says is to happen to the rows that refer to a row which is deleted or
/// whose key changes.
#[derive(Clone, Copy, Debug, PartialEq, Eq, Structural)]
pub enum ForeignKeyAction {
    NoAction,
    Restrict,
    Cascade,
    SetNull,
    SetDefault,
}

/// The action of the foreign key for an action of the data model: the one of the same name.
pub open spec fn spec_convert_referential_action(action: ReferentialAction) -> ForeignKeyAction {
    match action {
        ReferentialAction::Cascade => ForeignKeyAction::Cascade,
        ReferentialAction::Restrict => ForeignKeyAction::Restrict,
        ReferentialAction::NoAction => ForeignKeyAction::NoAction,
        ReferentialAction::SetNull => ForeignKeyAction::SetNull,
        ReferentialAction::SetDefault => ForeignKeyAction::SetDefault,
    }
}

/// The action of the foreign key for an action of the data model.
#[verifier::when_used_as_spec(spec_convert_referential_action)]
pub fn convert_referential_action(action: ReferentialAction) -> (r: ForeignKeyAction)
    ensures
        r == spec_convert_referential_action(action),
{
    match action {
        ReferentialAction::Cascade => ForeignKeyAction::Cascade,
        ReferentialAction::Restrict => ForeignKeyAction::Restrict,
        ReferentialAction::NoAction => ForeignKeyAction::NoAction,
        ReferentialAction::SetNull => ForeignKeyAction::SetNull,
        ReferentialAction::SetDefault => ForeignKeyAction::SetDefault,
    }
}

/// The action of a foreign key on update: the one that the relation field names, and cascade
/// where it names none.
pub fn on_update_action(explicit: Option<ReferentialAction>) -> (r: ForeignKeyAction)
    ensures
        r == match explicit {
            Some(action) => spec_convert_referential_action(action),
            None => ForeignKeyAction::Cascade,
        },
{
    match explicit {
        Some(action) => convert_referential_action(action),
        None => ForeignKeyAction::Cascade,
    }
}

/// The built-in types of scalar fields.
#[derive(Clone, Copy, Debug, PartialEq, Eq, Structural)]
pub enum ScalarType {
    Int,
    BigInt,
    Float,
    Boolean,
    String,
    DateTime,
    Json,
    Bytes,
    Decimal,
}

/// The families of column types.
#[derive(Clone, Copy, Debug, PartialEq, Eq, Structural)]
pub enum ColumnTypeFamily {
    Int,
    BigInt,
    Float,
    Decimal,
    Boolean,
    String,
    DateTime,
    Binary,
    Json,
}

/// The family of the column for a scalar field of the given type: the one of the same name, and
/// binary for bytes.
pub open spec fn spec_column_type_family(scalar_type: ScalarType) -> ColumnTypeFamily {
    match scalar_type {
        ScalarType::Int => ColumnTypeFamily::Int,
        ScalarType::Float => ColumnTypeFamily::Float,
        ScalarType::Boolean => ColumnTypeFamily::Boolean,
        ScalarType::String => ColumnTypeFamily::String,
        ScalarType::DateTime => ColumnTypeFamily::DateTime,
        ScalarType::Json => ColumnTypeFamily::Json,
        ScalarType::Bytes => ColumnTypeFamily::Binary,
        ScalarType::Decimal => ColumnTypeFamily::Decimal,
        ScalarType::BigInt => ColumnTypeFamily::BigInt,
    }
}

/// The family of the column for a scalar field of the given type.
#[verifier::when_used_as_spec(spec_column_type_family)]
pub fn column_type_family(scalar_type: ScalarType) -> (r: ColumnTypeFamily)
    ensures
        r == spec_column_type_family(scalar_type),
{
    match scalar_type {
        ScalarType::Int => ColumnTypeFamily::Int,
        ScalarType::Float => ColumnTypeFamily::Float,
        ScalarType::Boolean => ColumnTypeFamily::Boolean,
        ScalarType::String => ColumnTypeFamily::String,
        ScalarType::DateTime => ColumnTypeFamily::DateTime,
        ScalarType::Json => ColumnTypeFamily::Json,
        ScalarType::Bytes => ColumnTypeFamily::Binary,
        ScalarType::Decimal => ColumnTypeFamily::Decimal,
        ScalarType::BigInt => ColumnTypeFamily::BigInt,
    }
}

/// What kind of field a scalar field is.
#[derive(Clone, Copy, Debug, PartialEq, Eq, Structural)]
pub enum ScalarFieldType {
    Enum,
    CompositeType,
    BuiltInScalar(ScalarType),
    Unsupported,
}

/// How the column of a scalar field is made.
#[derive(Clone, Copy, Debug, PartialEq, Eq, Structural)]
pub enum ColumnKind {
    /// A column of the enum's type.
    Enum,
    /// A column of a built-in type.
    BuiltIn(ScalarType),
    /// A column of the type that the data model spells out for the database.
    Unsupported,
}

/// How the column of a scalar field is made: a composite type is stored as JSON.
pub fn column_kind(field_type: ScalarFieldType) -> (r: ColumnKind)
    ensures
        r == match field_type {
            ScalarFieldType::Enum => ColumnKind::Enum,
            ScalarFieldType::CompositeType => ColumnKind::BuiltIn(ScalarType::Json),
            ScalarFieldType::BuiltInScalar(scalar_type) => ColumnKind::BuiltIn(scalar_type),
            ScalarFieldType::Unsupported => ColumnKind::Unsupported,
        },
{
    match field_type {
        ScalarFieldType::Enum => ColumnKind::Enum,
        ScalarFieldType::CompositeType => ColumnKind::BuiltIn(ScalarType::Json),
        ScalarFieldType::BuiltInScalar(scalar_type) => ColumnKind::BuiltIn(scalar_type),
        ScalarFieldType::Unsupported => ColumnKind::Unsupported,
    }
}

/// How the two columns of a join table are kept unique together.
#[derive(Clone, Copy, Debug, PartialEq, Eq, Structural)]
pub enum JoinTableUniquenessConstraint {
    PrimaryKey,
    UniqueIndex,
}

/// The names that belong to the join table of an implicit many-to-many relation.
#[derive(Debug, PartialEq, Eq)]
pub struct JoinTableNames {
    pub table_name: String,
    pub model_a_fk_name: String,
    pub model_b_fk_name: String,
    pub constraint_name: String,
    pub index_name: String,
}

/// The mathematical model of a [`JoinTableNames`].
pub struct JoinTableNamesView {
    pub table_name: Seq<char>,
    pub model_a_fk_name: Seq<char>,
    pub model_b_fk_name: Seq<char>,
    pub constraint_name: Seq<char>,
    pub index_name: Seq<char>,
}

impl View for JoinTableNames {
    type V = JoinTableNamesView;

    open spec fn view(&self) -> JoinTableNamesView {
        JoinTableNamesView {
            table_name: self.table_name@,
            model_a_fk_name: self.model_a_fk_name@,
            model_b_fk_name: self.model_b_fk_name@,
            constraint_name: self.constraint_name@,
            index_name: self.index_name@,
        }
    }
}

/// The first `count` characters of a name, or the whole name if it has no more.
pub open spec fn truncated(name: Seq<char>, count: int) -> Seq<char> {
    if count < name.len() {
        name.take(count)
    } else {
        name
    }
}

/// The suffix of the constraint that keeps the two columns of a join table unique together.
pub open spec fn constraint_suffix(constraint: JoinTableUniquenessConstraint) -> Seq<char> {
    match constraint {
        JoinTableUniquenessConstraint::PrimaryKey => "_AB_pkey"@,
        JoinTableUniquenessConstraint::UniqueIndex => "_AB_unique"@,
    }
}

/// The names that belong to the join table of a relation.
///
/// The table is named like the relation's table, cut to `name_limit` characters. The other
/// names are the table's name, cut so that the whole does not exceed `max_identifier_length`,
/// with a suffix: `_A_fkey` and `_B_fkey` for the foreign keys, `_AB_pkey` or `_AB_unique` for
/// the constraint on both columns, `_B_index` for the index on the second. The name of the
/// first foreign key is cut only if the table's name is longer than the room left, the name of
/// the second also if it is just as long: cutting then changes nothing.
pub open spec fn join_table_names(
    relation_table: Seq<char>,
    name_limit: int,
    max_identifier_length: int,
    constraint: JoinTableUniquenessConstraint,
) -> JoinTableNamesView {
    let table_name = truncated(relation_table, name_limit);
    JoinTableNamesView {
        table_name,
        model_a_fk_name: truncated(table_name, max_identifier_length - 7) + "_A_fkey"@,
        model_b_fk_name: truncated(table_name, max_identifier_length - 7) + "_B_fkey"@,
        constraint_name: truncated(
            table_name,
            max_identifier_length - constraint_suffix(constraint).len(),
        ) + constraint_suffix(constraint),
        index_name: truncated(table_name, max_identifier_length - 8) + "_B_index"@,
    }
}

/// The first `count` characters of a name of ASCII characters, or the whole name.
fn truncate(name: &str, count: usize) -> (r: String)
    requires
        name.is_ascii(),
    ensures
        r@ == truncated(name@, count as int),
        r.is_ascii(),
{
    let length = name.unicode_len();
    if count < length {
        let cut = name.substring_ascii(0, count);
        assert(name@.subrange(0, count as int) =~= name@.take(count as int));
        String::from_str(cut)
    } else {
        String::from_str(name)
    }
}

/// Names the join table of an implicit many-to-many relation, its foreign keys, its constraint
/// and its index.
///
/// The name of the relation's table must consist of ASCII characters, and identifiers must be
/// allowed at least as many characters as the longest suffix used has.
pub fn name_join_table(
    relation_table: &str,
    name_limit: usize,
    max_identifier_length: usize,
    constraint: JoinTableUniquenessConstraint,
) -> (r: JoinTableNames)
    requires
        relation_table.is_ascii(),
        max_identifier_length >= 8,
        constraint is UniqueIndex ==> max_identifier_length >= 10,
    ensures
        r@ == join_table_names(
            relation_table@,
            name_limit as int,
            max_identifier_length as int,
            constraint,
        ),
{
    proof {
        reveal_strlit("_fkey");
        reveal_strlit("_A_fkey");
        reveal_strlit("_B_fkey");
        reveal_strlit("_AB_pkey");
        reveal_strlit("_AB_unique");
        reveal_strlit("_B_index");
    }
    let table_name = truncate(relation_table, name_limit);
    let fk_suffix = "_fkey";
    let max_table_name_len = max_identifier_length - fk_suffix.unicode_len() - 2;
    // The names of the foreign keys diverge from the usual convention, so that they cannot
    // collide: they cannot be configured for an implicit join table.
    let model_a_fk_name = if table_name.as_str().unicode_len() > max_table_name_len {
        truncate(table_name.as_str(), max_table_name_len).concat("_A_fkey")
    } else {
        table_name.clone().concat("_A_fkey")
    };
    let model_b_fk_name = if table_name.as_str().unicode_len() >= max_table_name_len {
        truncate(table_name.as_str(), max_table_name_len).concat("_B_fkey")
    } else {
        table_name.clone().concat("_B_fkey")
    };
    let constraint_name = match constraint {
        JoinTableUniquenessConstraint::PrimaryKey => truncate(
            table_name.as_str(),
            max_identifier_length - 8,
        ).concat("_AB_pkey"),
        JoinTableUniquenessConstraint::UniqueIndex => truncate(
            table_name.as_str(),
            max_identifier_length - 10,
        ).concat("_AB_unique"),
    };
    let index_name = truncate(table_name.as_str(), max_identifier_length - 8).concat("_B_index");
    JoinTableNames { table_name, model_a_fk_name, model_b_fk_name, constraint_name, index_name }
}

/// The kinds of index that a table can have.
#[derive(Clone, Copy, Debug, PartialEq, Eq, Structural)]
pub enum IndexKind {
    Unique,
    Fulltext,
    Normal,
}

/// The kind of index for an index of the data model: a unique constraint if it is unique, else
/// a full-text index if it is one, else a plain index.
pub fn index_kind(is_unique: bool, is_fulltext: bool) -> (r: IndexKind)
    ensures
        r == if is_unique {
            IndexKind::Unique
        } else if is_fulltext {
            IndexKind::Fulltext
        } else {
            IndexKind::Normal
        },
{
    if is_unique {
        IndexKind::Unique
    } else if is_fulltext {
        IndexKind::Fulltext
    } else {
        IndexKind::Normal
    }
}

/// The order of a field in an index of the data model.
#[derive(Clone, Copy, Debug, PartialEq, Eq, Structural)]
pub enum SortOrder {
    Asc,
    Desc,
}

/// The order of a column in an index.
#[derive(Clone, Copy, Debug, PartialEq, Eq, Structural)]
pub enum SQLSortOrder {
    Asc,
    Desc,
}

/// The order of the column for a field in an index: the same, where one is given.
pub fn sql_sort_order(sort_order: Option<SortOrder>) -> (r: Option<SQLSortOrder>)
    ensures
        r == match sort_order {
            Some(SortOrder::Asc) => Some(SQLSortOrder::Asc),
            Some(SortOrder::Desc) => Some(SQLSortOrder::Desc),
            None => None,
        },
{
    match sort_order {
        Some(SortOrder::Asc) => Some(SQLSortOrder::Asc),
        Some(SortOrder::Desc) => Some(SQLSortOrder::Desc),
        None => None,
    }
}

/// The default of a scalar field, as the data model gives it.
#[derive(Debug, PartialEq, Eq)]
pub enum FieldDefault {
    /// An expression for the database to evaluate, if one is spelled out.
    DbGenerated(Option<String>),
    /// The time of the insert.
    Now,
    /// The next integer.
    Autoincrement,
    /// The next value of a sequence.
    Sequence,
    /// Another function, which the engine evaluates.
    Function,
    /// A constant.
    Constant(PrismaValue),
}

/// The mathematical model of a [`FieldDefault`].
pub enum FieldDefaultView {
    DbGenerated(Option<Seq<char>>),
    Now,
    Autoincrement,
    Sequence,
    Function,
    Constant(PrismaValueView),
}

impl View for FieldDefault {
    type V = FieldDefaultView;

    open spec fn view(&self) -> FieldDefaultView {
        match self {
            FieldDefault::DbGenerated(expression) => FieldDefaultView::DbGenerated(
                expression.deep_view(),
            ),
            FieldDefault::Now => FieldDefaultView::Now,
            FieldDefault::Autoincrement => FieldDefaultView::Autoincrement,
            FieldDefault::Sequence => FieldDefaultView::Sequence,
            FieldDefault::Function => FieldDefaultView::Function,
            FieldDefault::Constant(value) => FieldDefaultView::Constant(value@),
        }
    }
}

/// What the default of a column is.
#[derive(Debug, PartialEq, Eq)]
pub enum DefaultKind {
    Value(PrismaValue),
    Now,
    Sequence(String),
    DbGenerated(Option<String>),
}

/// The mathematical model of a [`DefaultKind`].
pub enum DefaultKindView {
    Value(PrismaValueView),
    Now,
    Sequence(Seq<char>),
    DbGenerated(Option<Seq<char>>),
}

impl View for DefaultKind {
    type V = DefaultKindView;

    open spec fn view(&self) -> DefaultKindView {
        match self {
            DefaultKind::Value(value) => DefaultKindView::Value(value@),
            DefaultKind::Now => DefaultKindView::Now,
            DefaultKind::Sequence(name) => DefaultKindView::Sequence(name@),
            DefaultKind::DbGenerated(expression) => DefaultKindView::DbGenerated(
                expression.deep_view(),
            ),
        }
    }
}

/// The default of a column, and the name of the constraint that holds it where the database
/// names such constraints.
#[derive(Debug, PartialEq, Eq)]
pub struct DefaultValue {
    pub kind: DefaultKind,
    pub constraint_name: Option<String>,
}

/// The mathematical model of a [`DefaultValue`].
pub struct DefaultValueView {
    pub kind: DefaultKindView,
    pub constraint_name: Option<Seq<char>>,
}

impl View for DefaultValue {
    type V = DefaultValueView;

    open spec fn view(&self) -> DefaultValueView {
        DefaultValueView { kind: self.kind@, constraint_name: self.constraint_name.deep_view() }
    }
}

impl DeepView for DefaultValue {
    type V = DefaultValueView;

    open spec fn deep_view(&self) -> DefaultValueView {
        self@
    }
}

/// What the column of a field gets for the field's default.
#[derive(Debug, PartialEq, Eq)]
pub enum ColumnDefault {
    /// A default in the database.
    Available(DefaultValue),
    /// No default in the database: the engine generates the value.
    PrismaGenerated,
    /// No default at all.
    NA,
}

/// The mathematical model of a [`ColumnDefault`].
pub enum ColumnDefaultView {
    Available(DefaultValueView),
    PrismaGenerated,
    NA,
}

impl View for ColumnDefault {
    type V = ColumnDefaultView;

    open spec fn view(&self) -> ColumnDefaultView {
        match self {
            ColumnDefault::Available(value) => ColumnDefaultView::Available(value@),
            ColumnDefault::PrismaGenerated => ColumnDefaultView::PrismaGenerated,
            ColumnDefault::NA => ColumnDefaultView::NA,
        }
    }
}

/// The name of the sequence behind a field: `prisma_sequence_`, the name of the model's
/// table, an underscore, and the name of the field's column.
pub open spec fn sequence_name(model: Seq<char>, field: Seq<char>) -> Seq<char> {
    "prisma_sequence_"@ + model + "_"@ + field
}

/// What the column of a field gets for the field's default.
///
/// An expression for the database, the time of the insert, a sequence and a constant become
/// defaults in the database. The next integer becomes what the database offers for it, and no
/// default where it offers nothing. Another function is left to the engine. A default in the
/// database goes under the given constraint name.
pub open spec fn column_default_of(
    default: FieldDefaultView,
    autoincrement: Option<DefaultValueView>,
    constraint_name: Option<Seq<char>>,
    model: Seq<char>,
    field: Seq<char>,
) -> ColumnDefaultView {
    match default {
        FieldDefaultView::DbGenerated(expression) => ColumnDefaultView::Available(
            DefaultValueView { kind: DefaultKindView::DbGenerated(expression), constraint_name },
        ),
        FieldDefaultView::Now => ColumnDefaultView::Available(
            DefaultValueView { kind: DefaultKindView::Now, constraint_name },
        ),
        FieldDefaultView::Autoincrement => match autoincrement {
            Some(offered) => ColumnDefaultView::Available(
                DefaultValueView { kind: offered.kind, constraint_name },
            ),
            None => ColumnDefaultView::NA,
        },
        FieldDefaultView::Sequence => ColumnDefaultView::Available(
            DefaultValueView {
                kind: DefaultKindView::Sequence(sequence_name(model, field)),
                constraint_name,
            },
        ),
        FieldDefaultView::Function => ColumnDefaultView::PrismaGenerated,
        FieldDefaultView::Constant(value) => ColumnDefaultView::Available(
            DefaultValueView { kind: DefaultKindView::Value(value), constraint_name },
        ),
    }
}

/// Decides what the column of a field gets for the field's default.
pub fn column_default(
    default: FieldDefault,
    autoincrement: Option<DefaultValue>,
    constraint_name: Option<String>,
    model: &str,
    field: &str,
) -> (r: ColumnDefault)
    ensures
        r@ == column_default_of(
            default@,
            autoincrement.deep_view(),
            constraint_name.deep_view(),
            model@,
            field@,
        ),
{
    match default {
        FieldDefault::DbGenerated(expression) => ColumnDefault::Available(
            DefaultValue { kind: DefaultKind::DbGenerated(expression), constraint_name },
        ),
        FieldDefault::Now => ColumnDefault::Available(
            DefaultValue { kind: DefaultKind::Now, constraint_name },
        ),
        FieldDefault::Autoincrement => match autoincrement {
            Some(offered) => ColumnDefault::Available(
                DefaultValue { kind: offered.kind, constraint_name },
            ),
            None => ColumnDefault::NA,
        },
        FieldDefault::Sequence => {
            let name = String::from_str("prisma_sequence_").concat(model).concat("_").concat(
                field,
            );
            ColumnDefault::Available(
                DefaultValue { kind: DefaultKind::Sequence(name), constraint_name },
            )
        },
        FieldDefault::Function => ColumnDefault::PrismaGenerated,
        FieldDefault::Constant(value) => ColumnDefault::Available(
            DefaultValue { kind: DefaultKind::Value(value), constraint_name },
        ),
    }
}

/// Whether the default of the column is generated by the engine.
pub fn default_is_prisma_level(default: &Option<ColumnDefault>) -> (r: bool)
    ensures
        r == (*default matches Some(ColumnDefault::PrismaGenerated)),
{
    matches!(default, Some(ColumnDefault::PrismaGenerated))
}

} // verus!
