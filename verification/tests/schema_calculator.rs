use query_graph::sql_schema_calculator::{
    column_arity, column_default, column_kind, column_type_family, convert_referential_action,
    default_is_prisma_level, index_kind, name_join_table, on_update_action, sql_sort_order,
    ColumnArity, ColumnDefault, ColumnKind, ColumnTypeFamily, DefaultKind, DefaultValue,
    FieldArity, FieldDefault, ForeignKeyAction, IndexKind, JoinTableNames,
    JoinTableUniquenessConstraint, ReferentialAction, SQLSortOrder, ScalarFieldType, ScalarType,
    SortOrder,
};
use query_graph::value::PrismaValue;

#[test]
fn an_optional_field_gets_a_nullable_column() {
    assert_eq!(column_arity(FieldArity::Required), ColumnArity::Required);
    assert_eq!(column_arity(FieldArity::Optional), ColumnArity::Nullable);
    assert_eq!(column_arity(FieldArity::List), ColumnArity::List);
}

#[test]
fn a_foreign_key_does_what_the_data_model_says() {
    assert_eq!(convert_referential_action(ReferentialAction::Cascade), ForeignKeyAction::Cascade);
    assert_eq!(convert_referential_action(ReferentialAction::Restrict), ForeignKeyAction::Restrict);
    assert_eq!(convert_referential_action(ReferentialAction::NoAction), ForeignKeyAction::NoAction);
    assert_eq!(convert_referential_action(ReferentialAction::SetNull), ForeignKeyAction::SetNull);
    assert_eq!(
        convert_referential_action(ReferentialAction::SetDefault),
        ForeignKeyAction::SetDefault
    );
    assert_eq!(on_update_action(None), ForeignKeyAction::Cascade);
    assert_eq!(on_update_action(Some(ReferentialAction::SetNull)), ForeignKeyAction::SetNull);
    assert_eq!(on_update_action(Some(ReferentialAction::Restrict)), ForeignKeyAction::Restrict);
}

#[test]
fn a_scalar_type_has_its_family_of_column_types() {
    assert_eq!(column_type_family(ScalarType::Int), ColumnTypeFamily::Int);
    assert_eq!(column_type_family(ScalarType::BigInt), ColumnTypeFamily::BigInt);
    assert_eq!(column_type_family(ScalarType::Float), ColumnTypeFamily::Float);
    assert_eq!(column_type_family(ScalarType::Decimal), ColumnTypeFamily::Decimal);
    assert_eq!(column_type_family(ScalarType::Boolean), ColumnTypeFamily::Boolean);
    assert_eq!(column_type_family(ScalarType::String), ColumnTypeFamily::String);
    assert_eq!(column_type_family(ScalarType::DateTime), ColumnTypeFamily::DateTime);
    assert_eq!(column_type_family(ScalarType::Json), ColumnTypeFamily::Json);
    assert_eq!(column_type_family(ScalarType::Bytes), ColumnTypeFamily::Binary);
}

#[test]
fn a_composite_type_is_stored_as_json() {
    assert_eq!(column_kind(ScalarFieldType::Enum), ColumnKind::Enum);
    assert_eq!(column_kind(ScalarFieldType::CompositeType), ColumnKind::BuiltIn(ScalarType::Json));
    assert_eq!(
        column_kind(ScalarFieldType::BuiltInScalar(ScalarType::Bytes)),
        ColumnKind::BuiltIn(ScalarType::Bytes)
    );
    assert_eq!(column_kind(ScalarFieldType::Unsupported), ColumnKind::Unsupported);
}

#[test]
fn short_names_are_kept_whole() {
    assert_eq!(
        name_join_table("_CategoryToPost", 63, 63, JoinTableUniquenessConstraint::PrimaryKey),
        JoinTableNames {
            table_name: "_CategoryToPost".to_string(),
            model_a_fk_name: "_CategoryToPost_A_fkey".to_string(),
            model_b_fk_name: "_CategoryToPost_B_fkey".to_string(),
            constraint_name: "_CategoryToPost_AB_pkey".to_string(),
            index_name: "_CategoryToPost_B_index".to_string(),
        }
    );
    assert_eq!(
        name_join_table("_AToB", 63, 63, JoinTableUniquenessConstraint::UniqueIndex).constraint_name,
        "_AToB_AB_unique"
    );
}

#[test]
fn long_names_are_cut_to_fit() {
    // 20 characters are allowed; the table's name has 26.
    let names =
        name_join_table("abcdefghijklmnopqrstuvwxyz", 20, 20, JoinTableUniquenessConstraint::UniqueIndex);
    assert_eq!(
        names,
        JoinTableNames {
            table_name: "abcdefghijklmnopqrst".to_string(),
            model_a_fk_name: "abcdefghijklm_A_fkey".to_string(),
            model_b_fk_name: "abcdefghijklm_B_fkey".to_string(),
            constraint_name: "abcdefghij_AB_unique".to_string(),
            index_name: "abcdefghijkl_B_index".to_string(),
        }
    );
    for name in [
        &names.table_name,
        &names.model_a_fk_name,
        &names.model_b_fk_name,
        &names.constraint_name,
        &names.index_name,
    ] {
        assert_eq!(name.len(), 20);
    }
    // The name of the table may be cut to another length than the other names.
    let names = name_join_table("abcdefghijklmnopqrstuvwxyz", 5, 30, JoinTableUniquenessConstraint::PrimaryKey);
    assert_eq!(names.table_name, "abcde");
    assert_eq!(names.model_a_fk_name, "abcde_A_fkey");
    assert_eq!(names.constraint_name, "abcde_AB_pkey");
}

#[test]
fn a_name_that_just_fits_is_kept_whole() {
    // With 20 characters allowed, 13 are left for the table's name before `_A_fkey`.
    let names = name_join_table("abcdefghijklm", 20, 20, JoinTableUniquenessConstraint::PrimaryKey);
    assert_eq!(names.model_a_fk_name, "abcdefghijklm_A_fkey");
    assert_eq!(names.model_b_fk_name, "abcdefghijklm_B_fkey");
    assert_eq!(names.constraint_name, "abcdefghijkl_AB_pkey");
    assert_eq!(names.index_name, "abcdefghijkl_B_index");
    let names = name_join_table("abcdefghijklmn", 20, 20, JoinTableUniquenessConstraint::PrimaryKey);
    assert_eq!(names.model_a_fk_name, "abcdefghijklm_A_fkey");
    assert_eq!(names.model_b_fk_name, "abcdefghijklm_B_fkey");
    // The least room for which names can be made.
    let names = name_join_table("ab", 0, 8, JoinTableUniquenessConstraint::PrimaryKey);
    assert_eq!(
        names,
        JoinTableNames {
            table_name: "".to_string(),
            model_a_fk_name: "_A_fkey".to_string(),
            model_b_fk_name: "_B_fkey".to_string(),
            constraint_name: "_AB_pkey".to_string(),
            index_name: "_B_index".to_string(),
        }
    );
}

#[test]
fn an_index_is_unique_before_it_is_anything_else() {
    assert_eq!(index_kind(true, false), IndexKind::Unique);
    assert_eq!(index_kind(true, true), IndexKind::Unique);
    assert_eq!(index_kind(false, true), IndexKind::Fulltext);
    assert_eq!(index_kind(false, false), IndexKind::Normal);
    assert_eq!(sql_sort_order(None), None);
    assert_eq!(sql_sort_order(Some(SortOrder::Asc)), Some(SQLSortOrder::Asc));
    assert_eq!(sql_sort_order(Some(SortOrder::Desc)), Some(SQLSortOrder::Desc));
}

fn named(kind: DefaultKind) -> ColumnDefault {
    ColumnDefault::Available(DefaultValue { kind, constraint_name: Some("df".to_string()) })
}

#[test]
fn the_default_of_a_field_becomes_the_default_of_its_column() {
    let decide = |default: FieldDefault, autoincrement: Option<DefaultValue>| {
        column_default(default, autoincrement, Some("df".to_string()), "User", "id")
    };
    assert_eq!(
        decide(FieldDefault::DbGenerated(Some("gen_random_uuid()".to_string())), None),
        named(DefaultKind::DbGenerated(Some("gen_random_uuid()".to_string())))
    );
    assert_eq!(decide(FieldDefault::DbGenerated(None), None), named(DefaultKind::DbGenerated(None)));
    assert_eq!(decide(FieldDefault::Now, None), named(DefaultKind::Now));
    assert_eq!(
        decide(FieldDefault::Sequence, None),
        named(DefaultKind::Sequence("prisma_sequence_User_id".to_string()))
    );
    assert_eq!(
        decide(FieldDefault::Constant(PrismaValue::Int(3)), None),
        named(DefaultKind::Value(PrismaValue::Int(3)))
    );
    assert_eq!(decide(FieldDefault::Function, None), ColumnDefault::PrismaGenerated);
    assert_eq!(decide(FieldDefault::Autoincrement, None), ColumnDefault::NA);
    // What the database offers for the next integer goes under the field's constraint name.
    assert_eq!(
        decide(
            FieldDefault::Autoincrement,
            Some(DefaultValue {
                kind: DefaultKind::Sequence("s".to_string()),
                constraint_name: Some("other".to_string())
            })
        ),
        named(DefaultKind::Sequence("s".to_string()))
    );
    assert_eq!(
        column_default(FieldDefault::Now, None, None, "User", "id"),
        ColumnDefault::Available(DefaultValue { kind: DefaultKind::Now, constraint_name: None })
    );
    assert!(default_is_prisma_level(&Some(ColumnDefault::PrismaGenerated)));
    assert!(!default_is_prisma_level(&Some(ColumnDefault::NA)));
    assert!(!default_is_prisma_level(&Some(named(DefaultKind::Now))));
    assert!(!default_is_prisma_level(&None));
}
