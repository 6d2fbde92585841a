use subquery::{AsSubquery, Bind, BindingError, Fragment, SqlQuery, SqlType, SubqueryProjection};

const FOO_SELECT: &str = "SELECT \"foo\".\"id\", \"foo\".\"name\" FROM \"foo\"";

fn foo_shape() -> Vec<SqlType> {
    vec![SqlType::Int8, SqlType::Text]
}

fn id_name_columns() -> Vec<(String, SqlType)> {
    vec![
        ("id".to_string(), SqlType::Int8),
        ("name".to_string(), SqlType::Text),
    ]
}

fn projection(alias: &str) -> SubqueryProjection {
    SubqueryProjection::generate(alias, &foo_shape(), &id_name_columns(), None).unwrap()
}

fn foo_select_query() -> SqlQuery {
    SqlQuery::new(
        vec![Fragment::Sql(FOO_SELECT.to_string())],
        foo_shape(),
    )
}

#[test]
fn select() {
    let sub_query = foo_select_query();
    let sub_query = sub_query.as_subquery(projection("bar")).unwrap();
    let sub_query_string = sub_query.debug_string();

    assert_eq!(
        sub_query_string,
        "(SELECT \"foo\".\"id\", \"foo\".\"name\" FROM \"foo\") AS \"bar\" -- binds: []"
    );

    let cols = sub_query.default_selection();
    let query = sub_query.duplicate().select(vec![cols[0].dup()]).unwrap();
    let query_string = query.debug_string();

    assert_eq!(query_string, "SELECT \"bar\".\"id\" FROM (SELECT \"foo\".\"id\", \"foo\".\"name\" FROM \"foo\") AS \"bar\" -- binds: []");

    let query = sub_query
        .filter(subquery::Predicate::new(cols[0].dup(), Bind::Int(24)))
        .unwrap();
    let query_string = query.debug_string();

    assert_eq!(query_string, "SELECT \"bar\".\"id\", \"bar\".\"name\" FROM (SELECT \"foo\".\"id\", \"foo\".\"name\" FROM \"foo\") AS \"bar\" WHERE (\"bar\".\"id\" = $1) -- binds: [24]");
}

#[test]
fn filter() {
    let sub_query = SqlQuery::new(
        vec![
            Fragment::Sql(
                "SELECT \"foo\".\"id\", \"foo\".\"name\" FROM \"foo\" WHERE (\"foo\".\"name\" = "
                    .to_string(),
            ),
            Fragment::Bind(Bind::Text("hi".to_string())),
            Fragment::Sql(")".to_string()),
        ],
        foo_shape(),
    );
    let sub_query = sub_query.as_subquery(projection("bap")).unwrap();
    let sub_query_string = sub_query.debug_string();

    assert_eq!(
        sub_query_string,
        "(SELECT \"foo\".\"id\", \"foo\".\"name\" FROM \"foo\" WHERE (\"foo\".\"name\" = $1)) AS \"bap\" -- binds: [\"hi\"]"
    );

    let cols = sub_query.default_selection();
    let query = sub_query.duplicate().select(vec![cols[0].dup()]).unwrap();
    let query_string = query.debug_string();

    assert_eq!(query_string, "SELECT \"bap\".\"id\" FROM (SELECT \"foo\".\"id\", \"foo\".\"name\" FROM \"foo\" WHERE (\"foo\".\"name\" = $1)) AS \"bap\" -- binds: [\"hi\"]");

    // A column generated for the alias `bar` is not scoped to the `bap`
    // derived table, even over the identical declaration: it fails to bind.
    let bar = projection("bar");
    let result = sub_query.filter(subquery::Predicate::new(bar.columns[0].dup(), Bind::Int(24)));
    assert_eq!(result.unwrap_err(), BindingError::ColumnOutOfScope);
}

#[test]
fn union() {
    let sub_query = SqlQuery::new(
        vec![Fragment::Sql(
            "(SELECT \"foo\".\"id\", \"foo\".\"name\" FROM \"foo\") UNION (SELECT \"foo\".\"id\", \"foo\".\"name\" FROM \"foo\")"
                .to_string(),
        )],
        foo_shape(),
    );
    let sub_query = sub_query.as_subquery(projection("baz")).unwrap();
    let sub_query_string = sub_query.debug_string();

    assert_eq!(
        sub_query_string,
        "((SELECT \"foo\".\"id\", \"foo\".\"name\" FROM \"foo\") UNION (SELECT \"foo\".\"id\", \"foo\".\"name\" FROM \"foo\")) AS \"baz\" -- binds: []"
    );

    let cols = sub_query.default_selection();
    let query = sub_query.duplicate().select(vec![cols[0].dup()]).unwrap();
    let query_string = query.debug_string();

    assert_eq!(query_string, "SELECT \"baz\".\"id\" FROM ((SELECT \"foo\".\"id\", \"foo\".\"name\" FROM \"foo\") UNION (SELECT \"foo\".\"id\", \"foo\".\"name\" FROM \"foo\")) AS \"baz\" -- binds: []");
}

#[test]
fn scenario_foo_bar() {
    // Base table foo(id, name, age); alias bar exposes (id, name) over
    // `SELECT id, name FROM foo`.
    let sub_query = foo_select_query().as_subquery(projection("bar")).unwrap();

    let (sql, binds) = sub_query.render();
    assert_eq!(
        sql,
        "(SELECT \"foo\".\"id\", \"foo\".\"name\" FROM \"foo\") AS \"bar\""
    );
    assert!(binds.is_empty());

    let cols = sub_query.default_selection();
    let (sql, binds) = sub_query
        .duplicate()
        .select(vec![cols[0].dup()])
        .unwrap()
        .render();
    assert_eq!(sql, "SELECT \"bar\".\"id\" FROM (SELECT \"foo\".\"id\", \"foo\".\"name\" FROM \"foo\") AS \"bar\"");
    assert!(binds.is_empty());

    let (sql, binds) = sub_query
        .filter(subquery::Predicate::new(cols[0].dup(), Bind::Int(24)))
        .unwrap()
        .render();
    assert_eq!(sql, "SELECT \"bar\".\"id\", \"bar\".\"name\" FROM (SELECT \"foo\".\"id\", \"foo\".\"name\" FROM \"foo\") AS \"bar\" WHERE (\"bar\".\"id\" = $1)");
    assert_eq!(binds, vec![Bind::Int(24)]);
}

#[test]
fn duplicate_composes_independently() {
    let sub_query = foo_select_query().as_subquery(projection("bar")).unwrap();
    let cols = sub_query.default_selection();

    let first = sub_query.duplicate();
    let second = sub_query.duplicate();

    let first = first
        .filter(subquery::Predicate::new(cols[0].dup(), Bind::Int(1)))
        .unwrap();
    let second = second
        .filter(subquery::Predicate::new(
            cols[1].dup(),
            Bind::Text("x".to_string()),
        ))
        .unwrap();

    assert_eq!(first.debug_string(), "SELECT \"bar\".\"id\", \"bar\".\"name\" FROM (SELECT \"foo\".\"id\", \"foo\".\"name\" FROM \"foo\") AS \"bar\" WHERE (\"bar\".\"id\" = $1) -- binds: [1]");
    assert_eq!(second.debug_string(), "SELECT \"bar\".\"id\", \"bar\".\"name\" FROM (SELECT \"foo\".\"id\", \"foo\".\"name\" FROM \"foo\") AS \"bar\" WHERE (\"bar\".\"name\" = $1) -- binds: [\"x\"]");

    // The original value is unaffected by either composition.
    assert_eq!(
        sub_query.debug_string(),
        "(SELECT \"foo\".\"id\", \"foo\".\"name\" FROM \"foo\") AS \"bar\" -- binds: []"
    );
}

#[test]
fn chained_filters_number_binds_in_order() {
    let sub_query = SqlQuery::new(
        vec![
            Fragment::Sql("SELECT \"foo\".\"id\" FROM \"foo\" WHERE (\"foo\".\"age\" > ".to_string()),
            Fragment::Bind(Bind::Int(30)),
            Fragment::Sql(")".to_string()),
        ],
        vec![SqlType::Int8],
    );
    let declared = vec![("id".to_string(), SqlType::Int8)];
    let proj = SubqueryProjection::generate("bar", &vec![SqlType::Int8], &declared, None).unwrap();
    let sub_query = sub_query.as_subquery(proj).unwrap();
    let cols = sub_query.default_selection();

    let query = sub_query
        .filter(subquery::Predicate::new(cols[0].dup(), Bind::Int(24)))
        .unwrap();
    let query = query
        .filter(subquery::Predicate::new(cols[0].dup(), Bind::Int(25)))
        .unwrap();
    let (sql, binds) = query.render();

    assert_eq!(sql, "SELECT \"bar\".\"id\" FROM (SELECT \"foo\".\"id\" FROM \"foo\" WHERE (\"foo\".\"age\" > $1)) AS \"bar\" WHERE (\"bar\".\"id\" = $2) AND (\"bar\".\"id\" = $3)");
    assert_eq!(binds, vec![Bind::Int(30), Bind::Int(24), Bind::Int(25)]);
}

#[test]
fn join_renders_both_sources() {
    let left = foo_select_query().as_subquery(projection("bar")).unwrap();
    let right = foo_select_query().as_subquery(projection("qux")).unwrap();
    let left_cols = left.default_selection();
    let right_cols = right.default_selection();

    let query = left
        .join(
            right,
            subquery::JoinKind::Inner,
            subquery::On::new(left_cols[0].dup(), right_cols[0].dup()),
        )
        .unwrap();
    let (sql, binds) = query.render();

    assert_eq!(sql, "SELECT \"bar\".\"id\", \"bar\".\"name\" FROM (SELECT \"foo\".\"id\", \"foo\".\"name\" FROM \"foo\") AS \"bar\" INNER JOIN (SELECT \"foo\".\"id\", \"foo\".\"name\" FROM \"foo\") AS \"qux\" ON \"bar\".\"id\" = \"qux\".\"id\"");
    assert!(binds.is_empty());
}

#[test]
fn join_rejects_unscoped_on_column() {
    let left = foo_select_query().as_subquery(projection("bar")).unwrap();
    let right = foo_select_query().as_subquery(projection("qux")).unwrap();
    let left_cols = left.default_selection();
    let other = projection("zap");

    let result = left.join(
        right,
        subquery::JoinKind::LeftOuter,
        subquery::On::new(left_cols[0].dup(), other.columns[0].dup()),
    );
    assert_eq!(result.unwrap_err(), BindingError::ColumnOutOfScope);
}

#[test]
fn negative_bind_values_render_in_decimal() {
    let sub_query = foo_select_query().as_subquery(projection("bar")).unwrap();
    let cols = sub_query.default_selection();
    let query = sub_query
        .filter(subquery::Predicate::new(cols[0].dup(), Bind::Int(-5)))
        .unwrap();
    assert_eq!(query.debug_string(), "SELECT \"bar\".\"id\", \"bar\".\"name\" FROM (SELECT \"foo\".\"id\", \"foo\".\"name\" FROM \"foo\") AS \"bar\" WHERE (\"bar\".\"id\" = $1) -- binds: [-5]");
}

#[test]
fn placeholders_reach_two_digits() {
    let mut fragments = vec![Fragment::Sql("VALUES (".to_string())];
    for i in 0i64..11 {
        if i > 0 {
            fragments.push(Fragment::Sql(", ".to_string()));
        }
        fragments.push(Fragment::Bind(Bind::Int(i)));
    }
    fragments.push(Fragment::Sql(")".to_string()));
    let query = SqlQuery::new(fragments, vec![SqlType::Int8]);
    let (sql, binds) = query.render();
    assert_eq!(sql, "VALUES ($1, $2, $3, $4, $5, $6, $7, $8, $9, $10, $11)");
    assert_eq!(binds.len(), 11);
}

#[test]
fn generate_rejects_malformed_alias() {
    let result = SubqueryProjection::generate("my alias", &foo_shape(), &id_name_columns(), None);
    assert_eq!(result.unwrap_err(), BindingError::MalformedAlias);
    let result = SubqueryProjection::generate("", &foo_shape(), &id_name_columns(), None);
    assert_eq!(result.unwrap_err(), BindingError::MalformedAlias);
    let result = SubqueryProjection::generate("1bar", &foo_shape(), &id_name_columns(), None);
    assert_eq!(result.unwrap_err(), BindingError::MalformedAlias);
}

#[test]
fn generate_rejects_malformed_column_name() {
    let declared = vec![("id ".to_string(), SqlType::Int8), ("name".to_string(), SqlType::Text)];
    let result = SubqueryProjection::generate("bar", &foo_shape(), &declared, None);
    assert_eq!(result.unwrap_err(), BindingError::MalformedColumnName);
}

#[test]
fn generate_rejects_duplicate_column_name() {
    let declared = vec![("id".to_string(), SqlType::Int8), ("id".to_string(), SqlType::Text)];
    let result = SubqueryProjection::generate("bar", &foo_shape(), &declared, None);
    assert_eq!(result.unwrap_err(), BindingError::DuplicateColumnName);
}

#[test]
fn generate_rejects_column_count_mismatch() {
    let declared = vec![("id".to_string(), SqlType::Int8)];
    let result = SubqueryProjection::generate("bar", &foo_shape(), &declared, None);
    assert_eq!(result.unwrap_err(), BindingError::ColumnCountMismatch);
}

#[test]
fn generate_rejects_column_type_mismatch() {
    let declared = vec![("id".to_string(), SqlType::Text), ("name".to_string(), SqlType::Text)];
    let result = SubqueryProjection::generate("bar", &foo_shape(), &declared, None);
    assert_eq!(result.unwrap_err(), BindingError::ColumnTypeMismatch);
}

#[test]
fn generate_rejects_primary_key_out_of_range() {
    let result = SubqueryProjection::generate("bar", &foo_shape(), &id_name_columns(), Some(2));
    assert_eq!(result.unwrap_err(), BindingError::PrimaryKeyOutOfRange);
    let ok = SubqueryProjection::generate("bar", &foo_shape(), &id_name_columns(), Some(0));
    assert!(ok.is_ok());
}

#[test]
fn as_subquery_rejects_shape_mismatch() {
    let query = SqlQuery::new(
        vec![Fragment::Sql("SELECT \"foo\".\"id\" FROM \"foo\"".to_string())],
        vec![SqlType::Int8],
    );
    let result = query.as_subquery(projection("bar"));
    assert_eq!(result.unwrap_err(), BindingError::ShapeMismatch);
}

#[test]
fn check_rejects_foreign_column_in_projection() {
    let bar = projection("bar");
    let mut mixed = projection("bap");
    mixed.columns[0] = bar.columns[0].dup();
    assert_eq!(mixed.check().unwrap_err(), BindingError::ColumnAliasMismatch);
}

#[test]
fn appears_on_is_alias_scoped() {
    let bar_table = foo_select_query().as_subquery(projection("bar")).unwrap();
    let bap_table = foo_select_query().as_subquery(projection("bap")).unwrap();
    let bar_cols = bar_table.default_selection();

    assert!(bar_cols[0].appears_on(&bar_table));
    assert!(bar_cols[1].appears_on(&bar_table));
    assert!(!bar_cols[0].appears_on(&bap_table));
    assert!(!bar_cols[1].appears_on(&bap_table));
}

#[test]
fn generated_columns_render_alias_qualified() {
    let proj = projection("bar");
    assert_eq!(proj.columns[0].render(), "\"bar\".\"id\"");
    assert_eq!(proj.columns[1].render(), "\"bar\".\"name\"");
    assert_eq!(proj.columns.len(), 2);
}

#[test]
fn column_walk_ast_emits_one_sql_fragment() {
    let proj = projection("bar");
    let mut pass: Vec<Fragment> = Vec::new();
    proj.columns[0].walk_ast(&mut pass);
    proj.columns[1].walk_ast(&mut pass);
    let (sql, binds) = subquery::fragment::walk_fragments(&pass);
    assert_eq!(sql, "\"bar\".\"id\"\"bar\".\"name\"");
    assert!(binds.is_empty());
}
