use gitql::engine_evaluator::RuntimeError;
use gitql::engine_function::add_column;
use gitql::engine_function::reference_kind;
use gitql::engine_function::select_branches;
use gitql::engine_function::select_commits;
use gitql::engine_function::select_diffs;
use gitql::engine_function::select_gql_objects;
use gitql::engine_function::select_references;
use gitql::engine_function::select_tags;
use gitql::engine_function::selects;
use gitql::engine_function::selects_changes;
use gitql::engine_function::table_names;
use gitql::engine_function::table_of;
use gitql::engine_function::table_schema;
use gitql::engine_function::BranchRecord;
use gitql::engine_function::CommitRecord;
use gitql::engine_function::DiffRecord;
use gitql::engine_function::ReferenceRecord;
use gitql::engine_function::Repository;
use gitql::engine_function::Table;
use gitql::engine_function::TagRecord;
use gitql::name_map::NameMap;
use gitql::object::GQLObject;
use gitql::types::DataType;
use gitql::value::Value;

fn reference(name: &str, branch: bool, remote: bool, tag: bool, note: bool) -> ReferenceRecord {
    ReferenceRecord {
        name: name.to_string(),
        full_name: format!("refs/{}", name),
        is_branch: branch,
        is_remote: remote,
        is_tag: tag,
        is_note: note,
    }
}

fn repository() -> Repository {
    Repository {
        path: "/repo/.git/".to_string(),
        references: vec![
            reference("main", true, false, false, false),
            reference("origin/main", false, true, false, false),
            reference("v1", false, false, true, false),
            reference("commits", false, false, false, true),
            reference("stash", false, false, false, false),
        ],
        commits: vec![
            CommitRecord {
                commit_id: "c1".to_string(),
                name: "Ada".to_string(),
                email: "b@x".to_string(),
                title: "first".to_string(),
                message: "first\n\nbody".to_string(),
                time: 100,
            },
            CommitRecord {
                commit_id: "c2".to_string(),
                name: "Bo".to_string(),
                email: "a@x".to_string(),
                title: "second".to_string(),
                message: "second".to_string(),
                time: 200,
            },
        ],
        diffs: vec![DiffRecord {
            commit_id: "c1".to_string(),
            name: "Ada".to_string(),
            email: "b@x".to_string(),
            insertions: 10,
            deletions: 2,
            files_changed: 3,
        }],
        branches: vec![BranchRecord {
            name: "main".to_string(),
            commit_count: 7,
            is_head: true,
            is_remote: false,
        }],
        tags: vec![TagRecord { name: "v1".to_string() }, TagRecord { name: "v2".to_string() }],
    }
}

fn names(row: &GQLObject) -> Vec<String> {
    row.attributes.names.clone()
}

fn literals(row: &GQLObject) -> Vec<String> {
    row.attributes.items.iter().map(|v| v.literal()).collect()
}

fn strings(items: &[&str]) -> Vec<String> {
    items.iter().map(|s| s.to_string()).collect()
}

#[test]
fn tables_by_name() {
    assert_eq!(table_of("refs"), Some(Table::References));
    assert_eq!(table_of("commits"), Some(Table::Commits));
    assert_eq!(table_of("branches"), Some(Table::Branches));
    assert_eq!(table_of("diffs"), Some(Table::Diffs));
    assert_eq!(table_of("tags"), Some(Table::Tags));
    assert_eq!(table_of("Refs"), None);
    assert_eq!(table_of(""), None);
}

#[test]
fn all_columns_of_references() {
    let rows = select_references(&repository(), vec![], NameMap::new());
    assert_eq!(rows.len(), 5);
    assert_eq!(names(&rows[0]), vec!["name", "full_name", "type", "repo"]);
    assert_eq!(literals(&rows[0]), vec!["main", "refs/main", "branch", "/repo/.git/"]);
    let kinds: Vec<String> = rows.iter().map(|r| r.get("type").unwrap().literal()).collect();
    assert_eq!(kinds, vec!["branch", "remote", "tag", "note", "other"]);
}

#[test]
fn the_kind_of_a_reference_is_the_first_that_holds() {
    assert_eq!(reference_kind(&reference("x", true, true, true, true)), "branch");
    assert_eq!(reference_kind(&reference("x", false, true, true, true)), "remote");
    assert_eq!(reference_kind(&reference("x", false, false, true, true)), "tag");
    assert_eq!(reference_kind(&reference("x", false, false, false, true)), "note");
    assert_eq!(reference_kind(&reference("x", false, false, false, false)), "other");
}

#[test]
fn selected_columns_under_their_aliases() {
    let mut alias_table: NameMap<String> = NameMap::new();
    alias_table.insert("name".to_string(), "branch".to_string());
    let rows = select_references(&repository(), strings(&["type", "name"]), alias_table);
    assert_eq!(names(&rows[0]), vec!["branch", "type"]);
    assert_eq!(literals(&rows[0]), vec!["main", "branch"]);
    assert_eq!(literals(&rows[2]), vec!["v1", "tag"]);
}

#[test]
fn columns_with_one_alias_share_a_place() {
    let mut alias_table: NameMap<String> = NameMap::new();
    alias_table.insert("name".to_string(), "x".to_string());
    alias_table.insert("repo".to_string(), "x".to_string());
    let rows = select_tags(&repository(), vec![], alias_table);
    assert_eq!(names(&rows[0]), vec!["x"]);
    assert_eq!(literals(&rows[0]), vec!["/repo/.git/"]);
}

#[test]
fn all_columns_of_commits() {
    let rows = select_commits(&repository(), vec![], NameMap::new());
    assert_eq!(rows.len(), 2);
    assert_eq!(
        names(&rows[0]),
        vec!["commit_id", "name", "email", "title", "message", "time", "repo"]
    );
    assert_eq!(
        literals(&rows[1]),
        vec!["c2", "Bo", "a@x", "second", "second", "200", "/repo/.git/"]
    );
    assert!(rows[0].get("time").unwrap().equals(&Value::Date(100)));
}

#[test]
fn all_columns_of_diffs() {
    let rows = select_diffs(&repository(), vec![], NameMap::new());
    assert_eq!(rows.len(), 1);
    assert_eq!(
        names(&rows[0]),
        vec!["commit_id", "name", "email", "repo", "insertions", "deletions", "files_changed"]
    );
    assert!(rows[0].get("insertions").unwrap().equals(&Value::Integer(10)));
    assert!(rows[0].get("deletions").unwrap().equals(&Value::Integer(2)));
    assert!(rows[0].get("files_changed").unwrap().equals(&Value::Integer(3)));
    let some = select_diffs(&repository(), strings(&["deletions"]), NameMap::new());
    assert_eq!(names(&some[0]), vec!["deletions"]);
}

#[test]
fn all_columns_of_branches() {
    let rows = select_branches(&repository(), vec![], NameMap::new());
    assert_eq!(rows.len(), 1);
    assert_eq!(names(&rows[0]), vec!["name", "commit_count", "is_head", "is_remote", "repo"]);
    assert!(rows[0].get("commit_count").unwrap().equals(&Value::Integer(7)));
    assert!(rows[0].get("is_head").unwrap().equals(&Value::Boolean(true)));
    assert!(rows[0].get("is_remote").unwrap().equals(&Value::Boolean(false)));
}

#[test]
fn all_columns_of_tags() {
    let rows = select_tags(&repository(), vec![], NameMap::new());
    assert_eq!(rows.len(), 2);
    assert_eq!(names(&rows[1]), vec!["name", "repo"]);
    assert_eq!(literals(&rows[1]), vec!["v2", "/repo/.git/"]);
}

#[test]
fn a_column_that_no_table_has_is_left_out() {
    let rows = select_tags(&repository(), strings(&["title"]), NameMap::new());
    assert_eq!(rows.len(), 2);
    assert!(names(&rows[0]).is_empty());
}

#[test]
fn rows_of_the_table_that_is_named() {
    let repo = repository();
    let refs = select_gql_objects(&repo, "refs".to_string(), vec![], NameMap::new()).unwrap();
    assert_eq!(refs.len(), 5);
    let commits =
        select_gql_objects(&repo, "commits".to_string(), strings(&["name"]), NameMap::new())
            .unwrap();
    assert_eq!(commits.len(), 2);
    assert_eq!(literals(&commits[0]), vec!["Ada"]);
    let branches =
        select_gql_objects(&repo, "branches".to_string(), vec![], NameMap::new()).unwrap();
    assert_eq!(branches.len(), 1);
    let diffs = select_gql_objects(&repo, "diffs".to_string(), vec![], NameMap::new()).unwrap();
    assert_eq!(diffs.len(), 1);
    let tags = select_gql_objects(&repo, "tags".to_string(), vec![], NameMap::new()).unwrap();
    assert_eq!(tags.len(), 2);
}

#[test]
fn a_name_that_is_no_table_is_an_error() {
    let repo = repository();
    for name in ["files", "Refs", "", "refs "] {
        assert_eq!(
            select_gql_objects(&repo, name.to_string(), vec![], NameMap::new()).unwrap_err(),
            RuntimeError::UnknownTable
        );
    }
}

#[test]
fn a_table_without_rows_is_no_error() {
    let mut repo = repository();
    repo.tags.clear();
    let tags = select_gql_objects(&repo, "tags".to_string(), vec![], NameMap::new()).unwrap();
    assert!(tags.is_empty());
}

#[test]
fn every_row_of_a_table_has_the_same_names() {
    let repo = repository();
    let mut alias_table: NameMap<String> = NameMap::new();
    alias_table.insert("name".to_string(), "ref".to_string());
    let rows = select_gql_objects(
        &repo,
        "refs".to_string(),
        strings(&["repo", "name", "nowhere"]),
        alias_table,
    )
    .unwrap();
    for row in &rows {
        assert_eq!(names(row), vec!["ref", "repo"]);
        assert_eq!(row.attributes.items.len(), 2);
    }
}

#[test]
fn a_column_is_added_where_it_is_asked_for() {
    let mut row = GQLObject::new();
    let aliases: NameMap<String> = NameMap::new();
    add_column(&mut row, &strings(&["a"]), &aliases, "a", Value::Integer(1));
    add_column(&mut row, &strings(&["a"]), &aliases, "b", Value::Integer(2));
    add_column(&mut row, &vec![], &aliases, "c", Value::Integer(3));
    assert_eq!(names(&row), vec!["a", "c"]);
    assert_eq!(literals(&row), vec!["1", "3"]);
}

#[test]
fn the_tables_and_their_columns() {
    assert_eq!(table_names(), vec!["refs", "commits", "branches", "diffs", "tags"]);
    for name in table_names() {
        assert!(table_of(&name).is_some());
    }
    let refs = table_schema(Table::References);
    assert_eq!(refs.names, vec!["name", "full_name", "type", "repo"]);
    assert!(refs.items.iter().all(|t| t.equals(&DataType::Text)));
    let commits = table_schema(Table::Commits);
    assert_eq!(
        commits.names,
        vec!["commit_id", "name", "email", "title", "message", "time", "repo"]
    );
    assert!(commits.get("time").unwrap().equals(&DataType::Date));
    assert!(commits.get("title").unwrap().equals(&DataType::Text));
    let branches = table_schema(Table::Branches);
    assert_eq!(branches.names, vec!["name", "commit_count", "is_head", "is_remote", "repo"]);
    assert!(branches.get("commit_count").unwrap().equals(&DataType::Integer));
    assert!(branches.get("is_head").unwrap().equals(&DataType::Boolean));
    assert!(branches.get("is_remote").unwrap().equals(&DataType::Boolean));
    let diffs = table_schema(Table::Diffs);
    assert_eq!(
        diffs.names,
        vec!["commit_id", "name", "email", "insertions", "deletions", "files_changed", "repo"]
    );
    assert!(diffs.get("insertions").unwrap().equals(&DataType::Integer));
    assert!(diffs.get("deletions").unwrap().equals(&DataType::Integer));
    assert!(diffs.get("files_changed").unwrap().equals(&DataType::Integer));
    assert!(diffs.get("repo").unwrap().equals(&DataType::Text));
    let tags = table_schema(Table::Tags);
    assert_eq!(tags.names, vec!["name", "repo"]);
    assert!(tags.get("other").is_none());
}

#[test]
fn the_columns_of_a_table_are_those_of_its_rows() {
    let repo = repository();
    for (name, table) in [
        ("refs", Table::References),
        ("commits", Table::Commits),
        ("branches", Table::Branches),
        ("diffs", Table::Diffs),
        ("tags", Table::Tags),
    ] {
        let rows =
            select_gql_objects(&repo, name.to_string(), vec![], NameMap::new()).unwrap();
        let schema = table_schema(table);
        let mut columns = names(&rows[0]);
        let mut expected = schema.names.clone();
        columns.sort();
        expected.sort();
        assert_eq!(columns, expected);
        for (column, data_type) in schema.names.iter().zip(schema.items.iter()) {
            assert!(rows[0].get(column).unwrap().data_type().equals(data_type));
        }
    }
}

#[test]
fn which_columns_are_asked_for() {
    assert!(selects(&vec![], "name"));
    assert!(selects(&strings(&["name"]), "name"));
    assert!(!selects(&strings(&["name"]), "repo"));
    assert!(selects_changes(&vec![]));
    assert!(selects_changes(&strings(&["name", "deletions"])));
    assert!(selects_changes(&strings(&["insertions"])));
    assert!(selects_changes(&strings(&["files_changed"])));
    assert!(!selects_changes(&strings(&["name", "repo"])));
}
