//! The rows of the tables: what a repository holds, as plain records, made
//! into rows of the columns that a query asks for.

use crate::engine_evaluator::RuntimeError;
use crate::name_map::find_name;
use crate::name_map::names_view;
use crate::name_map::position_of;
use crate::name_map::NameMap;
use crate::object::GQLObject;
use crate::object::empty_row;
use crate::object::put;
use crate::object::GQLObjectView;
use crate::text::same_text;
use crate::types::DataType;
use crate::types::DataTypeView;
use crate::value::Value;
use crate::value::ValueView;
use vstd::prelude::*;

verus! {

/// A reference of a repository.
#[derive(Debug)]
pub struct ReferenceRecord {
    pub name: String,
    pub full_name: String,
    pub is_branch: bool,
    pub is_remote: bool,
    pub is_tag: bool,
    pub is_note: bool,
}

/// A commit of a repository. The time is in seconds since the epoch.
#[derive(Debug)]
pub struct CommitRecord {
    pub commit_id: String,
    pub name: String,
    pub email: String,
    pub title: String,
    pub message: String,
    pub time: i64,
}

/// A commit and what it changed against its first parent.
#[derive(Debug)]
pub struct DiffRecord {
    pub commit_id: String,
    pub name: String,
    pub email: String,
    pub insertions: i64,
    pub deletions: i64,
    pub files_changed: i64,
}

/// A branch of a repository.
#[derive(Debug)]
pub struct BranchRecord {
    pub name: String,
    pub commit_count: i64,
    pub is_head: bool,
    pub is_remote: bool,
}

/// A tag of a repository.
#[derive(Debug)]
pub struct TagRecord {
    pub name: String,
}

/// What was read from a repository: its path and the records of the
/// tables that were read.
#[derive(Debug)]
pub struct Repository {
    pub path: String,
    pub references: Vec<ReferenceRecord>,
    pub commits: Vec<CommitRecord>,
    pub diffs: Vec<DiffRecord>,
    pub branches: Vec<BranchRecord>,
    pub tags: Vec<TagRecord>,
}

/// The tables.
#[derive(Clone, Copy, Debug, PartialEq, Eq, Structural)]
pub enum Table {
    References,
    Commits,
    Branches,
    Diffs,
    Tags,
}

/// The table that `name` names.
pub open spec fn table_named(name: Seq<char>) -> Option<Table> {
    if name == "refs"@ {
        Some(Table::References)
    } else if name == "commits"@ {
        Some(Table::Commits)
    } else if name == "branches"@ {
        Some(Table::Branches)
    } else if name == "diffs"@ {
        Some(Table::Diffs)
    } else if name == "tags"@ {
        Some(Table::Tags)
    } else {
        None
    }
}

/// The table that `name` names, if it names one.
pub fn table_of(name: &str) -> (table: Option<Table>)
    ensures
        table == table_named(name@),
{
    if same_text(name, "refs") {
        Some(Table::References)
    } else if same_text(name, "commits") {
        Some(Table::Commits)
    } else if same_text(name, "branches") {
        Some(Table::Branches)
    } else if same_text(name, "diffs") {
        Some(Table::Diffs)
    } else if same_text(name, "tags") {
        Some(Table::Tags)
    } else {
        None
    }
}

/// The column `column` is asked for: `fields` names it, or names nothing.
pub open spec fn is_selected(fields: Seq<Seq<char>>, column: Seq<char>) -> bool {
    fields.len() == 0 || position_of(fields, column) < fields.len()
}

/// Whether `fields` asks for the column `column`.
pub fn selects(fields: &Vec<String>, column: &str) -> (r: bool)
    ensures
        r == is_selected(names_view(fields@), column@),
{
    fields.len() == 0 || find_name(fields, column).is_some()
}

/// Whether `fields` asks for one of the columns of the table `diffs` that
/// say what a commit changed: `insertions`, `deletions` or `files_changed`.
pub fn selects_changes(fields: &Vec<String>) -> (r: bool)
    ensures
        r == (is_selected(names_view(fields@), "insertions"@) || is_selected(
            names_view(fields@),
            "deletions"@,
        ) || is_selected(names_view(fields@), "files_changed"@)),
{
    selects(fields, "insertions") || selects(fields, "deletions") || selects(
        fields,
        "files_changed",
    )
}

/// The name under which the column `column` is handed out: its alias, or
/// its own name where it has none.
pub open spec fn output_name(alias_table: &NameMap<String>, column: Seq<char>) -> Seq<char> {
    match alias_table.item(column) {
        Some(alias) => alias@,
        None => column,
    }
}

/// The row of those of `columns` that `fields` asks for, each under the
/// name that `alias_table` gives it, put in one after the other.
pub open spec fn row_of(
    columns: Seq<(Seq<char>, ValueView)>,
    fields: Seq<Seq<char>>,
    alias_table: &NameMap<String>,
) -> GQLObjectView
    decreases columns.len(),
{
    if columns.len() == 0 {
        empty_row()
    } else {
        let before = row_of(columns.drop_last(), fields, alias_table);
        let (column, value) = columns.last();
        if is_selected(fields, column) {
            put(before, output_name(alias_table, column), value)
        } else {
            before
        }
    }
}

/// The kind of a reference, as the column `type` shows it.
pub open spec fn reference_type(record: &ReferenceRecord) -> Seq<char> {
    if record.is_branch {
        "branch"@
    } else if record.is_remote {
        "remote"@
    } else if record.is_tag {
        "tag"@
    } else if record.is_note {
        "note"@
    } else {
        "other"@
    }
}

/// The columns of the table `refs` for one reference.
pub open spec fn reference_columns(record: &ReferenceRecord, path: Seq<char>) -> Seq<
    (Seq<char>, ValueView),
> {
    seq![
        ("name"@, ValueView::Text(record.name@)),
        ("full_name"@, ValueView::Text(record.full_name@)),
        ("type"@, ValueView::Text(reference_type(record))),
        ("repo"@, ValueView::Text(path)),
    ]
}

/// The columns of the table `commits` for one commit.
pub open spec fn commit_columns(record: &CommitRecord, path: Seq<char>) -> Seq<
    (Seq<char>, ValueView),
> {
    seq![
        ("commit_id"@, ValueView::Text(record.commit_id@)),
        ("name"@, ValueView::Text(record.name@)),
        ("email"@, ValueView::Text(record.email@)),
        ("title"@, ValueView::Text(record.title@)),
        ("message"@, ValueView::Text(record.message@)),
        ("time"@, ValueView::Date(record.time)),
        ("repo"@, ValueView::Text(path)),
    ]
}

/// The columns of the table `diffs` for one commit.
pub open spec fn diff_columns(record: &DiffRecord, path: Seq<char>) -> Seq<(Seq<char>, ValueView)> {
    seq![
        ("commit_id"@, ValueView::Text(record.commit_id@)),
        ("name"@, ValueView::Text(record.name@)),
        ("email"@, ValueView::Text(record.email@)),
        ("repo"@, ValueView::Text(path)),
        ("insertions"@, ValueView::Integer(record.insertions)),
        ("deletions"@, ValueView::Integer(record.deletions)),
        ("files_changed"@, ValueView::Integer(record.files_changed)),
    ]
}

/// The columns of the table `branches` for one branch.
pub open spec fn branch_columns(record: &BranchRecord, path: Seq<char>) -> Seq<
    (Seq<char>, ValueView),
> {
    seq![
        ("name"@, ValueView::Text(record.name@)),
        ("commit_count"@, ValueView::Integer(record.commit_count)),
        ("is_head"@, ValueView::Boolean(record.is_head)),
        ("is_remote"@, ValueView::Boolean(record.is_remote)),
        ("repo"@, ValueView::Text(path)),
    ]
}

/// The columns of the table `tags` for one tag.
pub open spec fn tag_columns(record: &TagRecord, path: Seq<char>) -> Seq<(Seq<char>, ValueView)> {
    seq![("name"@, ValueView::Text(record.name@)), ("repo"@, ValueView::Text(path))]
}

/// The row of the first `k` columns is that of the columns before the
/// last of them, with the last one put in where it is asked for.
pub proof fn lemma_row_step(
    columns: Seq<(Seq<char>, ValueView)>,
    k: int,
    fields: Seq<Seq<char>>,
    alias_table: &NameMap<String>,
)
    requires
        0 < k <= columns.len(),
    ensures
        row_of(columns.take(k), fields, alias_table) == if is_selected(fields, columns[k - 1].0) {
            put(
                row_of(columns.take(k - 1), fields, alias_table),
                output_name(alias_table, columns[k - 1].0),
                columns[k - 1].1,
            )
        } else {
            row_of(columns.take(k - 1), fields, alias_table)
        },
        k == columns.len() ==> columns.take(k) == columns,
{
    assert(columns.take(k).drop_last() =~= columns.take(k - 1));
    assert(columns.take(k).last() == columns[k - 1]);
    if k == columns.len() {
        assert(columns.take(k) =~= columns);
    }
}

/// One of `columns` that `fields` asks for is handed out under `name`.
pub open spec fn hands_out(
    columns: Seq<(Seq<char>, ValueView)>,
    fields: Seq<Seq<char>>,
    alias_table: &NameMap<String>,
    name: Seq<char>,
) -> bool {
    exists|j: int|
        0 <= j < columns.len() && is_selected(fields, (#[trigger] columns[j]).0) && output_name(
            alias_table,
            columns[j].0,
        ) == name
}

/// The names of a row are the names under which the columns that are
/// asked for are handed out, each once, and each has its value.
pub proof fn lemma_row_names(
    columns: Seq<(Seq<char>, ValueView)>,
    fields: Seq<Seq<char>>,
    alias_table: &NameMap<String>,
)
    ensures
        row_of(columns, fields, alias_table).names.len() == row_of(
            columns,
            fields,
            alias_table,
        ).values.len(),
        crate::name_map::distinct(row_of(columns, fields, alias_table).names),
        forall|name: Seq<char>|
            #![trigger row_of(columns, fields, alias_table).names.contains(name)]
            row_of(columns, fields, alias_table).names.contains(name) <==> hands_out(
                columns,
                fields,
                alias_table,
                name,
            ),
    decreases columns.len(),
{
    let row = row_of(columns, fields, alias_table);
    if columns.len() > 0 {
        let front = columns.drop_last();
        let before = row_of(front, fields, alias_table);
        lemma_row_names(front, fields, alias_table);
        let (column, value) = columns.last();
        let key = output_name(alias_table, column);
        crate::name_map::lemma_position_of(before.names, key);
        assert(columns[columns.len() - 1] == columns.last());
        assert forall|name: Seq<char>|
            #![trigger row.names.contains(name)]
            row.names.contains(name) <==> hands_out(columns, fields, alias_table, name) by {
            if hands_out(columns, fields, alias_table, name) {
                let j = choose|j: int|
                    0 <= j < columns.len() && is_selected(fields, (#[trigger] columns[j]).0)
                        && output_name(alias_table, columns[j].0) == name;
                if j < front.len() {
                    assert(front[j] == columns[j]);
                    assert(hands_out(front, fields, alias_table, name));
                }
            }
            if hands_out(front, fields, alias_table, name) {
                let j = choose|j: int|
                    0 <= j < front.len() && is_selected(fields, (#[trigger] front[j]).0)
                        && output_name(alias_table, front[j].0) == name;
                assert(columns[j] == front[j]);
                assert(before.names.contains(name));
                let i = choose|i: int| 0 <= i < before.names.len() && before.names[i] == name;
                assert(row.names[i] == name);
            }
            if is_selected(fields, column) && key == name {
                if position_of(before.names, key) < before.names.len() {
                    assert(row.names[position_of(before.names, key)] == name);
                } else {
                    assert(row.names[before.names.len() as int] == name);
                }
            }
            if row.names.contains(name) {
                let i = choose|i: int| 0 <= i < row.names.len() && row.names[i] == name;
                if i < before.names.len() {
                    assert(before.names[i] == name);
                    assert(before.names.contains(name));
                    let j = choose|j: int|
                        0 <= j < front.len() && is_selected(fields, (#[trigger] front[j]).0)
                            && output_name(alias_table, front[j].0) == name;
                    assert(columns[j] == front[j]);
                } else {
                    assert(is_selected(fields, columns[columns.len() - 1].0) && output_name(
                        alias_table,
                        columns[columns.len() - 1].0,
                    ) == name);
                }
            }
        }
    }
}

/// The names of a row do not depend on its values: rows of columns of the
/// same names have the same names, in the same order.
pub proof fn lemma_row_names_same(
    columns: Seq<(Seq<char>, ValueView)>,
    others: Seq<(Seq<char>, ValueView)>,
    fields: Seq<Seq<char>>,
    alias_table: &NameMap<String>,
)
    requires
        columns.len() == others.len(),
        forall|j: int| 0 <= j < columns.len() ==> (#[trigger] columns[j]).0 == others[j].0,
    ensures
        row_of(columns, fields, alias_table).names == row_of(others, fields, alias_table).names,
        row_of(columns, fields, alias_table).values.len() == row_of(
            others,
            fields,
            alias_table,
        ).values.len(),
    decreases columns.len(),
{
    if columns.len() > 0 {
        assert forall|j: int| 0 <= j < columns.drop_last().len() implies (
        #[trigger] columns.drop_last()[j]).0 == others.drop_last()[j].0 by {
            assert(columns.drop_last()[j] == columns[j]);
            assert(others.drop_last()[j] == others[j]);
        }
        lemma_row_names_same(columns.drop_last(), others.drop_last(), fields, alias_table);
        assert(columns.last() == columns[columns.len() - 1]);
        assert(others.last() == others[others.len() - 1]);
    }
    lemma_row_names(columns, fields, alias_table);
    lemma_row_names(others, fields, alias_table);
}

/// Puts `value` into `row` as the column `column`, where `fields` asks
/// for it, under the name that `alias_table` gives it.
pub fn add_column(
    row: &mut GQLObject,
    fields: &Vec<String>,
    alias_table: &NameMap<String>,
    column: &str,
    value: Value,
)
    requires
        old(row).wf(),
    ensures
        final(row).wf(),
        final(row)@ == if is_selected(names_view(fields@), column@) {
            put(old(row)@, output_name(alias_table, column@), value@)
        } else {
            old(row)@
        },
{
    if selects(fields, column) {
        let key = match alias_table.get(column) {
            Some(alias) => alias.clone(),
            None => column.to_owned(),
        };
        proof {
            crate::name_map::lemma_position_of(row@.names, key@);
        }
        row.insert(key, value);
    }
}

/// A text as a value.
fn text(t: &str) -> (v: Value)
    ensures
        v@ == ValueView::Text(t@),
{
    Value::Text(t.to_owned())
}

/// The kind of a reference, as the column `type` shows it.
pub fn reference_kind(record: &ReferenceRecord) -> (kind: String)
    ensures
        kind@ == reference_type(record),
{
    if record.is_branch {
        "branch".to_owned()
    } else if record.is_remote {
        "remote".to_owned()
    } else if record.is_tag {
        "tag".to_owned()
    } else if record.is_note {
        "note".to_owned()
    } else {
        "other".to_owned()
    }
}

/// The rows of the table `refs`: one for each reference, in their order,
/// with the columns `name`, `full_name`, `type` and `repo` as far as
/// `fields` asks for them.
pub fn select_references(
    repo: &Repository,
    fields: Vec<String>,
    alias_table: NameMap<String>,
) -> (rows: Vec<GQLObject>)
    ensures
        rows@.len() == repo.references@.len(),
        forall|i: int|
            0 <= i < rows@.len() ==> (#[trigger] rows@[i]).wf() && rows@[i]@ == row_of(
                reference_columns(&repo.references@[i], repo.path@),
                names_view(fields@),
                &alias_table,
            ),
{
    let mut rows: Vec<GQLObject> = Vec::new();
    let mut i: usize = 0;
    while i < repo.references.len()
        invariant
            i <= repo.references@.len(),
            rows@.len() == i,
            forall|j: int|
                0 <= j < i ==> (#[trigger] rows@[j]).wf() && rows@[j]@ == row_of(
                    reference_columns(&repo.references@[j], repo.path@),
                    names_view(fields@),
                    &alias_table,
                ),
        decreases repo.references@.len() - i,
    {
        let record = &repo.references[i];
        let ghost columns = reference_columns(record, repo.path@);
        let mut row = GQLObject::new();
        assert(columns.take(0) =~= Seq::empty());
        assert(row@ == row_of(columns.take(0), names_view(fields@), &alias_table));
        add_column(&mut row, &fields, &alias_table, "name", text(record.name.as_str()));
        proof {
            lemma_row_step(columns, 1, names_view(fields@), &alias_table);
        }
        assert(row@ == row_of(columns.take(1), names_view(fields@), &alias_table));
        add_column(&mut row, &fields, &alias_table, "full_name", text(record.full_name.as_str()));
        proof {
            lemma_row_step(columns, 2, names_view(fields@), &alias_table);
        }
        assert(row@ == row_of(columns.take(2), names_view(fields@), &alias_table));
        add_column(&mut row, &fields, &alias_table, "type", Value::Text(reference_kind(record)));
        proof {
            lemma_row_step(columns, 3, names_view(fields@), &alias_table);
        }
        assert(row@ == row_of(columns.take(3), names_view(fields@), &alias_table));
        add_column(&mut row, &fields, &alias_table, "repo", text(repo.path.as_str()));
        proof {
            lemma_row_step(columns, 4, names_view(fields@), &alias_table);
        }
        assert(row@ == row_of(columns.take(4), names_view(fields@), &alias_table));
        rows.push(row);
        i += 1;
    }
    rows
}

/// The rows of the table `commits`: one for each commit, in their order,
/// with the columns `commit_id`, `name`, `email`, `title`, `message`,
/// `time` and `repo` as far as `fields` asks for them.
pub fn select_commits(repo: &Repository, fields: Vec<String>, alias_table: NameMap<String>) -> (rows:
    Vec<GQLObject>)
    ensures
        rows@.len() == repo.commits@.len(),
        forall|i: int|
            0 <= i < rows@.len() ==> (#[trigger] rows@[i]).wf() && rows@[i]@ == row_of(
                commit_columns(&repo.commits@[i], repo.path@),
                names_view(fields@),
                &alias_table,
            ),
{
    let mut rows: Vec<GQLObject> = Vec::new();
    let mut i: usize = 0;
    while i < repo.commits.len()
        invariant
            i <= repo.commits@.len(),
            rows@.len() == i,
            forall|j: int|
                0 <= j < i ==> (#[trigger] rows@[j]).wf() && rows@[j]@ == row_of(
                    commit_columns(&repo.commits@[j], repo.path@),
                    names_view(fields@),
                    &alias_table,
                ),
        decreases repo.commits@.len() - i,
    {
        let record = &repo.commits[i];
        let ghost columns = commit_columns(record, repo.path@);
        let mut row = GQLObject::new();
        assert(columns.take(0) =~= Seq::empty());
        assert(row@ == row_of(columns.take(0), names_view(fields@), &alias_table));
        add_column(&mut row, &fields, &alias_table, "commit_id", text(record.commit_id.as_str()));
        proof {
            lemma_row_step(columns, 1, names_view(fields@), &alias_table);
        }
        assert(row@ == row_of(columns.take(1), names_view(fields@), &alias_table));
        add_column(&mut row, &fields, &alias_table, "name", text(record.name.as_str()));
        proof {
            lemma_row_step(columns, 2, names_view(fields@), &alias_table);
        }
        assert(row@ == row_of(columns.take(2), names_view(fields@), &alias_table));
        add_column(&mut row, &fields, &alias_table, "email", text(record.email.as_str()));
        proof {
            lemma_row_step(columns, 3, names_view(fields@), &alias_table);
        }
        assert(row@ == row_of(columns.take(3), names_view(fields@), &alias_table));
        add_column(&mut row, &fields, &alias_table, "title", text(record.title.as_str()));
        proof {
            lemma_row_step(columns, 4, names_view(fields@), &alias_table);
        }
        assert(row@ == row_of(columns.take(4), names_view(fields@), &alias_table));
        add_column(&mut row, &fields, &alias_table, "message", text(record.message.as_str()));
        proof {
            lemma_row_step(columns, 5, names_view(fields@), &alias_table);
        }
        assert(row@ == row_of(columns.take(5), names_view(fields@), &alias_table));
        add_column(&mut row, &fields, &alias_table, "time", Value::Date(record.time));
        proof {
            lemma_row_step(columns, 6, names_view(fields@), &alias_table);
        }
        assert(row@ == row_of(columns.take(6), names_view(fields@), &alias_table));
        add_column(&mut row, &fields, &alias_table, "repo", text(repo.path.as_str()));
        proof {
            lemma_row_step(columns, 7, names_view(fields@), &alias_table);
        }
        assert(row@ == row_of(columns.take(7), names_view(fields@), &alias_table));
        rows.push(row);
        i += 1;
    }
    rows
}

/// The rows of the table `diffs`: one for each commit, in their order,
/// with the columns `commit_id`, `name`, `email`, `repo`, `insertions`,
/// `deletions` and `files_changed` as far as `fields` asks for them.
pub fn select_diffs(repo: &Repository, fields: Vec<String>, alias_table: NameMap<String>) -> (rows:
    Vec<GQLObject>)
    ensures
        rows@.len() == repo.diffs@.len(),
        forall|i: int|
            0 <= i < rows@.len() ==> (#[trigger] rows@[i]).wf() && rows@[i]@ == row_of(
                diff_columns(&repo.diffs@[i], repo.path@),
                names_view(fields@),
                &alias_table,
            ),
{
    let mut rows: Vec<GQLObject> = Vec::new();
    let mut i: usize = 0;
    while i < repo.diffs.len()
        invariant
            i <= repo.diffs@.len(),
            rows@.len() == i,
            forall|j: int|
                0 <= j < i ==> (#[trigger] rows@[j]).wf() && rows@[j]@ == row_of(
                    diff_columns(&repo.diffs@[j], repo.path@),
                    names_view(fields@),
                    &alias_table,
                ),
        decreases repo.diffs@.len() - i,
    {
        let record = &repo.diffs[i];
        let ghost columns = diff_columns(record, repo.path@);
        let mut row = GQLObject::new();
        assert(columns.take(0) =~= Seq::empty());
        assert(row@ == row_of(columns.take(0), names_view(fields@), &alias_table));
        add_column(&mut row, &fields, &alias_table, "commit_id", text(record.commit_id.as_str()));
        proof {
            lemma_row_step(columns, 1, names_view(fields@), &alias_table);
        }
        assert(row@ == row_of(columns.take(1), names_view(fields@), &alias_table));
        add_column(&mut row, &fields, &alias_table, "name", text(record.name.as_str()));
        proof {
            lemma_row_step(columns, 2, names_view(fields@), &alias_table);
        }
        assert(row@ == row_of(columns.take(2), names_view(fields@), &alias_table));
        add_column(&mut row, &fields, &alias_table, "email", text(record.email.as_str()));
        proof {
            lemma_row_step(columns, 3, names_view(fields@), &alias_table);
        }
        assert(row@ == row_of(columns.take(3), names_view(fields@), &alias_table));
        add_column(&mut row, &fields, &alias_table, "repo", text(repo.path.as_str()));
        proof {
            lemma_row_step(columns, 4, names_view(fields@), &alias_table);
        }
        assert(row@ == row_of(columns.take(4), names_view(fields@), &alias_table));
        add_column(&mut row, &fields, &alias_table, "insertions", Value::Integer(record.insertions));
        proof {
            lemma_row_step(columns, 5, names_view(fields@), &alias_table);
        }
        assert(row@ == row_of(columns.take(5), names_view(fields@), &alias_table));
        add_column(&mut row, &fields, &alias_table, "deletions", Value::Integer(record.deletions));
        proof {
            lemma_row_step(columns, 6, names_view(fields@), &alias_table);
        }
        assert(row@ == row_of(columns.take(6), names_view(fields@), &alias_table));
        add_column(
            &mut row,
            &fields,
            &alias_table,
            "files_changed",
            Value::Integer(record.files_changed),
        );
        proof {
            lemma_row_step(columns, 7, names_view(fields@), &alias_table);
        }
        assert(row@ == row_of(columns.take(7), names_view(fields@), &alias_table));
        rows.push(row);
        i += 1;
    }
    rows
}

/// The rows of the table `branches`: one for each branch, in their order,
/// with the columns `name`, `commit_count`, `is_head`, `is_remote` and
/// `repo` as far as `fields` asks for them.
pub fn select_branches(repo: &Repository, fields: Vec<String>, alias_table: NameMap<String>) -> (rows:
    Vec<GQLObject>)
    ensures
        rows@.len() == repo.branches@.len(),
        forall|i: int|
            0 <= i < rows@.len() ==> (#[trigger] rows@[i]).wf() && rows@[i]@ == row_of(
                branch_columns(&repo.branches@[i], repo.path@),
                names_view(fields@),
                &alias_table,
            ),
{
    let mut rows: Vec<GQLObject> = Vec::new();
    let mut i: usize = 0;
    while i < repo.branches.len()
        invariant
            i <= repo.branches@.len(),
            rows@.len() == i,
            forall|j: int|
                0 <= j < i ==> (#[trigger] rows@[j]).wf() && rows@[j]@ == row_of(
                    branch_columns(&repo.branches@[j], repo.path@),
                    names_view(fields@),
                    &alias_table,
                ),
        decreases repo.branches@.len() - i,
    {
        let record = &repo.branches[i];
        let ghost columns = branch_columns(record, repo.path@);
        let mut row = GQLObject::new();
        assert(columns.take(0) =~= Seq::empty());
        assert(row@ == row_of(columns.take(0), names_view(fields@), &alias_table));
        add_column(&mut row, &fields, &alias_table, "name", text(record.name.as_str()));
        proof {
            lemma_row_step(columns, 1, names_view(fields@), &alias_table);
        }
        assert(row@ == row_of(columns.take(1), names_view(fields@), &alias_table));
        add_column(
            &mut row,
            &fields,
            &alias_table,
            "commit_count",
            Value::Integer(record.commit_count),
        );
        proof {
            lemma_row_step(columns, 2, names_view(fields@), &alias_table);
        }
        assert(row@ == row_of(columns.take(2), names_view(fields@), &alias_table));
        add_column(&mut row, &fields, &alias_table, "is_head", Value::Boolean(record.is_head));
        proof {
            lemma_row_step(columns, 3, names_view(fields@), &alias_table);
        }
        assert(row@ == row_of(columns.take(3), names_view(fields@), &alias_table));
        add_column(&mut row, &fields, &alias_table, "is_remote", Value::Boolean(record.is_remote));
        proof {
            lemma_row_step(columns, 4, names_view(fields@), &alias_table);
        }
        assert(row@ == row_of(columns.take(4), names_view(fields@), &alias_table));
        add_column(&mut row, &fields, &alias_table, "repo", text(repo.path.as_str()));
        proof {
            lemma_row_step(columns, 5, names_view(fields@), &alias_table);
        }
        assert(row@ == row_of(columns.take(5), names_view(fields@), &alias_table));
        rows.push(row);
        i += 1;
    }
    rows
}

/// The rows of the table `tags`: one for each tag, in their order, with
/// the columns `name` and `repo` as far as `fields` asks for them.
pub fn select_tags(repo: &Repository, fields: Vec<String>, alias_table: NameMap<String>) -> (rows:
    Vec<GQLObject>)
    ensures
        rows@.len() == repo.tags@.len(),
        forall|i: int|
            0 <= i < rows@.len() ==> (#[trigger] rows@[i]).wf() && rows@[i]@ == row_of(
                tag_columns(&repo.tags@[i], repo.path@),
                names_view(fields@),
                &alias_table,
            ),
{
    let mut rows: Vec<GQLObject> = Vec::new();
    let mut i: usize = 0;
    while i < repo.tags.len()
        invariant
            i <= repo.tags@.len(),
            rows@.len() == i,
            forall|j: int|
                0 <= j < i ==> (#[trigger] rows@[j]).wf() && rows@[j]@ == row_of(
                    tag_columns(&repo.tags@[j], repo.path@),
                    names_view(fields@),
                    &alias_table,
                ),
        decreases repo.tags@.len() - i,
    {
        let record = &repo.tags[i];
        let ghost columns = tag_columns(record, repo.path@);
        let mut row = GQLObject::new();
        assert(columns.take(0) =~= Seq::empty());
        assert(row@ == row_of(columns.take(0), names_view(fields@), &alias_table));
        add_column(&mut row, &fields, &alias_table, "name", text(record.name.as_str()));
        proof {
            lemma_row_step(columns, 1, names_view(fields@), &alias_table);
        }
        assert(row@ == row_of(columns.take(1), names_view(fields@), &alias_table));
        add_column(&mut row, &fields, &alias_table, "repo", text(repo.path.as_str()));
        proof {
            lemma_row_step(columns, 2, names_view(fields@), &alias_table);
        }
        assert(row@ == row_of(columns.take(2), names_view(fields@), &alias_table));
        rows.push(row);
        i += 1;
    }
    rows
}

/// The rows of `table`, as the five tables have them, for the row at
/// position `i`.
pub open spec fn table_row(
    repo: &Repository,
    table: Table,
    i: int,
    fields: Seq<Seq<char>>,
    alias_table: &NameMap<String>,
) -> GQLObjectView {
    match table {
        Table::References => row_of(
            reference_columns(&repo.references@[i], repo.path@),
            fields,
            alias_table,
        ),
        Table::Commits => row_of(commit_columns(&repo.commits@[i], repo.path@), fields, alias_table),
        Table::Branches => row_of(
            branch_columns(&repo.branches@[i], repo.path@),
            fields,
            alias_table,
        ),
        Table::Diffs => row_of(diff_columns(&repo.diffs@[i], repo.path@), fields, alias_table),
        Table::Tags => row_of(tag_columns(&repo.tags@[i], repo.path@), fields, alias_table),
    }
}

/// The number of rows of `table`.
pub open spec fn table_len(repo: &Repository, table: Table) -> nat {
    match table {
        Table::References => repo.references@.len(),
        Table::Commits => repo.commits@.len(),
        Table::Branches => repo.branches@.len(),
        Table::Diffs => repo.diffs@.len(),
        Table::Tags => repo.tags@.len(),
    }
}

/// `rows` are the rows of `table`, with the columns that `fields` asks for.
pub open spec fn are_table_rows(
    rows: Seq<GQLObject>,
    repo: &Repository,
    table: Table,
    fields: Seq<Seq<char>>,
    alias_table: &NameMap<String>,
) -> bool {
    &&& rows.len() == table_len(repo, table)
    &&& forall|i: int|
        0 <= i < rows.len() ==> (#[trigger] rows[i]).wf() && rows[i]@ == table_row(
            repo,
            table,
            i,
            fields,
            alias_table,
        )
}

/// The rows of the table `table` of `repo`, with the columns that `fields`
/// asks for (all columns where it names none), each under the name that
/// `alias_table` gives it. A name that is no table is an error, and it is
/// the only one.
pub fn select_gql_objects(
    repo: &Repository,
    table: String,
    fields: Vec<String>,
    alias_table: NameMap<String>,
) -> (result: Result<Vec<GQLObject>, RuntimeError>)
    ensures
        table_named(table@) is None <==> result is Err,
        match result {
            Ok(rows) => table_named(table@) is Some && are_table_rows(
                rows@,
                repo,
                table_named(table@)->0,
                names_view(fields@),
                &alias_table,
            ),
            Err(error) => error == RuntimeError::UnknownTable,
        },
{
    match table_of(table.as_str()) {
        Some(Table::References) => Ok(select_references(repo, fields, alias_table)),
        Some(Table::Commits) => Ok(select_commits(repo, fields, alias_table)),
        Some(Table::Branches) => Ok(select_branches(repo, fields, alias_table)),
        Some(Table::Diffs) => Ok(select_diffs(repo, fields, alias_table)),
        Some(Table::Tags) => Ok(select_tags(repo, fields, alias_table)),
        None => Err(RuntimeError::UnknownTable),
    }
}

/// The name of a table.
pub open spec fn name_of(table: Table) -> Seq<char> {
    match table {
        Table::References => "refs"@,
        Table::Commits => "commits"@,
        Table::Branches => "branches"@,
        Table::Diffs => "diffs"@,
        Table::Tags => "tags"@,
    }
}

/// The columns of a table and their types, in order.
pub open spec fn schema_of(table: Table) -> Seq<(Seq<char>, DataTypeView)> {
    match table {
        Table::References => seq![
            ("name"@, DataTypeView::Text),
            ("full_name"@, DataTypeView::Text),
            ("type"@, DataTypeView::Text),
            ("repo"@, DataTypeView::Text),
        ],
        Table::Commits => seq![
            ("commit_id"@, DataTypeView::Text),
            ("name"@, DataTypeView::Text),
            ("email"@, DataTypeView::Text),
            ("title"@, DataTypeView::Text),
            ("message"@, DataTypeView::Text),
            ("time"@, DataTypeView::Date),
            ("repo"@, DataTypeView::Text),
        ],
        Table::Branches => seq![
            ("name"@, DataTypeView::Text),
            ("commit_count"@, DataTypeView::Integer),
            ("is_head"@, DataTypeView::Boolean),
            ("is_remote"@, DataTypeView::Boolean),
            ("repo"@, DataTypeView::Text),
        ],
        Table::Diffs => seq![
            ("commit_id"@, DataTypeView::Text),
            ("name"@, DataTypeView::Text),
            ("email"@, DataTypeView::Text),
            ("insertions"@, DataTypeView::Integer),
            ("deletions"@, DataTypeView::Integer),
            ("files_changed"@, DataTypeView::Integer),
            ("repo"@, DataTypeView::Text),
        ],
        Table::Tags => seq![("name"@, DataTypeView::Text), ("repo"@, DataTypeView::Text)],
    }
}

/// The names of the tables.
pub fn table_names() -> (names: Vec<String>)
    ensures
        names_view(names@) == seq![
            name_of(Table::References),
            name_of(Table::Commits),
            name_of(Table::Branches),
            name_of(Table::Diffs),
            name_of(Table::Tags),
        ],
{
    let mut names: Vec<String> = Vec::new();
    names.push("refs".to_owned());
    names.push("commits".to_owned());
    names.push("branches".to_owned());
    names.push("diffs".to_owned());
    names.push("tags".to_owned());
    assert(names_view(names@) =~= seq![
        name_of(Table::References),
        name_of(Table::Commits),
        name_of(Table::Branches),
        name_of(Table::Diffs),
        name_of(Table::Tags),
    ]);
    names
}

/// The types of a sequence of types.
pub open spec fn column_types(types: Seq<DataType>) -> Seq<DataTypeView> {
    types.map_values(|t: DataType| t@)
}

/// The names of the columns of a schema.
pub open spec fn schema_names(schema: Seq<(Seq<char>, DataTypeView)>) -> Seq<Seq<char>> {
    schema.map_values(|c: (Seq<char>, DataTypeView)| c.0)
}

/// The types of the columns of a schema.
pub open spec fn schema_types(schema: Seq<(Seq<char>, DataTypeView)>) -> Seq<DataTypeView> {
    schema.map_values(|c: (Seq<char>, DataTypeView)| c.1)
}

/// Puts a further column into a schema.
fn add_to_schema(names: &mut Vec<String>, types: &mut Vec<DataType>, name: &str, data_type: DataType)
    ensures
        names_view(final(names)@) == names_view(old(names)@).push(name@),
        column_types(final(types)@) == column_types(old(types)@).push(data_type@),
{
    names.push(name.to_owned());
    types.push(data_type);
    assert(names_view(names@) =~= names_view(old(names)@).push(name@));
    assert(column_types(types@) =~= column_types(old(types)@).push(data_type@));
}

/// The columns of `table` and their types, in order.
pub fn table_schema(table: Table) -> (schema: NameMap<DataType>)
    ensures
        schema.keys() == schema_names(schema_of(table)),
        column_types(schema.items@) == schema_types(schema_of(table)),
{
    let mut names: Vec<String> = Vec::new();
    let mut types: Vec<DataType> = Vec::new();
    assert(names_view(names@) =~= Seq::<Seq<char>>::empty());
    assert(column_types(types@) =~= Seq::<DataTypeView>::empty());
    match table {
        Table::References => {
            add_to_schema(&mut names, &mut types, "name", DataType::Text);
            add_to_schema(&mut names, &mut types, "full_name", DataType::Text);
            add_to_schema(&mut names, &mut types, "type", DataType::Text);
            add_to_schema(&mut names, &mut types, "repo", DataType::Text);
        },
        Table::Commits => {
            add_to_schema(&mut names, &mut types, "commit_id", DataType::Text);
            add_to_schema(&mut names, &mut types, "name", DataType::Text);
            add_to_schema(&mut names, &mut types, "email", DataType::Text);
            add_to_schema(&mut names, &mut types, "title", DataType::Text);
            add_to_schema(&mut names, &mut types, "message", DataType::Text);
            add_to_schema(&mut names, &mut types, "time", DataType::Date);
            add_to_schema(&mut names, &mut types, "repo", DataType::Text);
        },
        Table::Branches => {
            add_to_schema(&mut names, &mut types, "name", DataType::Text);
            add_to_schema(&mut names, &mut types, "commit_count", DataType::Integer);
            add_to_schema(&mut names, &mut types, "is_head", DataType::Boolean);
            add_to_schema(&mut names, &mut types, "is_remote", DataType::Boolean);
            add_to_schema(&mut names, &mut types, "repo", DataType::Text);
        },
        Table::Diffs => {
            add_to_schema(&mut names, &mut types, "commit_id", DataType::Text);
            add_to_schema(&mut names, &mut types, "name", DataType::Text);
            add_to_schema(&mut names, &mut types, "email", DataType::Text);
            add_to_schema(&mut names, &mut types, "insertions", DataType::Integer);
            add_to_schema(&mut names, &mut types, "deletions", DataType::Integer);
            add_to_schema(&mut names, &mut types, "files_changed", DataType::Integer);
            add_to_schema(&mut names, &mut types, "repo", DataType::Text);
        },
        Table::Tags => {
            add_to_schema(&mut names, &mut types, "name", DataType::Text);
            add_to_schema(&mut names, &mut types, "repo", DataType::Text);
        },
    }
    let schema = NameMap { names, items: types };
    assert(schema.keys() =~= schema_names(schema_of(table)));
    assert(column_types(schema.items@) =~= schema_types(schema_of(table)));
    schema
}

} // verus!
