//! Rows: those that a provider hands in, keyed by column name, and those
//! of a result, in the order of its titles.

use crate::name_map::names_view;
use crate::name_map::position_of;
use crate::name_map::NameMap;
use crate::value::value_views;
use crate::value::Value;
use crate::value::ValueView;
use vstd::prelude::*;

verus! {

/// A row as a provider hands it in: the values of its columns, each under
/// the name of the column.
#[derive(Debug)]
pub struct GQLObject {
    pub attributes: NameMap<Value>,
}

/// The mathematical value of a [`GQLObject`].
pub struct GQLObjectView {
    pub names: Seq<Seq<char>>,
    pub values: Seq<ValueView>,
}

impl GQLObjectView {
    /// The value under `name`, if there is one.
    pub open spec fn get(self, name: Seq<char>) -> Option<ValueView> {
        let at = position_of(self.names, name);
        if at < self.names.len() && at < self.values.len() {
            Some(self.values[at])
        } else {
            None
        }
    }

    /// The value under `name`, or `NULL` where there is none.
    pub open spec fn value_of(self, name: Seq<char>) -> ValueView {
        match self.get(name) {
            Some(v) => v,
            None => ValueView::Null,
        }
    }
}

impl View for GQLObject {
    type V = GQLObjectView;

    open spec fn view(&self) -> GQLObjectView {
        GQLObjectView {
            names: names_view(self.attributes.names@),
            values: value_views(self.attributes.items@),
        }
    }
}

/// `row` with `value` under `name`: in place of what stood there, or as a
/// further column.
pub open spec fn put(row: GQLObjectView, name: Seq<char>, value: ValueView) -> GQLObjectView {
    let at = position_of(row.names, name);
    if at < row.names.len() {
        GQLObjectView { names: row.names, values: row.values.update(at, value) }
    } else {
        GQLObjectView { names: row.names.push(name), values: row.values.push(value) }
    }
}

/// The row without columns.
pub open spec fn empty_row() -> GQLObjectView {
    GQLObjectView { names: Seq::empty(), values: Seq::empty() }
}

/// The values of a sequence of rows.
pub open spec fn object_views(objects: Seq<GQLObject>) -> Seq<GQLObjectView> {
    objects.map_values(|o: GQLObject| o@)
}

/// What a row holds under a name is the value of what its map holds there.
pub proof fn lemma_object_get(object: GQLObject, name: Seq<char>)
    ensures
        object@.get(name) == match object.attributes.item(name) {
            Some(v) => Some(v@),
            None => None,
        },
{
    crate::name_map::lemma_position_of(object@.names, name);
}

impl GQLObject {
    /// A copy of this row.
    pub fn duplicate(&self) -> (copy: GQLObject)
        ensures
            copy@ == self@,
            copy.attributes.names@.len() == self.attributes.names@.len(),
            copy.attributes.items@.len() == self.attributes.items@.len(),
            self.wf() ==> copy.wf(),
    {
        let mut names: Vec<String> = Vec::new();
        let mut i: usize = 0;
        while i < self.attributes.names.len()
            invariant
                i <= self.attributes.names@.len(),
                names@.len() == i,
                forall|j: int| 0 <= j < i ==> names@[j]@ == self.attributes.names@[j]@,
            decreases self.attributes.names@.len() - i,
        {
            names.push(self.attributes.names[i].clone());
            i += 1;
        }
        let mut items: Vec<Value> = Vec::new();
        let mut k: usize = 0;
        while k < self.attributes.items.len()
            invariant
                k <= self.attributes.items@.len(),
                items@.len() == k,
                forall|j: int| 0 <= j < k ==> items@[j]@ == self.attributes.items@[j]@,
            decreases self.attributes.items@.len() - k,
        {
            items.push(self.attributes.items[k].duplicate());
            k += 1;
        }
        let copy = GQLObject { attributes: NameMap { names, items } };
        assert(copy@.names =~= self@.names);
        assert(copy@.values =~= self@.values);
        copy
    }

    /// Every name has its value, and no name stands twice.
    pub open spec fn wf(&self) -> bool {
        self.attributes.wf()
    }

    /// A row without columns.
    pub fn new() -> (object: GQLObject)
        ensures
            object.wf(),
            object@.names == Seq::<Seq<char>>::empty(),
            object@.values == Seq::<ValueView>::empty(),
    {
        let object = GQLObject { attributes: NameMap::new() };
        assert(object@.names =~= Seq::<Seq<char>>::empty());
        assert(object@.values =~= Seq::<ValueView>::empty());
        object
    }

    /// The number of columns.
    pub fn len(&self) -> (n: usize)
        ensures
            n == self@.names.len(),
    {
        self.attributes.len()
    }

    /// The value under `name`, if there is one.
    pub fn get(&self, name: &str) -> (value: Option<&Value>)
        ensures
            match value {
                Some(v) => self@.get(name@) == Some(v@),
                None => self@.get(name@) is None,
            },
    {
        proof {
            lemma_object_get(*self, name@);
        }
        self.attributes.get(name)
    }

    /// Puts `value` under `name`: in place of the value that stood there,
    /// or, where none did, as a further column behind the others.
    pub fn insert(&mut self, name: String, value: Value)
        requires
            old(self).wf(),
        ensures
            final(self).wf(),
            final(self)@.get(name@) == Some(value@),
            forall|other: Seq<char>|
                other != name@ ==> final(self)@.get(other) == old(self)@.get(other),
            old(self)@.get(name@) is Some ==> final(self)@.names == old(self)@.names && final(self)@.values == old(self)@.values.update(position_of(old(self)@.names, name@), value@),
            old(self)@.get(name@) is None ==> final(self)@.names == old(self)@.names.push(name@)
                && final(self)@.values == old(self)@.values.push(value@),
            final(self)@ == put(old(self)@, name@, value@),
    {
        let ghost before = *self;
        self.attributes.insert(name, value);
        proof {
            lemma_object_get(before, name@);
            lemma_object_get(*self, name@);
            crate::name_map::lemma_position_of(before@.names, name@);
            if before@.get(name@) is Some {
                assert(self@.values =~= before@.values.update(
                    position_of(before@.names, name@),
                    value@,
                ));
            } else {
                assert(self@.values =~= before@.values.push(value@));
            }
            assert forall|other: Seq<char>| other != name@ implies self@.get(other)
                == before@.get(other) by {
                lemma_object_get(before, other);
                lemma_object_get(*self, other);
            }
        }
    }
}

/// A row of a result: its values, in the order of the titles.
#[derive(Debug)]
pub struct Row {
    pub values: Vec<Value>,
}

impl View for Row {
    type V = Seq<ValueView>;

    open spec fn view(&self) -> Seq<ValueView> {
        value_views(self.values@)
    }
}

/// The values of a sequence of rows.
pub open spec fn row_views(rows: Seq<Row>) -> Seq<Seq<ValueView>> {
    rows.map_values(|r: Row| r@)
}

/// Rows that belong together: those of one key, or all rows of a query
/// that does not group.
#[derive(Debug)]
pub struct Group {
    pub rows: Vec<Row>,
}

impl View for Group {
    type V = Seq<Seq<ValueView>>;

    open spec fn view(&self) -> Seq<Seq<ValueView>> {
        row_views(self.rows@)
    }
}

impl Group {
    /// The group holds no row.
    pub fn is_empty(&self) -> (r: bool)
        ensures
            r == (self@.len() == 0),
    {
        self.rows.len() == 0
    }

    /// The number of rows.
    pub fn len(&self) -> (n: usize)
        ensures
            n == self@.len(),
    {
        self.rows.len()
    }
}

/// The result of a query: the titles of its columns and its groups of rows.
#[derive(Debug)]
pub struct GitQLObject {
    pub titles: Vec<String>,
    pub groups: Vec<Group>,
}

/// The mathematical value of a [`GitQLObject`].
pub struct GitQLObjectView {
    pub titles: Seq<Seq<char>>,
    pub groups: Seq<Seq<Seq<ValueView>>>,
}

impl View for GitQLObject {
    type V = GitQLObjectView;

    open spec fn view(&self) -> GitQLObjectView {
        GitQLObjectView {
            titles: names_view(self.titles@),
            groups: self.groups@.map_values(|g: Group| g@),
        }
    }
}

impl GitQLObject {
    /// The result holds no group.
    pub fn is_empty(&self) -> (r: bool)
        ensures
            r == (self@.groups.len() == 0),
    {
        self.groups.len() == 0
    }

    /// The number of groups.
    pub fn len(&self) -> (n: usize)
        ensures
            n == self@.groups.len(),
    {
        self.groups.len()
    }
}

} // verus!
