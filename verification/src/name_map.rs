//! Maps from names to items that keep the order in which the names came.

use crate::text::same_text;
use vstd::prelude::*;

verus! {

/// The first position of `names` at which `name` stands, or the length of
/// `names` where it stands nowhere.
pub open spec fn position_of(names: Seq<Seq<char>>, name: Seq<char>) -> int
    decreases names.len(),
{
    if names.len() == 0 {
        0
    } else if names[0] == name {
        0
    } else {
        1 + position_of(names.drop_first(), name)
    }
}

/// `position_of` is the least position that holds `name`.
pub proof fn lemma_position_of(names: Seq<Seq<char>>, name: Seq<char>)
    ensures
        0 <= position_of(names, name) <= names.len(),
        position_of(names, name) < names.len() ==> names[position_of(names, name)] == name,
        forall|i: int| 0 <= i < position_of(names, name) ==> names[i] != name,
    decreases names.len(),
{
    if names.len() > 0 && names[0] != name {
        lemma_position_of(names.drop_first(), name);
        assert forall|i: int| 0 <= i < position_of(names, name) implies names[i] != name by {
            if i > 0 {
                assert(names[i] == names.drop_first()[i - 1]);
            }
        }
    }
}

/// The position that `position_of` names is the only candidate: the least
/// one that holds `name`, or the length.
pub proof fn lemma_position_is(names: Seq<Seq<char>>, name: Seq<char>, at: int)
    requires
        0 <= at <= names.len(),
        at < names.len() ==> names[at] == name,
        forall|i: int| 0 <= i < at ==> names[i] != name,
    ensures
        position_of(names, name) == at,
{
    lemma_position_of(names, name);
}

/// No name stands twice in `names`.
pub open spec fn distinct(names: Seq<Seq<char>>) -> bool {
    forall|i: int, j: int| 0 <= i < j < names.len() ==> names[i] != names[j]
}

/// The position of `name` among `names`, if it is there.
pub fn find_name(names: &Vec<String>, name: &str) -> (at: Option<usize>)
    ensures
        match at {
            Some(i) => i < names@.len() && i == position_of(names_view(names@), name@),
            None => position_of(names_view(names@), name@) == names@.len(),
        },
{
    let mut i: usize = 0;
    while i < names.len()
        invariant
            i <= names@.len(),
            forall|j: int| 0 <= j < i ==> names_view(names@)[j] != name@,
        decreases names@.len() - i,
    {
        if same_text(names[i].as_str(), name) {
            proof {
                lemma_position_is(names_view(names@), name@, i as int);
            }
            return Some(i);
        }
        i += 1;
    }
    proof {
        lemma_position_is(names_view(names@), name@, i as int);
    }
    None
}

/// The texts of a sequence of strings.
pub open spec fn names_view(names: Seq<String>) -> Seq<Seq<char>> {
    names.map_values(|n: String| n@)
}

/// Items under names: each name at most once, in the order in which the
/// names were first put in.
#[derive(Debug)]
pub struct NameMap<T> {
    pub names: Vec<String>,
    pub items: Vec<T>,
}

impl<T> NameMap<T> {
    /// Every name has its item, and no name stands twice.
    pub open spec fn wf(&self) -> bool {
        &&& self.names@.len() == self.items@.len()
        &&& distinct(names_view(self.names@))
    }

    /// The names, in order.
    pub open spec fn keys(&self) -> Seq<Seq<char>> {
        names_view(self.names@)
    }

    /// The position of `name`, or the number of names where it is not there.
    pub open spec fn index_of(&self, name: Seq<char>) -> int {
        position_of(names_view(self.names@), name)
    }

    /// The item under `name`, if there is one.
    pub open spec fn item(&self, name: Seq<char>) -> Option<T> {
        let at = self.index_of(name);
        if at < self.names@.len() && at < self.items@.len() {
            Some(self.items@[at])
        } else {
            None
        }
    }

    /// A map without names.
    pub fn new() -> (map: NameMap<T>)
        ensures
            map.wf(),
            map.names@.len() == 0,
            map.items@.len() == 0,
            forall|name: Seq<char>| map.item(name) is None,
    {
        NameMap { names: Vec::new(), items: Vec::new() }
    }

    /// The number of names.
    pub fn len(&self) -> (n: usize)
        ensures
            n == self.names@.len(),
    {
        self.names.len()
    }

    /// The item under `name`, if there is one.
    pub fn get(&self, name: &str) -> (found: Option<&T>)
        ensures
            match found {
                Some(item) => self.item(name@) == Some(*item),
                None => self.item(name@) is None,
            },
    {
        match find_name(&self.names, name) {
            Some(i) => if i < self.items.len() {
                Some(&self.items[i])
            } else {
                None
            },
            None => None,
        }
    }

    /// The map holds an item under `name`.
    pub fn contains_key(&self, name: &str) -> (r: bool)
        ensures
            r == self.item(name@) is Some,
    {
        self.get(name).is_some()
    }

    /// Puts `item` under `name`: in place of the item that stood there, or,
    /// where none did, behind all others.
    pub fn insert(&mut self, name: String, item: T)
        requires
            old(self).wf(),
        ensures
            final(self).wf(),
            final(self).item(name@) == Some(item),
            forall|other: Seq<char>|
                other != name@ ==> final(self).item(other) == old(self).item(other),
            old(self).item(name@) is Some ==> final(self).keys() == old(self).keys() && final(self).items@ == old(self).items@.update(old(self).index_of(name@), item),
            old(self).item(name@) is None ==> final(self).keys() == old(self).keys().push(name@)
                && final(self).items@ == old(self).items@.push(item),
    {
        let ghost before = *self;
        proof {
            lemma_position_of(before.keys(), name@);
        }
        match find_name(&self.names, name.as_str()) {
            Some(i) => {
                self.items.set(i, item);
                assert forall|other: Seq<char>| other != name@ implies self.item(other)
                    == before.item(other) by {
                    lemma_position_of(before.keys(), other);
                }
            },
            None => {
                self.names.push(name);
                self.items.push(item);
                assert(self.keys() =~= before.keys().push(name@));
                proof {
                    lemma_position_is(self.keys(), name@, before.keys().len() as int);
                }
                assert forall|other: Seq<char>| other != name@ implies self.item(other)
                    == before.item(other) by {
                    lemma_position_of(before.keys(), other);
                    let at = position_of(before.keys(), other);
                    lemma_position_is(
                        self.keys(),
                        other,
                        if at < before.keys().len() {
                            at
                        } else {
                            self.keys().len() as int
                        },
                    );
                }
            },
        }
    }
}

} // verus!
