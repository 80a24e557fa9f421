//! Named declarations, each of which may be absent, and ordered lists of them.
//!
//! A contract type names every pathway, guard and compile-time condition it
//! could have and implements a subset of them. A name without an
//! implementation is declared absent: it stays in its list, in its place, and
//! contributes nothing.

use vstd::prelude::*;

verus! {

/// A name together with what is declared under it, if anything.
#[derive(Clone, Debug)]
pub struct Declared<D> {
    /// The name, by which the declaration is found in its list.
    pub name: String,
    /// The declaration, or `None` where the name has no implementation.
    pub decl: Option<D>,
}

impl<D> Declared<D> {
    /// Declares `name` with no implementation.
    pub fn absent(name: String) -> (entry: Self)
        ensures
            entry.name == name,
            entry.decl is None,
    {
        Declared { name, decl: None }
    }

    /// Declares `decl` under `name`.
    pub fn present(name: String, decl: D) -> (entry: Self)
        ensures
            entry.name == name,
            entry.decl == Some(decl),
    {
        Declared { name, decl: Some(decl) }
    }

    /// Whether anything is declared under the name.
    pub fn is_present(&self) -> (present: bool)
        ensures
            present == (self.decl is Some),
    {
        self.decl.is_some()
    }

    /// What is declared under the name, if anything.
    pub fn get(&self) -> (decl: Option<&D>)
        ensures
            match decl {
                Some(d) => self.decl == Some(*d),
                None => self.decl is None,
            },
    {
        self.decl.as_ref()
    }
}

/// The declarations of `entries` that are present, in the order of `entries`.
pub open spec fn present_of<D>(entries: Seq<Declared<D>>) -> Seq<D> {
    entries.filter_map(|entry: Declared<D>| entry.decl)
}

/// No two of `entries` have the same name.
pub open spec fn distinct_names<D>(entries: Seq<Declared<D>>) -> bool {
    forall|i: int, j: int|
        0 <= i < j < entries.len() ==> (#[trigger] entries[i]).name@ != (#[trigger] entries[j]).name@
}

/// `name` is the name of one of `entries`.
pub open spec fn declares<D>(entries: Seq<Declared<D>>, name: Seq<char>) -> bool {
    exists|i: int| 0 <= i < entries.len() && (#[trigger] entries[i]).name@ == name
}

/// The entry at `second` repeats the name of an earlier entry, the first of
/// that name being the one at `first`; no entry before `second` repeats a name.
pub open spec fn first_repeat<D>(entries: Seq<Declared<D>>, first: int, second: int) -> bool {
    &&& 0 <= first < second < entries.len()
    &&& entries[first].name@ == entries[second].name@
    &&& forall|i: int| 0 <= i < first ==> (#[trigger] entries[i]).name@ != entries[second].name@
    &&& distinct_names(entries.take(second))
}

/// Why a list of declarations was refused.
#[derive(Clone, Copy, Debug, PartialEq, Eq, Structural)]
pub enum DeclareError {
    /// Two declarations have the same name: the one at `second` in the order
    /// of declaration, which is the first that repeats a name, and the one at
    /// `first`, which is the first of that name.
    DuplicateName { first: usize, second: usize },
}

/// An ordered list of named declarations in which no name occurs twice. The
/// order is the order of declaration.
pub struct DeclarationList<D> {
    entries: Vec<Declared<D>>,
}

impl<D> View for DeclarationList<D> {
    type V = Seq<Declared<D>>;

    closed spec fn view(&self) -> Seq<Declared<D>> {
        self.entries@
    }
}

/// Where the first entry named `name` stands among the first `limit` of
/// `entries`.
fn find_name<D>(entries: &Vec<Declared<D>>, limit: usize, name: &String) -> (found: Option<usize>)
    requires
        limit <= entries@.len(),
    ensures
        match found {
            Some(i) => i < limit && entries@[i as int].name@ == name@ && forall|k: int|
                0 <= k < i ==> (#[trigger] entries@[k]).name@ != name@,
            None => forall|k: int| 0 <= k < limit ==> (#[trigger] entries@[k]).name@ != name@,
        },
{
    let mut i: usize = 0;
    while i < limit
        invariant
            i <= limit <= entries@.len(),
            forall|k: int| 0 <= k < i ==> (#[trigger] entries@[k]).name@ != name@,
        decreases limit - i,
    {
        if entries[i].name == *name {
            return Some(i);
        }
        i += 1;
    }
    None
}

impl<D> DeclarationList<D> {
    #[verifier::type_invariant]
    spec fn names_are_distinct(&self) -> bool {
        distinct_names(self.entries@)
    }

    /// The list without any declaration.
    pub fn new() -> (list: Self)
        ensures
            list@ == Seq::<Declared<D>>::empty(),
    {
        DeclarationList { entries: Vec::new() }
    }

    /// The list of `entries`, in their order. It is refused where two of them
    /// have the same name.
    pub fn from_declarations(entries: Vec<Declared<D>>) -> (made: Result<Self, DeclareError>)
        ensures
            match made {
                Ok(list) => distinct_names(entries@) && list@ == entries@,
                Err(DeclareError::DuplicateName { first, second }) => first_repeat(
                    entries@,
                    first as int,
                    second as int,
                ),
            },
    {
        let mut j: usize = 0;
        while j < entries.len()
            invariant
                j <= entries@.len(),
                distinct_names(entries@.take(j as int)),
            decreases entries@.len() - j,
        {
            match find_name(&entries, j, &entries[j].name) {
                Some(i) => {
                    return Err(DeclareError::DuplicateName { first: i, second: j });
                },
                None => {
                    assert forall|a: int, b: int| 0 <= a < b < j + 1 implies (
                    #[trigger] entries@.take(j + 1)[a]).name@ != (#[trigger] entries@.take(
                        j + 1,
                    )[b]).name@ by {
                        if b < j {
                            assert(entries@.take(j as int)[a].name@ != entries@.take(j as int)[b].name@);
                        }
                    }
                },
            }
            j += 1;
        }
        assert(entries@.take(j as int) == entries@);
        Ok(DeclarationList { entries })
    }

    /// Adds `entry` at the end of the list. It is refused, and the list stays
    /// as it is, where its name is declared already.
    pub fn declare(&mut self, entry: Declared<D>) -> (added: Result<(), DeclareError>)
        ensures
            distinct_names(final(self)@),
            match added {
                Ok(()) => !declares(old(self)@, entry.name@) && final(self)@ == old(self)@.push(
                    entry,
                ),
                Err(DeclareError::DuplicateName { first, second }) => {
                    &&& final(self)@ == old(self)@
                    &&& second == old(self)@.len()
                    &&& first < second
                    &&& old(self)@[first as int].name@ == entry.name@
                },
            },
    {
        proof {
            use_type_invariant(&*self);
        }
        match find_name(&self.entries, self.entries.len(), &entry.name) {
            Some(first) => Err(DeclareError::DuplicateName { first, second: self.entries.len() }),
            None => {
                let mut taken = DeclarationList::new();
                core::mem::swap(self, &mut taken);
                let mut entries = taken.entries;
                entries.push(entry);
                *self = DeclarationList { entries };
                Ok(())
            },
        }
    }

    /// The entry declared under `name`, present or absent; `None` where the
    /// list does not declare the name.
    pub fn lookup(&self, name: &String) -> (found: Option<&Declared<D>>)
        ensures
            distinct_names(self@),
            match found {
                Some(entry) => self@.contains(*entry) && entry.name@ == name@,
                None => !declares(self@, name@),
            },
    {
        proof {
            use_type_invariant(self);
        }
        match find_name(&self.entries, self.entries.len(), name) {
            Some(i) => Some(&self.entries[i]),
            None => None,
        }
    }

    /// What is declared under `name`; `None` where the name is declared absent
    /// or not declared at all.
    pub fn get(&self, name: &String) -> (found: Option<&D>)
        ensures
            distinct_names(self@),
            match found {
                Some(decl) => exists|i: int|
                    0 <= i < self@.len() && (#[trigger] self@[i]).name@ == name@ && self@[i].decl
                        == Some(*decl),
                None => forall|i: int|
                    0 <= i < self@.len() && (#[trigger] self@[i]).name@ == name@
                        ==> self@[i].decl is None,
            },
    {
        proof {
            use_type_invariant(self);
        }
        match find_name(&self.entries, self.entries.len(), name) {
            Some(i) => {
                let found = self.entries[i].decl.as_ref();
                assert(self@[i as int].name@ == name@);
                found
            },
            None => None,
        }
    }

    /// The declarations that are present, in the order of declaration. This is
    /// what is left of the list once every absent entry is skipped.
    pub fn present(&self) -> (present: Vec<&D>)
        ensures
            present@.map_values(|decl: &D| *decl) == present_of(self@),
    {
        let mut present: Vec<&D> = Vec::new();
        let mut i: usize = 0;
        while i < self.entries.len()
            invariant
                i <= self.entries@.len(),
                present@.map_values(|decl: &D| *decl) == present_of(self.entries@.take(i as int)),
            decreases self.entries@.len() - i,
        {
            proof {
                assert(self.entries@.take(i + 1).drop_last() == self.entries@.take(i as int));
            }
            match &self.entries[i].decl {
                Some(decl) => {
                    present.push(decl);
                },
                None => {},
            }
            i += 1;
        }
        assert(self.entries@.take(i as int) == self.entries@);
        present
    }

    /// Whether every name of the list is declared absent, so that the list
    /// contributes nothing.
    pub fn none_present(&self) -> (none: bool)
        ensures
            none == (present_of(self@).len() == 0),
    {
        let mut i: usize = 0;
        while i < self.entries.len()
            invariant
                i <= self.entries@.len(),
                present_of(self.entries@.take(i as int)).len() == 0,
            decreases self.entries@.len() - i,
        {
            proof {
                assert(self.entries@.take(i + 1) == self.entries@.take(i as int).push(
                    self.entries@[i as int],
                ));
                lemma_present_of_push(self.entries@.take(i as int), self.entries@[i as int]);
            }
            if self.entries[i].decl.is_some() {
                proof {
                    lemma_present_of_concat(
                        self.entries@.take(i + 1),
                        self.entries@.skip(i + 1),
                    );
                    assert(self.entries@.take(i + 1) + self.entries@.skip(i + 1) == self.entries@);
                }
                return false;
            }
            i += 1;
        }
        assert(self.entries@.take(i as int) == self.entries@);
        true
    }

    /// The number of names declared, absent ones included.
    pub fn len(&self) -> (n: usize)
        ensures
            n == self@.len(),
    {
        self.entries.len()
    }

    /// The entries in the order of declaration, absent ones included.
    pub fn entries(&self) -> (entries: &Vec<Declared<D>>)
        ensures
            entries@ == self@,
            distinct_names(self@),
    {
        proof {
            use_type_invariant(self);
        }
        &self.entries
    }
}

/// The list that declaring `more`, one entry after the other, makes of
/// `start`.
pub open spec fn declared_in_turn<D>(start: Seq<Declared<D>>, more: Seq<Declared<D>>) -> Seq<
    Declared<D>,
>
    decreases more.len(),
{
    if more.len() == 0 {
        start
    } else {
        declared_in_turn(start.push(more.first()), more.drop_first())
    }
}

/// Declarations stand in a list in the order in which they were declared:
/// declaring `more` one after the other appends `more` as it is.
pub proof fn lemma_declaration_order_is_kept<D>(start: Seq<Declared<D>>, more: Seq<Declared<D>>)
    ensures
        declared_in_turn(start, more) == start + more,
    decreases more.len(),
{
    if more.len() == 0 {
        assert(start + more =~= start);
    } else {
        lemma_declaration_order_is_kept(start.push(more.first()), more.drop_first());
        assert(start.push(more.first()) + more.drop_first() =~= start + more);
    }
}

/// What one more entry at the end adds to the present declarations: its
/// declaration where it has one, nothing where it is absent.
pub proof fn lemma_present_of_push<D>(entries: Seq<Declared<D>>, entry: Declared<D>)
    ensures
        present_of(entries.push(entry)) == match entry.decl {
            Some(decl) => present_of(entries).push(decl),
            None => present_of(entries),
        },
{
    assert(entries.push(entry).drop_last() =~= entries);
    match entry.decl {
        Some(decl) => {
            assert(present_of(entries) + seq![decl] =~= present_of(entries).push(decl));
        },
        None => {},
    }
}

/// The present declarations keep the order of their entries: those of a list
/// in two parts are those of the first part, then those of the second.
pub proof fn lemma_present_of_concat<D>(front: Seq<Declared<D>>, back: Seq<Declared<D>>)
    ensures
        present_of(front + back) == present_of(front) + present_of(back),
    decreases back.len(),
{
    if back.len() == 0 {
        assert(front + back =~= front);
        assert(present_of(front) + present_of(back) =~= present_of(front));
    } else {
        let shorter = back.drop_last();
        assert(front + back =~= (front + shorter).push(back.last()));
        assert(back =~= shorter.push(back.last()));
        lemma_present_of_push(front + shorter, back.last());
        lemma_present_of_push(shorter, back.last());
        lemma_present_of_concat(front, shorter);
        match back.last().decl {
            Some(decl) => {
                assert((present_of(front) + present_of(shorter)).push(decl) =~= present_of(front)
                    + present_of(shorter).push(decl));
            },
            None => {},
        }
    }
}

/// A name that is declared absent never shows among the present
/// declarations: they are the same as if the entry were not in the list.
pub proof fn lemma_absent_contributes_nothing<D>(entries: Seq<Declared<D>>, place: int)
    requires
        0 <= place < entries.len(),
        entries[place].decl is None,
    ensures
        present_of(entries) == present_of(entries.remove(place)),
{
    let front = entries.take(place);
    let back = entries.skip(place + 1);
    assert(entries =~= front.push(entries[place]) + back);
    assert(entries.remove(place) =~= front + back);
    lemma_present_of_push(front, entries[place]);
    lemma_present_of_concat(front.push(entries[place]), back);
    lemma_present_of_concat(front, back);
}

/// The present declarations are exactly what the entries declare: each comes
/// from an entry that has it, and each entry that has one shows.
pub proof fn lemma_present_of_membership<D>(entries: Seq<Declared<D>>, decl: D)
    ensures
        present_of(entries).contains(decl) <==> exists|i: int|
            0 <= i < entries.len() && (#[trigger] entries[i]).decl == Some(decl),
    decreases entries.len(),
{
    if entries.len() == 0 {
        assert(present_of(entries) =~= Seq::<D>::empty());
    } else {
        let shorter = entries.drop_last();
        let last = entries.last();
        assert(entries =~= shorter.push(last));
        lemma_present_of_push(shorter, last);
        lemma_present_of_membership(shorter, decl);
        if present_of(entries).contains(decl) {
            let k = choose|k: int| 0 <= k < present_of(entries).len() && present_of(entries)[k] == decl;
            if last.decl is Some && k == present_of(shorter).len() {
                assert(entries[entries.len() - 1].decl == Some(decl));
            } else {
                assert(present_of(shorter)[k] == decl);
                let i = choose|i: int|
                    0 <= i < shorter.len() && (#[trigger] shorter[i]).decl == Some(decl);
                assert(entries[i].decl == Some(decl));
            }
        }
        if exists|i: int| 0 <= i < entries.len() && (#[trigger] entries[i]).decl == Some(decl) {
            let i = choose|i: int|
                0 <= i < entries.len() && (#[trigger] entries[i]).decl == Some(decl);
            if i == entries.len() - 1 {
                assert(present_of(entries)[present_of(shorter).len() as int] == decl);
            } else {
                assert(shorter[i].decl == Some(decl));
                let k = choose|k: int|
                    0 <= k < present_of(shorter).len() && present_of(shorter)[k] == decl;
                assert(present_of(entries)[k] == decl);
            }
        }
    }
}

} // verus!
