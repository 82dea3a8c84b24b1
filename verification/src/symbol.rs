//! Interning of names.
use vstd::prelude::*;
use vstd::string::StringExecFns;

use crate::limits::MAX_TABLE;
use crate::opcode::SymbolId;
use crate::text::str_eq;

verus! {

/// The position of the first occurrence of `name` at or after `from`.
pub open spec fn position_from(names: Seq<Seq<char>>, name: Seq<char>, from: nat) -> Option<nat>
    decreases names.len() - from,
{
    if from >= names.len() {
        None
    } else if names[from as int] == name {
        Some(from)
    } else {
        position_from(names, name, from + 1)
    }
}

/// The position of the first occurrence of `name`.
pub open spec fn position(names: Seq<Seq<char>>, name: Seq<char>) -> Option<nat> {
    position_from(names, name, 0)
}

/// What [`position_from`] finds is an occurrence of the name, and the first one.
pub proof fn lemma_position(names: Seq<Seq<char>>, name: Seq<char>, from: nat)
    ensures
        match position_from(names, name, from) {
            Some(i) => from <= i < names.len() && names[i as int] == name && forall|j: int|
                from <= j < i ==> names[j] != name,
            None => forall|j: int| from <= j < names.len() ==> names[j] != name,
        },
    decreases names.len() - from,
{
    if from < names.len() && names[from as int] != name {
        lemma_position(names, name, from + 1);
    }
}

/// Appending a name changes no earlier answer, and makes the new name findable.
pub proof fn lemma_position_push(names: Seq<Seq<char>>, added: Seq<char>, name: Seq<char>, from: nat)
    requires
        from <= names.len(),
    ensures
        position_from(names.push(added), name, from) == (match position_from(names, name, from) {
            Some(i) => Some(i),
            None => if added == name {
                Some(names.len())
            } else {
                None
            },
        }),
    decreases names.len() - from,
{
    let longer = names.push(added);
    if from < names.len() {
        assert(longer[from as int] == names[from as int]);
        if names[from as int] != name {
            lemma_position_push(names, added, name, from + 1);
        }
    } else {
        assert(longer[from as int] == added);
        assert(position_from(longer, name, from + 1) is None);
    }
}

/// The names known to an environment, each with the identifier it was given.
/// Identifiers are handed out in order, starting at 0.
#[derive(Debug)]
pub struct SymbolTable {
    symbols: Vec<String>,
}

impl View for SymbolTable {
    type V = Seq<Seq<char>>;

    closed spec fn view(&self) -> Seq<Seq<char>> {
        Seq::new(self.symbols@.len(), |i: int| self.symbols@[i]@)
    }
}

impl SymbolTable {
    /// The table holds no more names than there are identifiers.
    pub closed spec fn wf(&self) -> bool {
        self.symbols@.len() <= MAX_TABLE
    }

    pub fn new() -> (table: Self)
        ensures
            table.wf(),
            table@ == Seq::<Seq<char>>::empty(),
    {
        let table = Self { symbols: Vec::new() };
        assert(table@ =~= Seq::<Seq<char>>::empty());
        table
    }

    /// A well-formed table holds no more names than there are identifiers.
    pub proof fn lemma_bounded(&self)
        requires
            self.wf(),
        ensures
            self@.len() <= MAX_TABLE,
    {
    }

    /// The number of names in the table.
    pub fn len(&self) -> (n: usize)
        requires
            self.wf(),
        ensures
            n == self@.len(),
            n <= MAX_TABLE,
    {
        self.symbols.len()
    }

    /// The identifier of a name, if the table knows it.
    pub fn resolve(&self, name_query: &str) -> (symbol: Option<SymbolId>)
        requires
            self.wf(),
        ensures
            symbol is Some == position(self@, name_query@) is Some,
            symbol matches Some(id) ==> position(self@, name_query@) == Some(id.0 as nat),
    {
        let mut i: usize = 0;
        while i < self.symbols.len()
            invariant
                i <= self.symbols.len(),
                self.symbols@.len() <= MAX_TABLE,
                position(self@, name_query@) == position_from(self@, name_query@, i as nat),
            decreases self.symbols.len() - i,
        {
            if str_eq(self.symbols[i].as_str(), name_query) {
                return Some(SymbolId(i as u16));
            }
            i += 1;
        }
        None
    }

    /// The identifier of a name; a name that is new to the table is added.
    pub fn intern_symbol(&mut self, name: &str) -> (symbol: SymbolId)
        requires
            old(self).wf(),
            position(old(self)@, name@) is Some || old(self)@.len() < MAX_TABLE,
        ensures
            final(self).wf(),
            final(self)@ == (if position(old(self)@, name@) is Some {
                old(self)@
            } else {
                old(self)@.push(name@)
            }),
            position(final(self)@, name@) == Some(symbol.0 as nat),
    {
        match self.resolve(name) {
            Some(symbol) => symbol,
            None => {
                let next_index: usize = self.symbols.len();
                proof {
                    lemma_position_push(self@, name@, name@, 0);
                }
                let ghost before = self@;
                self.symbols.push(String::from_str(name));
                assert(self@ =~= before.push(name@));
                SymbolId(next_index as u16)
            },
        }
    }

    /// Add a name that is new to the table.  A name the table knows already,
    /// or any name once the table is full, is refused.
    pub fn insert_unique(&mut self, name: &str) -> (symbol: Option<SymbolId>)
        requires
            old(self).wf(),
        ensures
            final(self).wf(),
            symbol is Some <==> position(old(self)@, name@) is None && old(self)@.len()
                < MAX_TABLE,
            symbol matches Some(id) ==> id.0 == old(self)@.len() && final(self)@ == old(
                self,
            )@.push(name@),
            symbol is None ==> final(self)@ == old(self)@,
    {
        match self.resolve(name) {
            Some(_) => None,
            None => {
                let next_index: usize = self.symbols.len();
                if next_index >= MAX_TABLE {
                    return None;
                }
                let ghost before = self@;
                self.symbols.push(String::from_str(name));
                assert(self@ =~= before.push(name@));
                Some(SymbolId(next_index as u16))
            },
        }
    }

    /// The name of a symbol.
    pub fn name_of(&self, symbol: SymbolId) -> (name: Option<&str>)
        ensures
            name is Some <==> symbol.0 < self@.len(),
            name matches Some(n) ==> n@ == self@[symbol.0 as int],
    {
        let index: usize = symbol.0 as usize;
        if index < self.symbols.len() {
            Some(self.symbols[index].as_str())
        } else {
            None
        }
    }

    /// All names with their identifiers, in the order they were added.
    pub fn items(&self) -> (items: Vec<(SymbolId, String)>)
        requires
            self.wf(),
        ensures
            items@.len() == self@.len(),
            forall|i: int|
                0 <= i < items@.len() ==> (#[trigger] items@[i]).0.0 == i && items@[i].1@
                    == self@[i],
    {
        let mut items: Vec<(SymbolId, String)> = Vec::new();
        let mut i: usize = 0;
        while i < self.symbols.len()
            invariant
                i <= self.symbols.len(),
                self.symbols@.len() <= MAX_TABLE,
                items@.len() == i,
                forall|j: int|
                    0 <= j < i ==> (#[trigger] items@[j]).0.0 == j && items@[j].1@ == self@[j],
            decreases self.symbols.len() - i,
        {
            items.push((SymbolId(i as u16), self.symbols[i].clone()));
            i += 1;
        }
        items
    }
}

} // verus!
