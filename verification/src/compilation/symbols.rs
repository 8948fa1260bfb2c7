//! The variables that the compiler knows, by their names.

use crate::objects::variable::Variable;
use vstd::prelude::*;

verus! {

/// The map that `entries` stands for: each name with the variable that was
/// entered last under it.
pub open spec fn table_of(entries: Seq<Variable>) -> Map<Seq<char>, Variable>
    decreases entries.len(),
{
    if entries.len() == 0 {
        Map::empty()
    } else {
        table_of(entries.drop_last()).insert(entries.last().id@, entries.last())
    }
}

/// A name is in the table as soon as one entry carries it, and the table
/// gives the last such entry.
pub proof fn lemma_table_of(entries: Seq<Variable>, id: Seq<char>, last: int)
    requires
        0 <= last < entries.len(),
        entries[last].id@ == id,
        forall|k: int| last < k < entries.len() ==> entries[k].id@ != id,
    ensures
        table_of(entries).dom().contains(id),
        table_of(entries)[id] == entries[last],
    decreases entries.len(),
{
    if last < entries.len() - 1 {
        lemma_table_of(entries.drop_last(), id, last);
    }
}

/// A name that no entry carries is not in the table.
pub proof fn lemma_table_without(entries: Seq<Variable>, id: Seq<char>)
    requires
        forall|k: int| 0 <= k < entries.len() ==> entries[k].id@ != id,
    ensures
        !table_of(entries).dom().contains(id),
    decreases entries.len(),
{
    if entries.len() > 0 {
        lemma_table_without(entries.drop_last(), id);
    }
}

/// The variables of the file that is being compiled. A declaration under
/// a name that is already known replaces the earlier one.
#[derive(Debug)]
pub struct SymbolTable {
    pub entries: Vec<Variable>,
}

impl View for SymbolTable {
    type V = Map<Seq<char>, Variable>;

    open spec fn view(&self) -> Map<Seq<char>, Variable> {
        table_of(self.entries@)
    }
}

impl SymbolTable {
    /// The table without any variable.
    pub fn new() -> (table: SymbolTable)
        ensures
            table@ == Map::<Seq<char>, Variable>::empty(),
    {
        SymbolTable { entries: Vec::new() }
    }

    /// Enters `variable` under its name.
    pub fn insert(&mut self, variable: Variable)
        ensures
            final(self)@ == old(self)@.insert(variable.id@, variable),
    {
        self.entries.push(variable);
        assert(self.entries@.drop_last() =~= old(self).entries@);
    }

    /// The variable that is known as `id`, if there is one.
    pub fn get(&self, id: &String) -> (found: Option<&Variable>)
        ensures
            match found {
                Some(variable) => self@.dom().contains(id@) && *variable == self@[id@],
                None => !self@.dom().contains(id@),
            },
    {
        let mut i: usize = self.entries.len();
        while i > 0
            invariant
                i <= self.entries.len(),
                forall|k: int| i <= k < self.entries.len() ==> self.entries[k].id@ != id@,
            decreases i,
        {
            i -= 1;
            if self.entries[i].id == *id {
                proof {
                    lemma_table_of(self.entries@, id@, i as int);
                }
                return Some(&self.entries[i]);
            }
        }
        proof {
            lemma_table_without(self.entries@, id@);
        }
        None
    }

    /// Whether a variable is known as `id`.
    pub fn contains(&self, id: &String) -> (known: bool)
        ensures
            known == self@.dom().contains(id@),
    {
        self.get(id).is_some()
    }
}

} // verus!
