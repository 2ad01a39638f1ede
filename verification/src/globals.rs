//! The table of global variables: at most one variable for a name.
use vstd::prelude::*;
use crate::value::{Value, Variable, VariableView};

verus! {

/// The mapping that a list of variables stands for: each name is mapped to
/// the last variable of that name in the list.
pub open spec fn table(entries: Seq<VariableView>) -> Map<Seq<char>, VariableView>
    decreases entries.len(),
{
    if entries.len() == 0 {
        Map::empty()
    } else {
        table(entries.drop_last()).insert(entries.last().name, entries.last())
    }
}

/// What an assignment to a global did.
#[derive(Debug, Clone, Copy, PartialEq, Eq, Structural)]
pub enum Assignment {
    /// The variable holds the new value.
    Stored,
    /// The variable is immutable and keeps its value.
    Immutable,
    /// There is no variable of that name.
    Undefined,
}

/// The global variables of a machine, by name.
#[derive(Debug)]
pub struct Globals {
    entries: Vec<Variable>,
}

impl Globals {
    spec fn listed(&self) -> Seq<VariableView> {
        self.entries@.map_values(|v: Variable| v@)
    }

    /// No name is held twice. `new` gives such a table and every method
    /// keeps it so.
    pub closed spec fn wf(&self) -> bool {
        distinct(self.listed())
    }
}

/// No two entries have the same name.
spec fn distinct(entries: Seq<VariableView>) -> bool {
    forall|i: int, j: int| 0 <= i < j < entries.len() ==> entries[i].name != entries[j].name
}

/// An entry put in the place of one of the same name leaves the names
/// distinct.
proof fn lemma_update_distinct(entries: Seq<VariableView>, i: int, variable: VariableView)
    requires
        distinct(entries),
        0 <= i < entries.len(),
        entries[i].name == variable.name,
    ensures
        distinct(entries.update(i, variable)),
{
    let updated = entries.update(i, variable);
    assert forall|a: int, b: int| 0 <= a < b < updated.len() implies updated[a].name
        != updated[b].name by {
        assert(updated[a].name == entries[a].name);
        assert(updated[b].name == entries[b].name);
    }
}

/// An entry of a new name after the others leaves the names distinct.
proof fn lemma_push_distinct(entries: Seq<VariableView>, variable: VariableView)
    requires
        distinct(entries),
        absent_from(entries, 0, variable.name),
    ensures
        distinct(entries.push(variable)),
{
    let pushed = entries.push(variable);
    assert forall|a: int, b: int| 0 <= a < b < pushed.len() implies pushed[a].name
        != pushed[b].name by {
        assert(pushed[a] == entries[a]);
        if b < entries.len() {
            assert(pushed[b] == entries[b]);
        }
    }
}

impl View for Globals {
    type V = Map<Seq<char>, VariableView>;

    closed spec fn view(&self) -> Map<Seq<char>, VariableView> {
        table(self.listed())
    }
}

/// No entry from an index on has the name.
spec fn absent_from(entries: Seq<VariableView>, from: int, name: Seq<char>) -> bool {
    forall|j: int| from <= j < entries.len() ==> entries[j].name != name
}

proof fn lemma_table_last(entries: Seq<VariableView>, i: int, name: Seq<char>)
    requires
        0 <= i < entries.len(),
        entries[i].name == name,
        absent_from(entries, i + 1, name),
    ensures
        table(entries).contains_key(name),
        table(entries)[name] == entries[i],
    decreases entries.len(),
{
    if i < entries.len() - 1 {
        let front = entries.drop_last();
        assert(absent_from(front, i + 1, name)) by {
            assert forall|j: int| i + 1 <= j < front.len() implies front[j].name != name by {
                assert(front[j] == entries[j]);
            }
        }
        lemma_table_last(front, i, name);
    }
}

proof fn lemma_table_absent(entries: Seq<VariableView>, name: Seq<char>)
    requires
        absent_from(entries, 0, name),
    ensures
        !table(entries).contains_key(name),
    decreases entries.len(),
{
    if entries.len() > 0 {
        let front = entries.drop_last();
        assert(absent_from(front, 0, name)) by {
            assert forall|j: int| 0 <= j < front.len() implies front[j].name != name by {
                assert(front[j] == entries[j]);
            }
        }
        lemma_table_absent(front, name);
    }
}

proof fn lemma_table_update(entries: Seq<VariableView>, i: int, variable: VariableView)
    requires
        0 <= i < entries.len(),
        entries[i].name == variable.name,
        absent_from(entries, i + 1, variable.name),
    ensures
        table(entries.update(i, variable)) == table(entries).insert(variable.name, variable),
    decreases entries.len(),
{
    let updated = entries.update(i, variable);
    if i == entries.len() - 1 {
        assert(updated.drop_last() =~= entries.drop_last());
        assert(table(updated) =~= table(entries).insert(variable.name, variable));
    } else {
        let front = entries.drop_last();
        assert(absent_from(front, i + 1, variable.name)) by {
            assert forall|j: int| i + 1 <= j < front.len() implies front[j].name
                != variable.name by {
                assert(front[j] == entries[j]);
            }
        }
        lemma_table_update(front, i, variable);
        assert(updated.drop_last() =~= front.update(i, variable));
        assert(updated.last() == entries.last());
        assert(table(updated) =~= table(entries).insert(variable.name, variable));
    }
}

impl Globals {
    /// A table without variables.
    pub fn new() -> (globals: Globals)
        ensures
            globals@ == Map::<Seq<char>, VariableView>::empty(),
            globals.wf(),
    {
        let globals = Globals { entries: Vec::new() };
        assert(globals.listed() =~= Seq::<VariableView>::empty());
        globals
    }

    /// The index of the last entry of a name.
    fn position(&self, name: &String) -> (r: Option<usize>)
        ensures
            r is Some ==> r->0 < self.entries@.len() && self.listed()[r->0 as int].name == name@
                && absent_from(self.listed(), r->0 + 1, name@),
            r is None ==> absent_from(self.listed(), 0, name@),
    {
        let mut i: usize = self.entries.len();
        while i > 0
            invariant
                i <= self.entries@.len(),
                absent_from(self.listed(), i as int, name@),
            decreases i,
        {
            i -= 1;
            let entry_name = self.entries[i].get_name();
            assert(self.listed()[i as int] == self.entries@[i as int]@);
            if entry_name == *name {
                return Some(i);
            }
        }
        None
    }

    /// The variable of a name, if there is one.
    pub fn get(&self, name: &String) -> (r: Option<&Variable>)
        ensures
            r is Some <==> self@.contains_key(name@),
            r is Some ==> r->0@ == self@[name@],
    {
        match self.position(name) {
            Some(i) => {
                proof {
                    lemma_table_last(self.listed(), i as int, name@);
                }
                Some(&self.entries[i])
            },
            None => {
                proof {
                    lemma_table_absent(self.listed(), name@);
                }
                None
            },
        }
    }

    /// Installs a variable under its name, in place of the one that had the
    /// name, if there was one.
    pub fn insert(&mut self, variable: Variable)
        ensures
            final(self)@ == old(self)@.insert(variable@.name, variable@),
            old(self).wf() ==> final(self).wf(),
    {
        let name = variable.get_name();
        match self.position(&name) {
            Some(i) => {
                proof {
                    lemma_table_update(self.listed(), i as int, variable@);
                    if self.wf() {
                        lemma_update_distinct(self.listed(), i as int, variable@);
                    }
                }
                self.entries.set(i, variable);
                assert(self.listed() =~= old(self).listed().update(i as int, variable@));
            },
            None => {
                proof {
                    if self.wf() {
                        lemma_push_distinct(self.listed(), variable@);
                    }
                }
                self.entries.push(variable);
                assert(self.listed() =~= old(self).listed().push(variable@));
                assert(self.listed().drop_last() =~= old(self).listed());
            },
        }
    }

    /// Gives the variable of a name a new value, if there is such a variable
    /// and it is mutable.
    pub fn assign(&mut self, name: &String, value: Value) -> (r: Assignment)
        ensures
            r == (if !old(self)@.contains_key(name@) {
                Assignment::Undefined
            } else if old(self)@[name@].mutable {
                Assignment::Stored
            } else {
                Assignment::Immutable
            }),
            r == Assignment::Stored ==> final(self)@ == old(self)@.insert(
                name@,
                VariableView { value: value@, ..old(self)@[name@] },
            ),
            r != Assignment::Stored ==> final(self)@ == old(self)@,
            old(self).wf() ==> final(self).wf(),
    {
        match self.position(name) {
            Some(i) => {
                proof {
                    lemma_table_last(self.listed(), i as int, name@);
                }
                let mut variable = self.entries[i].clone();
                if variable.set_value(value) {
                    proof {
                        lemma_table_update(self.listed(), i as int, variable@);
                        if self.wf() {
                            lemma_update_distinct(self.listed(), i as int, variable@);
                        }
                    }
                    self.entries.set(i, variable);
                    assert(self.listed() =~= old(self).listed().update(i as int, variable@));
                    Assignment::Stored
                } else {
                    Assignment::Immutable
                }
            },
            None => {
                proof {
                    lemma_table_absent(self.listed(), name@);
                }
                Assignment::Undefined
            },
        }
    }
}

} // verus!
