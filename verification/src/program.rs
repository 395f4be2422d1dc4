//! The program container: the tokenized lines of one source unit together
//! with its declared name, its variable table, its origin path, a line
//! cursor and a verbosity flag.

use vstd::prelude::*;

use crate::text::str_eq_str;
use crate::tokens::{Token, TokenView};

verus! {

/// The mathematical image of a [`Variable`].
pub struct VarView {
    pub name: Seq<char>,
    pub kind: Seq<char>,
}

/// One entry of the variable table: a declared name together with the raw
/// text of its declared type.
#[derive(Debug)]
pub struct Variable {
    name: String,
    kind: String,
}

impl View for Variable {
    type V = VarView;

    closed spec fn view(&self) -> VarView {
        VarView { name: self.name@, kind: self.kind@ }
    }
}

impl Variable {
    /// Builds a table entry from a name and the raw text of its type.
    pub fn new(name: String, kind: String) -> (r: Variable)
        ensures
            r@.name == name@,
            r@.kind == kind@,
    {
        Variable { name, kind }
    }

    /// The declared name.
    pub fn get_name(&self) -> (r: &str)
        ensures
            r@ == self@.name,
    {
        self.name.as_str()
    }

    /// The raw text of the declared type.
    pub fn get_kind(&self) -> (r: &str)
        ensures
            r@ == self@.kind,
    {
        self.kind.as_str()
    }
}

/// The mathematical image of a [`Program`]: the variable table is a
/// key-unique mapping with no implied ordering.
pub struct ProgramView {
    pub name: Seq<char>,
    pub variables: Map<Seq<char>, VarView>,
    pub lines: Seq<Seq<TokenView>>,
    pub path: Seq<char>,
    pub pc: nat,
    pub verbose: bool,
}

/// The key of one table entry.
spec fn key_at(entries: Seq<(String, Variable)>, i: int) -> Seq<char> {
    entries[i].0@
}

/// The value of one table entry.
spec fn val_at(entries: Seq<(String, Variable)>, i: int) -> VarView {
    entries[i].1@
}

/// Every key occurs at most once among the entries.
spec fn unique_keys(entries: Seq<(String, Variable)>) -> bool {
    forall|i: int, j: int|
        0 <= i < j < entries.len() ==> key_at(entries, i) != key_at(entries, j)
}

/// Whether some entry carries the given key.
spec fn has_key(entries: Seq<(String, Variable)>, k: Seq<char>) -> bool {
    exists|i: int| 0 <= i < entries.len() && #[trigger] key_at(entries, i) == k
}

/// The mapping held by the table entries; with unique keys the order of the
/// entries is immaterial.
spec fn entries_map(entries: Seq<(String, Variable)>) -> Map<Seq<char>, VarView>
    decreases entries.len(),
{
    if entries.len() == 0 {
        Map::empty()
    } else {
        entries_map(entries.drop_last()).insert(
            key_at(entries, entries.len() - 1),
            val_at(entries, entries.len() - 1),
        )
    }
}

proof fn lemma_entries_map(entries: Seq<(String, Variable)>)
    requires
        unique_keys(entries),
    ensures
        forall|k: Seq<char>|
            #[trigger] entries_map(entries).contains_key(k) <==> has_key(entries, k),
        forall|i: int|
            0 <= i < entries.len() ==> entries_map(entries).contains_key(
                #[trigger] key_at(entries, i),
            ) && entries_map(entries)[key_at(entries, i)] == val_at(entries, i),
    decreases entries.len(),
{
    if entries.len() > 0 {
        let prefix = entries.drop_last();
        let last_i = entries.len() - 1;
        assert forall|i: int, j: int| 0 <= i < j < prefix.len() implies key_at(prefix, i)
            != key_at(prefix, j) by {
            assert(prefix[i] == entries[i]);
            assert(prefix[j] == entries[j]);
            assert(key_at(prefix, i) == key_at(entries, i));
            assert(key_at(prefix, j) == key_at(entries, j));
        }
        lemma_entries_map(prefix);
        assert forall|k: Seq<char>| #[trigger]
            entries_map(entries).contains_key(k) <==> has_key(entries, k) by {
            if entries_map(entries).contains_key(k) {
                if k == key_at(entries, last_i) {
                    assert(has_key(entries, k));
                } else {
                    assert(entries_map(prefix).contains_key(k));
                    assert(has_key(prefix, k));
                    let i = choose|i: int| 0 <= i < prefix.len() && #[trigger] key_at(prefix, i)
                        == k;
                    assert(prefix[i] == entries[i]);
                    assert(key_at(entries, i) == k);
                }
            }
            if has_key(entries, k) {
                let i = choose|i: int| 0 <= i < entries.len() && #[trigger] key_at(entries, i)
                    == k;
                if i == last_i {
                    assert(entries_map(entries).contains_key(k));
                } else {
                    assert(prefix[i] == entries[i]);
                    assert(key_at(prefix, i) == k);
                    assert(has_key(prefix, k));
                }
            }
        }
        assert forall|i: int| 0 <= i < entries.len() implies entries_map(entries).contains_key(
            #[trigger] key_at(entries, i),
        ) && entries_map(entries)[key_at(entries, i)] == val_at(entries, i) by {
            if i == last_i {
            } else {
                assert(prefix[i] == entries[i]);
                assert(key_at(prefix, i) == key_at(entries, i));
                assert(val_at(prefix, i) == val_at(entries, i));
                assert(key_at(entries, i) != key_at(entries, last_i));
            }
        }
    }
}

/// The aggregate owning all tokenized lines of a source unit, its declared
/// name, and a variable symbol table.
pub struct Program {
    name: String,
    variables: Vec<(String, Variable)>,
    lines: Vec<Vec<Token>>,
    path: String,
    pc: usize,
    verbose: bool,
}

impl View for Program {
    type V = ProgramView;

    closed spec fn view(&self) -> ProgramView {
        ProgramView {
            name: self.name@,
            variables: entries_map(self.variables@),
            lines: self.lines.deep_view(),
            path: self.path@,
            pc: self.pc as nat,
            verbose: self.verbose,
        }
    }
}

impl Program {
    /// Well-formedness: the variable table never binds one name twice.
    pub closed spec fn wf(&self) -> bool {
        unique_keys(self.variables@)
    }

    /// Assembles a program from its declared name, its tokenized lines and
    /// its origin path. The variable table starts empty, the line cursor at
    /// zero, and the verbosity flag off.
    pub fn new(name: String, lines: Vec<Vec<Token>>, path: String) -> (r: Program)
        ensures
            r.wf(),
            r@.name == name@,
            r@.variables == Map::<Seq<char>, VarView>::empty(),
            r@.lines == lines.deep_view(),
            r@.path == path@,
            r@.pc == 0,
            r@.verbose == false,
    {
        let variables: Vec<(String, Variable)> = Vec::new();
        Program { name, variables, lines, path, pc: 0, verbose: false }
    }

    /// The declared program name.
    pub fn get_name(&self) -> (r: &str)
        ensures
            r@ == self@.name,
    {
        self.name.as_str()
    }

    /// The origin path of the source unit.
    pub fn get_filename(&self) -> (r: &str)
        ensures
            r@ == self@.path,
    {
        self.path.as_str()
    }

    /// The current line cursor.
    pub fn get_line(&self) -> (r: usize)
        ensures
            r as nat == self@.pc,
    {
        self.pc
    }

    /// Moves the line cursor.
    pub fn set_line(&mut self, pc: usize)
        requires
            old(self).wf(),
        ensures
            final(self).wf(),
            final(self)@ == (ProgramView { pc: pc as nat, ..old(self)@ }),
    {
        self.pc = pc;
    }

    /// The verbosity flag.
    pub fn is_verbose(&self) -> (r: bool)
        ensures
            r == self@.verbose,
    {
        self.verbose
    }

    /// Sets the verbosity flag.
    pub fn set_verbose(&mut self, verbose: bool)
        requires
            old(self).wf(),
        ensures
            final(self).wf(),
            final(self)@ == (ProgramView { verbose, ..old(self)@ }),
    {
        self.verbose = verbose;
    }

    /// The tokenized lines, in source order.
    pub fn get_lines(&self) -> (r: &Vec<Vec<Token>>)
        ensures
            r.deep_view() == self@.lines,
    {
        &self.lines
    }

    /// Binds `name` to `var` in the variable table, replacing any prior
    /// binding of that name: the old entry is removed before the new one is
    /// inserted, so a set is never a merge.
    pub fn set_variable(&mut self, name: String, var: Variable)
        requires
            old(self).wf(),
        ensures
            final(self).wf(),
            final(self)@ == (ProgramView {
                variables: old(self)@.variables.insert(name@, var@),
                ..old(self)@
            }),
    {
        let ghost old_entries = self.variables@;
        let mut idx: usize = 0;
        let mut found: bool = false;
        while idx < self.variables.len() && !found
            invariant
                idx <= self.variables@.len(),
                self.variables@ == old_entries,
                !found ==> forall|j: int| 0 <= j < idx ==> key_at(old_entries, j) != name@,
                found ==> idx < old_entries.len() && key_at(old_entries, idx as int) == name@,
            decreases old_entries.len() - idx + (if found { 0int } else { 1int }),
        {
            if str_eq_str(self.variables[idx].0.as_str(), name.as_str()) {
                found = true;
            } else {
                idx = idx + 1;
            }
        }
        if found {
            let _old_entry: (String, Variable) = self.variables.remove(idx);
        }
        self.variables.push((name, var));
        proof {
            let new_entries = self.variables@;
            if found {
                assert(new_entries.drop_last() =~= old_entries.remove(idx as int));
            } else {
                assert(new_entries.drop_last() =~= old_entries);
            }
            assert(new_entries[new_entries.len() - 1] == (name, var));
            lemma_set_variable(old_entries, new_entries, name@, var@, idx as int, found);
        }
    }

    /// Looks the given name up in the variable table.
    pub fn get_variable(&self, name: &str) -> (r: Option<&Variable>)
        requires
            self.wf(),
        ensures
            match r {
                Some(v) => self@.variables.contains_key(name@) && v@ == self@.variables[name@],
                None => !self@.variables.contains_key(name@),
            },
    {
        let mut idx: usize = 0;
        while idx < self.variables.len()
            invariant
                self.wf(),
                idx <= self.variables@.len(),
                forall|j: int| 0 <= j < idx ==> key_at(self.variables@, j) != name@,
            decreases self.variables@.len() - idx,
        {
            if str_eq_str(self.variables[idx].0.as_str(), name) {
                proof {
                    lemma_entries_map(self.variables@);
                    assert(key_at(self.variables@, idx as int) == name@);
                    assert(entries_map(self.variables@)[key_at(self.variables@, idx as int)]
                        == val_at(self.variables@, idx as int));
                }
                return Some(&self.variables[idx].1);
            }
            idx = idx + 1;
        }
        proof {
            lemma_entries_map(self.variables@);
            assert(!has_key(self.variables@, name@));
        }
        None
    }
}

proof fn lemma_set_variable(
    old_entries: Seq<(String, Variable)>,
    new_entries: Seq<(String, Variable)>,
    name: Seq<char>,
    var: VarView,
    idx: int,
    found: bool,
)
    requires
        unique_keys(old_entries),
        found ==> 0 <= idx < old_entries.len() && key_at(old_entries, idx) == name
            && new_entries.drop_last() == old_entries.remove(idx),
        !found ==> new_entries.drop_last() == old_entries && (forall|j: int|
            0 <= j < old_entries.len() ==> key_at(old_entries, j) != name),
        new_entries.len() >= 1,
        new_entries[new_entries.len() - 1].0@ == name,
        new_entries[new_entries.len() - 1].1@ == var,
    ensures
        unique_keys(new_entries),
        entries_map(new_entries) == entries_map(old_entries).insert(name, var),
{
    let kept = new_entries.drop_last();
    let last_i = new_entries.len() - 1;
    // every kept entry comes from `old_entries` and never carries `name`
    assert forall|i: int| #![trigger kept[i]] 0 <= i < kept.len() implies exists|i0: int|
        0 <= i0 < old_entries.len() && #[trigger] old_entries[i0] == kept[i] && (found ==> i0
            != idx) by {
        if found {
            let i0 = if i < idx {
                i
            } else {
                i + 1
            };
            assert(old_entries.remove(idx)[i] == old_entries[i0]);
            assert(old_entries[i0] == kept[i]);
        } else {
            assert(old_entries[i] == kept[i]);
        }
    }
    assert forall|j: int| 0 <= j < kept.len() implies key_at(kept, j) != name by {
        let j0 = choose|j0: int|
            0 <= j0 < old_entries.len() && #[trigger] old_entries[j0] == kept[j] && (found ==> j0
                != idx);
        if found {
            assert(key_at(old_entries, j0) != key_at(old_entries, idx));
        }
        assert(key_at(kept, j) == key_at(old_entries, j0));
    }
    // distinct kept entries come from distinct positions of `old_entries`
    assert forall|i: int, j: int| 0 <= i < j < kept.len() implies key_at(kept, i) != key_at(
        kept,
        j,
    ) by {
        if found {
            let i0 = if i < idx {
                i
            } else {
                i + 1
            };
            let j0 = if j < idx {
                j
            } else {
                j + 1
            };
            assert(old_entries.remove(idx)[i] == old_entries[i0]);
            assert(old_entries.remove(idx)[j] == old_entries[j0]);
            assert(key_at(kept, i) == key_at(old_entries, i0));
            assert(key_at(kept, j) == key_at(old_entries, j0));
            assert(key_at(old_entries, i0) != key_at(old_entries, j0));
        } else {
            assert(key_at(kept, i) == key_at(old_entries, i));
            assert(key_at(kept, j) == key_at(old_entries, j));
        }
    }
    assert forall|i: int, j: int| 0 <= i < j < new_entries.len() implies key_at(new_entries, i)
        != key_at(new_entries, j) by {
        assert(new_entries[i] == kept[i]);
        assert(key_at(new_entries, i) == key_at(kept, i));
        if j < last_i {
            assert(new_entries[j] == kept[j]);
            assert(key_at(new_entries, j) == key_at(kept, j));
        } else {
            assert(key_at(new_entries, j) == name);
            assert(key_at(kept, i) != name);
        }
    }
    lemma_entries_map(old_entries);
    lemma_entries_map(new_entries);
    let lhs = entries_map(new_entries);
    let rhs = entries_map(old_entries).insert(name, var);
    assert forall|k: Seq<char>| lhs.contains_key(k) implies rhs.contains_key(k) by {
        if k != name {
            let i = choose|i: int|
                0 <= i < new_entries.len() && #[trigger] key_at(new_entries, i) == k;
            assert(i < last_i);
            let i0 = choose|i0: int|
                0 <= i0 < old_entries.len() && #[trigger] old_entries[i0] == kept[i] && (found
                    ==> i0 != idx);
            assert(new_entries[i] == kept[i]);
            assert(key_at(old_entries, i0) == k);
            assert(has_key(old_entries, k));
        }
    }
    assert forall|k: Seq<char>| rhs.contains_key(k) implies lhs.contains_key(k) by {
        if k != name {
            let i = choose|i: int|
                0 <= i < old_entries.len() && #[trigger] key_at(old_entries, i) == k;
            if found {
                assert(i != idx);
                let i1 = if i < idx {
                    i
                } else {
                    i - 1
                };
                assert(old_entries.remove(idx)[i1] == old_entries[i]);
                assert(kept[i1] == old_entries[i]);
                assert(new_entries[i1] == kept[i1]);
                assert(key_at(new_entries, i1) == k);
            } else {
                assert(new_entries[i] == kept[i]);
                assert(key_at(new_entries, i) == k);
            }
            assert(has_key(new_entries, k));
        } else {
            assert(key_at(new_entries, last_i) == name);
            assert(has_key(new_entries, name));
        }
    }
    assert forall|k: Seq<char>| lhs.contains_key(k) && rhs.contains_key(k) implies lhs[k]
        == rhs[k] by {
        if k == name {
            assert(lhs[key_at(new_entries, last_i)] == val_at(new_entries, last_i));
        } else {
            let i = choose|i: int|
                0 <= i < old_entries.len() && #[trigger] key_at(old_entries, i) == k;
            assert(rhs[k] == val_at(old_entries, i));
            if found {
                assert(i != idx);
                let i1 = if i < idx {
                    i
                } else {
                    i - 1
                };
                assert(old_entries.remove(idx)[i1] == old_entries[i]);
                assert(kept[i1] == old_entries[i]);
                assert(new_entries[i1] == kept[i1]);
                assert(key_at(new_entries, i1) == k);
                assert(val_at(new_entries, i1) == val_at(old_entries, i));
                assert(lhs[key_at(new_entries, i1)] == val_at(new_entries, i1));
            } else {
                assert(new_entries[i] == kept[i]);
                assert(key_at(new_entries, i) == k);
                assert(val_at(new_entries, i) == val_at(old_entries, i));
                assert(lhs[key_at(new_entries, i)] == val_at(new_entries, i));
            }
        }
    }
    assert(lhs =~= rhs);
}

} // verus!
