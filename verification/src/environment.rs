//! Environments: variables by name.
//!
//! An [`Environment`] keeps its variables in the order in which their names
//! first came in, and holds no name twice. Its view is the mapping from name
//! to value; [`Environment::entries`] gives the same content as a sequence.

use vstd::prelude::*;

verus! {

/// One variable: a name and the value bound to it.
#[derive(Clone, Debug, PartialEq, Eq)]
pub struct Variable {
    pub name: String,
    pub value: String,
}

/// The mathematical content of a [`Variable`].
pub struct VariableView {
    pub name: Seq<char>,
    pub value: Seq<char>,
}

impl View for Variable {
    type V = VariableView;

    open spec fn view(&self) -> VariableView {
        VariableView { name: self.name@, value: self.value@ }
    }
}

impl DeepView for Variable {
    type V = VariableView;

    open spec fn deep_view(&self) -> VariableView {
        self.view()
    }
}

/// Position `i` of `entries` binds `name`.
pub open spec fn binds_at(entries: Seq<VariableView>, name: Seq<char>, i: int) -> bool {
    0 <= i < entries.len() && entries[i].name == name
}

/// Some position of `entries` binds `name`.
pub open spec fn binds(entries: Seq<VariableView>, name: Seq<char>) -> bool {
    exists|i: int| binds_at(entries, name, i)
}

/// Position `i` binds `name` and no earlier one does.
pub open spec fn is_first_binding(entries: Seq<VariableView>, name: Seq<char>, i: int) -> bool {
    binds_at(entries, name, i) && forall|j: int| 0 <= j < i ==> !binds_at(entries, name, j)
}

/// The first position of `entries` that binds `name`, where one does.
pub open spec fn index_of(entries: Seq<VariableView>, name: Seq<char>) -> int {
    choose|i: int| is_first_binding(entries, name, i)
}

/// No two positions of `entries` bind the same name.
pub open spec fn names_distinct(entries: Seq<VariableView>) -> bool {
    forall|i: int, j: int|
        0 <= i < j < entries.len() ==> #[trigger] entries[i].name != #[trigger] entries[j].name
}

/// The mapping that `entries` stands for: each bound name with the value of
/// its first binding.
pub open spec fn map_of(entries: Seq<VariableView>) -> Map<Seq<char>, Seq<char>> {
    Map::new(
        |name: Seq<char>| binds(entries, name),
        |name: Seq<char>| entries[index_of(entries, name)].value,
    )
}

/// `entries` with `name` bound to `value`: in place where `name` is bound
/// already, at the end where it is not.
pub open spec fn with_binding(
    entries: Seq<VariableView>,
    name: Seq<char>,
    value: Seq<char>,
) -> Seq<VariableView> {
    let entry = VariableView { name, value };
    if binds(entries, name) {
        entries.update(index_of(entries, name), entry)
    } else {
        entries.push(entry)
    }
}

/// The line that hands `entry` to a new process image: `NAME=VALUE`.
pub open spec fn assignment_of(entry: VariableView) -> Seq<char> {
    entry.name + seq!['='] + entry.value
}

/// The lines that hand `entries` to a new process image, in order.
pub open spec fn assignments_of(entries: Seq<VariableView>) -> Seq<Seq<char>> {
    entries.map_values(|entry: VariableView| assignment_of(entry))
}

/// A first binding is the only first binding.
pub proof fn lemma_first_binding_is(entries: Seq<VariableView>, name: Seq<char>, i: int)
    requires
        is_first_binding(entries, name, i),
    ensures
        binds(entries, name),
        index_of(entries, name) == i,
{
}

/// A bound name has a first binding.
pub proof fn lemma_bound_name_has_index(entries: Seq<VariableView>, name: Seq<char>)
    requires
        binds(entries, name),
    ensures
        is_first_binding(entries, name, index_of(entries, name)),
{
    let some = choose|i: int| binds_at(entries, name, i);
    lemma_first_binding_below(entries, name, some);
}

/// At or below any binding of a name stands its first binding.
proof fn lemma_first_binding_below(entries: Seq<VariableView>, name: Seq<char>, bound: int)
    requires
        binds_at(entries, name, bound),
    ensures
        exists|i: int| is_first_binding(entries, name, i),
    decreases bound,
{
    if exists|j: int| 0 <= j < bound && binds_at(entries, name, j) {
        let j = choose|j: int| 0 <= j < bound && binds_at(entries, name, j);
        lemma_first_binding_below(entries, name, j);
    } else {
        assert(is_first_binding(entries, name, bound));
    }
}

/// Binding a name that is not bound yet adds it to the mapping; binding one
/// that is bound replaces its value. Either way the mapping is the old one
/// with `name` set to `value`.
pub proof fn lemma_with_binding_inserts(
    entries: Seq<VariableView>,
    name: Seq<char>,
    value: Seq<char>,
)
    requires
        names_distinct(entries),
    ensures
        names_distinct(with_binding(entries, name, value)),
        map_of(with_binding(entries, name, value)) == map_of(entries).insert(name, value),
{
    let after = with_binding(entries, name, value);
    if binds(entries, name) {
        lemma_bound_name_has_index(entries, name);
    }
    let at = if binds(entries, name) { index_of(entries, name) } else { entries.len() as int };
    assert forall|i: int| 0 <= i < after.len() && i != at implies #[trigger] after[i].name
        != name by {
        if !binds(entries, name) {
            assert(!binds_at(entries, name, i));
        }
    }
    lemma_first_binding_is(after, name, at);
    assert forall|other: Seq<char>| other != name implies (binds(after, other) <==> binds(
        entries,
        other,
    )) && (binds(entries, other) ==> after[index_of(after, other)].value
        == entries[index_of(entries, other)].value) by {
        if binds(entries, other) {
            lemma_bound_name_has_index(entries, other);
            let i = index_of(entries, other);
            lemma_first_binding_is(after, other, i);
        }
        if binds(after, other) {
            let i = choose|i: int| binds_at(after, other, i);
            assert(binds_at(entries, other, i));
        }
    }
}

/// Where no name occurs twice, the mapping has as many names as there are
/// entries.
pub proof fn lemma_distinct_names_count(entries: Seq<VariableView>)
    requires
        names_distinct(entries),
    ensures
        map_of(entries).dom().finite(),
        map_of(entries).len() == entries.len(),
    decreases entries.len(),
{
    if entries.len() == 0 {
        assert(map_of(entries) =~= Map::<Seq<char>, Seq<char>>::empty());
    } else {
        let front = entries.drop_last();
        let last = entries.last();
        lemma_distinct_names_count(front);
        lemma_with_binding_inserts(front, last.name, last.value);
        assert(with_binding(front, last.name, last.value) =~= entries);
    }
}

/// A set of variables, no name twice.
#[derive(Debug)]
pub struct Environment {
    entries: Vec<Variable>,
}

impl View for Environment {
    type V = Map<Seq<char>, Seq<char>>;

    open spec fn view(&self) -> Map<Seq<char>, Seq<char>> {
        map_of(self.entries())
    }
}

impl Environment {
    /// The variables in the order in which their names first came in.
    pub closed spec fn entries(&self) -> Seq<VariableView> {
        self.entries.deep_view()
    }

    /// What holds of every environment: no name occurs twice.
    #[verifier::type_invariant]
    pub open spec fn well_formed(&self) -> bool {
        names_distinct(self.entries())
    }

    /// The environment without variables.
    pub fn new() -> (environment: Environment)
        ensures
            environment.entries() == Seq::<VariableView>::empty(),
            environment@ == Map::<Seq<char>, Seq<char>>::empty(),
    {
        let environment = Environment { entries: Vec::new() };
        environment
    }

    /// The number of variables.
    pub fn len(&self) -> (n: usize)
        ensures
            n == self.entries().len(),
            n == self@.len(),
    {
        proof {
            use_type_invariant(self);
            lemma_distinct_names_count(self.entries());
        }
        self.entries.len()
    }

    /// The variables in order.
    pub fn variables(&self) -> (variables: &Vec<Variable>)
        ensures
            variables.deep_view() == self.entries(),
            names_distinct(self.entries()),
    {
        proof {
            use_type_invariant(self);
        }
        &self.entries
    }

    /// The position that binds `name`, if one does.
    fn position(&self, name: &str) -> (at: Option<usize>)
        ensures
            match at {
                Some(i) => is_first_binding(self.entries(), name@, i as int),
                None => !binds(self.entries(), name@),
            },
    {
        let wanted = name.to_owned();
        let mut i: usize = 0;
        while i < self.entries.len()
            invariant
                i <= self.entries.len(),
                wanted@ == name@,
                forall|j: int| 0 <= j < i ==> !binds_at(self.entries(), name@, j),
            decreases self.entries.len() - i,
        {
            if self.entries[i].name == wanted {
                return Some(i);
            }
            i += 1;
        }
        None
    }

    /// `true` exactly when `name` is bound.
    pub fn contains(&self, name: &str) -> (bound: bool)
        ensures
            bound == self@.contains_key(name@),
    {
        self.position(name).is_some()
    }

    /// The value bound to `name`, if any.
    pub fn get(&self, name: &str) -> (value: Option<&String>)
        ensures
            value.deep_view() == (if self@.contains_key(name@) {
                Some(self@[name@])
            } else {
                None
            }),
    {
        match self.position(name) {
            Some(i) => {
                Some(&self.entries[i].value)
            },
            None => None,
        }
    }

    /// Binds `name` to `value`. A value bound to `name` before is replaced;
    /// the last write wins.
    pub fn insert(&mut self, name: String, value: String)
        ensures
            final(self).entries() == with_binding(old(self).entries(), name@, value@),
            final(self)@ == old(self)@.insert(name@, value@),
    {
        proof {
            use_type_invariant(&*self);
            lemma_with_binding_inserts(self.entries(), name@, value@);
        }
        let ghost before = self.entries();
        let at = self.position(name.as_str());
        let mut entries: Vec<Variable> = Vec::new();
        core::mem::swap(&mut self.entries, &mut entries);
        match at {
            Some(i) => {
                entries.set(i, Variable { name, value });
            },
            None => {
                entries.push(Variable { name, value });
            },
        }
        assert(entries.deep_view() =~= with_binding(before, name@, value@));
        self.entries = entries;
    }

    /// One line per variable, in order, in the form `NAME=VALUE`: what a new
    /// process image takes as its environment.
    pub fn assignments(&self) -> (lines: Vec<String>)
        ensures
            lines.deep_view() == assignments_of(self.entries()),
    {
        let mut lines: Vec<String> = Vec::new();
        let mut i: usize = 0;
        while i < self.entries.len()
            invariant
                i <= self.entries.len(),
                lines.deep_view() == assignments_of(self.entries().take(i as int)),
            decreases self.entries.len() - i,
        {
            let mut line = self.entries[i].name.clone();
            line.append("=");
            line.append(self.entries[i].value.as_str());
            proof {
                reveal_strlit("=");
                assert(line@ == assignment_of(self.entries()[i as int]));
            }
            let ghost before = lines.deep_view();
            lines.push(line);
            assert(assignments_of(self.entries().take(i + 1)) =~= before.push(
                assignment_of(self.entries()[i as int]),
            ));
            i += 1;
        }
        lines
    }
}

} // verus!
