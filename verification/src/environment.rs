//! A set of environment variables held as plain values: the picture of the
//! process environment that the substitution protocol reads and rewrites.

use vstd::prelude::*;

verus! {

/// One environment variable.
#[derive(Clone, Debug, PartialEq, Eq)]
pub struct Variable {
    pub name: String,
    pub value: String,
}

impl View for Variable {
    type V = (Seq<char>, Seq<char>);

    open spec fn view(&self) -> (Seq<char>, Seq<char>) {
        (self.name@, self.value@)
    }
}

/// The name and value of each variable of a list, in order.
pub open spec fn views(variables: Seq<Variable>) -> Seq<(Seq<char>, Seq<char>)> {
    variables.map_values(|variable: Variable| variable@)
}

/// The environment that a list of settings leaves when they are applied in
/// order: each name bound to the value of its last setting.
pub open spec fn bindings(settings: Seq<(Seq<char>, Seq<char>)>) -> Map<Seq<char>, Seq<char>>
    decreases settings.len(),
{
    if settings.len() == 0 {
        Map::empty()
    } else {
        bindings(settings.drop_last()).insert(settings.last().0, settings.last().1)
    }
}

/// One more setting binds its name and leaves the other names as they were.
pub proof fn lemma_bindings_push(settings: Seq<(Seq<char>, Seq<char>)>, last: (Seq<char>, Seq<char>))
    ensures
        bindings(settings.push(last)) == bindings(settings).insert(last.0, last.1),
{
    assert(settings.push(last).drop_last() =~= settings);
}

/// A set of environment variables: a map from names to values.
#[derive(Clone, Debug)]
pub struct Environment {
    entries: Vec<Variable>,
}

impl View for Environment {
    type V = Map<Seq<char>, Seq<char>>;

    closed spec fn view(&self) -> Map<Seq<char>, Seq<char>> {
        bindings(views(self.entries@))
    }
}

impl Environment {
    /// The environment without any variable.
    pub fn new() -> (environment: Environment)
        ensures
            environment@ == Map::<Seq<char>, Seq<char>>::empty(),
    {
        Environment { entries: Vec::new() }
    }

    /// The environment that `variables` describe. Where a name occurs more
    /// than once, its last value counts.
    pub fn from_variables(variables: Vec<Variable>) -> (environment: Environment)
        ensures
            environment@ == bindings(views(variables@)),
    {
        Environment { entries: variables }
    }

    /// The value bound to `name`, if there is one.
    pub fn get(&self, name: &String) -> (value: Option<String>)
        ensures
            match value {
                Some(text) => self@.contains_key(name@) && self@[name@] == text@,
                None => !self@.contains_key(name@),
            },
    {
        let mut found: Option<String> = None;
        let mut at: usize = 0;
        while at < self.entries.len()
            invariant
                at <= self.entries.len(),
                match found {
                    Some(text) => bindings(views(self.entries@.take(at as int))).contains_key(name@)
                        && bindings(views(self.entries@.take(at as int)))[name@] == text@,
                    None => !bindings(views(self.entries@.take(at as int))).contains_key(name@),
                },
            decreases self.entries.len() - at,
        {
            proof {
                lemma_take_next(self.entries@, at as int);
            }
            if self.entries[at].name == *name {
                found = Some(self.entries[at].value.clone());
            }
            at += 1;
        }
        assert(self.entries@.take(at as int) =~= self.entries@);
        found
    }

    /// Whether `name` is bound.
    pub fn contains(&self, name: &String) -> (bound: bool)
        ensures
            bound == self@.contains_key(name@),
    {
        self.get(name).is_some()
    }

    /// Unbinds `name`. The other variables stay as they are.
    pub fn remove(&mut self, name: &String)
        ensures
            final(self)@ == old(self)@.remove(name@),
    {
        let mut kept: Vec<Variable> = Vec::new();
        let mut at: usize = 0;
        while at < self.entries.len()
            invariant
                at <= self.entries.len(),
                bindings(views(kept@)) == bindings(views(self.entries@.take(at as int))).remove(
                    name@,
                ),
            decreases self.entries.len() - at,
        {
            proof {
                lemma_take_next(self.entries@, at as int);
            }
            if self.entries[at].name != *name {
                let entry = Variable {
                    name: self.entries[at].name.clone(),
                    value: self.entries[at].value.clone(),
                };
                proof {
                    assert(views(kept@.push(entry)) =~= views(kept@).push(entry@));
                    lemma_bindings_push(views(kept@), entry@);
                    assert(bindings(views(kept@)).insert(entry@.0, entry@.1) =~= bindings(
                        views(self.entries@.take(at as int)),
                    ).insert(entry@.0, entry@.1).remove(name@));
                }
                kept.push(entry);
            } else {
                assert(bindings(views(self.entries@.take(at as int))).remove(name@) =~= bindings(
                    views(self.entries@.take(at as int)),
                ).insert(name@, self.entries@[at as int].value@).remove(name@));
            }
            at += 1;
        }
        assert(self.entries@.take(at as int) =~= self.entries@);
        self.entries = kept;
    }

    /// Binds `name` to `value`, in place of any value it had.
    pub fn set(&mut self, name: String, value: String)
        ensures
            final(self)@ == old(self)@.insert(name@, value@),
    {
        let entry = Variable { name, value };
        proof {
            assert(views(self.entries@.push(entry)) =~= views(self.entries@).push(entry@));
            lemma_bindings_push(views(self.entries@), entry@);
        }
        self.entries.push(entry);
    }

    /// A list of settings that gives this environment when applied in
    /// order.
    pub fn into_variables(self) -> (variables: Vec<Variable>)
        ensures
            bindings(views(variables@)) == self@,
    {
        self.entries
    }
}

/// Looking one entry further applies that entry's setting.
proof fn lemma_take_next(entries: Seq<Variable>, at: int)
    requires
        0 <= at < entries.len(),
    ensures
        bindings(views(entries.take(at + 1))) == bindings(views(entries.take(at))).insert(
            entries[at].name@,
            entries[at].value@,
        ),
{
    assert(views(entries.take(at + 1)) =~= views(entries.take(at)).push(entries[at]@));
    lemma_bindings_push(views(entries.take(at)), entries[at]@);
}

} // verus!
