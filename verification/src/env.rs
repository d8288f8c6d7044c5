//! Name-to-value tables and the chain of scopes that holds the globals.

use vstd::prelude::*;
use crate::errors::{ErrorModel, PumpkinError};
use crate::value::{PumpkinValue, ValueModel};

verus! {

/// One name bound to one value.
#[derive(Debug, PartialEq)]
pub struct Binding {
    pub name: String,
    pub value: PumpkinValue,
}

pub struct BindingModel {
    pub name: Seq<char>,
    pub value: ValueModel,
}

/// A table from names to values. A name is bound at most once as long as
/// the table is only changed through [`Bindings::set`].
#[derive(Debug, PartialEq)]
pub struct Bindings {
    pub entries: Vec<Binding>,
}

pub open spec fn bindings_model(s: Seq<Binding>) -> Seq<BindingModel> {
    Seq::new(s.len(), |i: int| BindingModel { name: s[i].name@, value: s[i].value@ })
}

impl View for Bindings {
    type V = Seq<BindingModel>;

    open spec fn view(&self) -> Seq<BindingModel> {
        bindings_model(self.entries@)
    }
}

/// The index of the first binding of `name` from `from` on; the length of
/// the table where there is none.
pub open spec fn find_binding(table: Seq<BindingModel>, name: Seq<char>, from: int) -> int
    decreases table.len() - from,
{
    if from < 0 || from >= table.len() {
        table.len() as int
    } else if table[from].name == name {
        from
    } else {
        find_binding(table, name, from + 1)
    }
}

/// The value that the table binds `name` to.
pub open spec fn table_lookup(table: Seq<BindingModel>, name: Seq<char>) -> Option<ValueModel> {
    let at = find_binding(table, name, 0);
    if at < table.len() {
        Some(table[at].value)
    } else {
        None
    }
}

/// The table with `name` bound to `value`: in place where it was bound,
/// else at the end.
pub open spec fn table_set(
    table: Seq<BindingModel>,
    name: Seq<char>,
    value: ValueModel,
) -> Seq<BindingModel> {
    let at = find_binding(table, name, 0);
    if at < table.len() {
        table.update(at, BindingModel { name, value })
    } else {
        table.push(BindingModel { name, value })
    }
}

proof fn find_binding_bounds(table: Seq<BindingModel>, name: Seq<char>, from: int)
    requires
        0 <= from,
    ensures
        from <= find_binding(table, name, from) || find_binding(table, name, from) == table.len(),
        find_binding(table, name, from) <= table.len(),
        find_binding(table, name, from) < table.len() ==> table[find_binding(
            table,
            name,
            from,
        )].name == name,
        forall|k: int| from <= k < find_binding(table, name, from) ==> table[k].name != name,
    decreases table.len() - from,
{
    if from < table.len() && table[from].name != name {
        find_binding_bounds(table, name, from + 1);
    }
}

/// The first binding of a name is where nothing before it binds the name.
proof fn find_binding_is(table: Seq<BindingModel>, name: Seq<char>, at: int)
    requires
        0 <= at <= table.len(),
        at < table.len() ==> table[at].name == name,
        forall|k: int| 0 <= k < at ==> table[k].name != name,
    ensures
        find_binding(table, name, 0) == at,
{
    find_binding_bounds(table, name, 0);
}

/// A name that was set is found, with the value that was set; every other
/// name is found as before.
pub proof fn lookup_after_set(
    table: Seq<BindingModel>,
    name: Seq<char>,
    value: ValueModel,
    other: Seq<char>,
)
    ensures
        table_lookup(table_set(table, name, value), name) == Some(value),
        other != name ==> table_lookup(table_set(table, name, value), other) == table_lookup(
            table,
            other,
        ),
{
    let at = find_binding(table, name, 0);
    let after = table_set(table, name, value);
    find_binding_bounds(table, name, 0);
    find_binding_is(after, name, at);
    if other != name {
        let was = find_binding(table, other, 0);
        find_binding_bounds(table, other, 0);
        find_binding_is(after, other, if was < table.len() {
            was
        } else {
            after.len() as int
        });
    }
}

impl Bindings {
    pub fn new() -> (r: Self)
        ensures
            r@ == Seq::<BindingModel>::empty(),
    {
        let r = Bindings { entries: Vec::new() };
        r
    }

    /// Where `name` is bound.
    pub fn position(&self, name: &String) -> (r: usize)
        ensures
            r == find_binding(self@, name@, 0),
            r <= self@.len(),
    {
        let mut i: usize = 0;
        while i < self.entries.len()
            invariant
                i <= self.entries.len(),
                forall|k: int| 0 <= k < i ==> self@[k].name != name@,
            decreases self.entries.len() - i,
        {
            if self.entries[i].name == *name {
                proof {
                    find_binding_is(self@, name@, i as int);
                }
                return i;
            }
            i = i + 1;
        }
        proof {
            find_binding_is(self@, name@, i as int);
        }
        i
    }

    /// The value that `name` is bound to.
    pub fn get(&self, name: &str) -> (r: Option<PumpkinValue>)
        ensures
            r is Some == table_lookup(self@, name@) is Some,
            r matches Some(v) ==> table_lookup(self@, name@) == Some(v@),
    {
        let wanted = String::from_str(name);
        let at = self.position(&wanted);
        if at < self.entries.len() {
            Some(self.entries[at].value.clone())
        } else {
            None
        }
    }

    /// Whether `name` is bound.
    pub fn contains(&self, name: &str) -> (r: bool)
        ensures
            r == table_lookup(self@, name@) is Some,
    {
        let wanted = String::from_str(name);
        self.position(&wanted) < self.entries.len()
    }

    /// Binds `name` to `value`, in place of what it was bound to.
    pub fn set(&mut self, name: &str, value: PumpkinValue)
        ensures
            final(self)@ == table_set(old(self)@, name@, value@),
    {
        let wanted = String::from_str(name);
        let at = self.position(&wanted);
        if at < self.entries.len() {
            self.entries.set(at, Binding { name: wanted, value });
        } else {
            self.entries.push(Binding { name: wanted, value });
        }
    }
}

/// A scope of names with the scope that encloses it, if any.
#[derive(Debug, PartialEq)]
pub struct Environment {
    pub vars: Bindings,
    pub parent: Option<Box<Environment>>,
}

/// The scopes of an environment, innermost first.
pub open spec fn scopes_of(e: Environment) -> Seq<Seq<BindingModel>>
    decreases e,
{
    match e.parent {
        Some(p) => seq![e.vars@] + scopes_of(*p),
        None => seq![e.vars@],
    }
}

/// The innermost scope comes first, the scopes of the parent follow.
pub proof fn scopes_unfold(e: Environment)
    ensures
        e@.len() >= 1,
        e@[0] == e.vars@,
        e@.drop_first() == match e.parent {
            Some(p) => p@,
            None => Seq::<Seq<BindingModel>>::empty(),
        },
{
    match e.parent {
        Some(p) => {
        },
        None => {
        },
    }
}

impl View for Environment {
    type V = Seq<Seq<BindingModel>>;

    open spec fn view(&self) -> Seq<Seq<BindingModel>> {
        scopes_of(*self)
    }
}

/// The value of `name` in the innermost scope that binds it.
pub open spec fn chain_lookup(scopes: Seq<Seq<BindingModel>>, name: Seq<char>) -> Option<
    ValueModel,
>
    decreases scopes.len(),
{
    if scopes.len() == 0 {
        None
    } else if table_lookup(scopes[0], name) is Some {
        table_lookup(scopes[0], name)
    } else {
        chain_lookup(scopes.drop_first(), name)
    }
}

/// The scopes after `name` is declared in the innermost one.
pub open spec fn chain_define(
    scopes: Seq<Seq<BindingModel>>,
    name: Seq<char>,
    value: ValueModel,
) -> Seq<Seq<BindingModel>> {
    if scopes.len() == 0 {
        scopes
    } else {
        scopes.update(0, table_set(scopes[0], name, value))
    }
}

/// The scopes after an assignment to `name`: the innermost scope that binds
/// it holds the new value. `None` where no scope binds it.
pub open spec fn chain_assign(
    scopes: Seq<Seq<BindingModel>>,
    name: Seq<char>,
    value: ValueModel,
) -> Option<Seq<Seq<BindingModel>>>
    decreases scopes.len(),
{
    if scopes.len() == 0 {
        None
    } else if table_lookup(scopes[0], name) is Some {
        Some(scopes.update(0, table_set(scopes[0], name, value)))
    } else {
        match chain_assign(scopes.drop_first(), name, value) {
            Some(rest) => Some(seq![scopes[0]] + rest),
            None => None,
        }
    }
}

/// An assignment that falls back to a declaration: what a store to a global
/// does.
pub open spec fn chain_store(
    scopes: Seq<Seq<BindingModel>>,
    name: Seq<char>,
    value: ValueModel,
) -> Seq<Seq<BindingModel>> {
    match chain_assign(scopes, name, value) {
        Some(updated) => updated,
        None => chain_define(scopes, name, value),
    }
}

/// The error of an assignment to a name that no scope binds.
pub open spec fn undeclared(name: Seq<char>) -> ErrorModel {
    ErrorModel::UndefinedVariableError {
        name,
        location: None,
        hint: Some("Did you declare it with 'let'?"@),
    }
}

/// A name that was declared is found, with the value that it was declared
/// with; so is a name that was stored.
pub proof fn lookup_after_define(
    scopes: Seq<Seq<BindingModel>>,
    name: Seq<char>,
    value: ValueModel,
)
    requires
        scopes.len() > 0,
    ensures
        chain_lookup(chain_define(scopes, name, value), name) == Some(value),
        chain_lookup(chain_store(scopes, name, value), name) == Some(value),
    decreases scopes.len(),
{
    lookup_after_set(scopes[0], name, value, name);
    if table_lookup(scopes[0], name) is None && chain_assign(scopes, name, value) is Some {
        let rest = chain_assign(scopes.drop_first(), name, value)->Some_0;
        let stored = seq![scopes[0]] + rest;
        assert(stored.drop_first() =~= rest);
        lookup_after_assign(scopes.drop_first(), name, value);
    }
}

/// A name that was assigned to is found with the value assigned.
pub proof fn lookup_after_assign(
    scopes: Seq<Seq<BindingModel>>,
    name: Seq<char>,
    value: ValueModel,
)
    requires
        chain_assign(scopes, name, value) is Some,
    ensures
        chain_lookup(chain_assign(scopes, name, value)->Some_0, name) == Some(value),
    decreases scopes.len(),
{
    if scopes.len() > 0 {
        lookup_after_set(scopes[0], name, value, name);
        if table_lookup(scopes[0], name) is None {
            let rest = chain_assign(scopes.drop_first(), name, value)->Some_0;
            let stored = seq![scopes[0]] + rest;
            assert(stored.drop_first() =~= rest);
            lookup_after_assign(scopes.drop_first(), name, value);
        }
    }
}

impl Environment {
    /// An environment of one empty scope.
    pub fn new() -> (r: Self)
        ensures
            r@ == seq![Seq::<BindingModel>::empty()],
    {
        Environment { vars: Bindings::new(), parent: None }
    }

    /// An empty scope inside `parent`.
    pub fn new_enclosed(parent: Environment) -> (r: Self)
        ensures
            r@ == seq![Seq::<BindingModel>::empty()] + parent@,
    {
        Environment { vars: Bindings::new(), parent: Some(Box::new(parent)) }
    }

    /// Declares `name` in the innermost scope, or overwrites it there.
    pub fn define(&mut self, name: &str, value: PumpkinValue)
        ensures
            final(self)@ == chain_define(old(self)@, name@, value@),
    {
        self.vars.set(name, value);
    }

    /// The value of `name` in the innermost scope that binds it.
    pub fn get(&self, name: &str) -> (r: Option<PumpkinValue>)
        ensures
            r is Some == chain_lookup(self@, name@) is Some,
            r matches Some(v) ==> chain_lookup(self@, name@) == Some(v@),
        decreases self,
    {
        proof {
            scopes_unfold(*self);
        }
        match self.vars.get(name) {
            Some(v) => Some(v),
            None => match &self.parent {
                Some(p) => {
                    p.get(name)
                },
                None => {
                    None
                },
            },
        }
    }

    /// Assigns to `name` in the innermost scope that binds it. Fails, and
    /// changes nothing, where no scope binds it.
    pub fn assign(&mut self, name: &str, value: PumpkinValue) -> (r: Result<(), PumpkinError>)
        ensures
            match chain_assign(old(self)@, name@, value@) {
                Some(updated) => r is Ok && final(self)@ == updated,
                None => r matches Err(e) && e@ == undeclared(name@) && final(self)@ == old(self)@,
            },
        decreases old(self)@.len(),
    {
        if self.vars.contains(name) {
            self.vars.set(name, value);
            return Ok(());
        }
        match &mut self.parent {
            Some(p) => {
                assert(old(self)@.drop_first() =~= p@);
                p.assign(name, value)
            },
            None => {
                Err(
                    PumpkinError::UndefinedVariableError {
                        name: String::from_str(name),
                        location: None,
                        hint: Some(String::from_str("Did you declare it with 'let'?")),
                    },
                )
            },
        }
    }

    /// Assigns to `name` where some scope binds it, and declares it in the
    /// innermost scope where none does.
    pub fn store(&mut self, name: &str, value: PumpkinValue)
        ensures
            final(self)@ == chain_store(old(self)@, name@, value@),
    {
        let copy = value.clone();
        if self.assign(name, value).is_err() {
            self.define(name, copy);
        }
    }
}

} // verus!
