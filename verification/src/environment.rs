//! Scopes: nested name-to-value maps. All scopes of a run live in one store
//! and are named by their index in it, so that a function value can keep the
//! scope it was declared in after the block that made the scope has ended.
use vstd::prelude::*;
use vstd::string::StringExecFns;
use crate::error::{LoxError, LoxErrorView};
use crate::object::{runtime_error, Object, ObjectView};
use crate::text::push_text;
use crate::token::{Token, TokenView};

verus! {

/// One name with its value.
#[derive(Debug)]
pub struct Binding<'a> {
    pub name: String,
    pub value: Object<'a>,
}

/// One scope: its bindings, the scope around it and whether a loop is
/// running in it.
#[derive(Debug)]
pub struct Scope<'a> {
    pub enclosing: Option<usize>,
    pub values: Vec<Binding<'a>>,
    pub is_enclosed_in_loop: bool,
}

/// The mathematical value of a [`Scope`].
pub struct ScopeView {
    pub enclosing: Option<nat>,
    pub values: Map<Seq<char>, ObjectView>,
    pub is_enclosed_in_loop: bool,
}

/// The map that a list of bindings stands for: of two bindings of one name
/// the later one counts.
pub open spec fn bindings_map<'a>(values: Seq<Binding<'a>>) -> Map<Seq<char>, ObjectView>
    decreases values.len(),
{
    if values.len() == 0 {
        Map::empty()
    } else {
        bindings_map(values.drop_last()).insert(values.last().name@, values.last().value@)
    }
}

impl<'a> View for Scope<'a> {
    type V = ScopeView;

    open spec fn view(&self) -> ScopeView {
        ScopeView {
            enclosing: match self.enclosing {
                Some(p) => Some(p as nat),
                None => None,
            },
            values: bindings_map(self.values@),
            is_enclosed_in_loop: self.is_enclosed_in_loop,
        }
    }
}

/// The store of the scopes of one run. Scope 0 is the global scope.
#[derive(Debug)]
pub struct Environment<'a> {
    scopes: Vec<Scope<'a>>,
}

impl<'a> View for Environment<'a> {
    type V = Seq<ScopeView>;

    closed spec fn view(&self) -> Seq<ScopeView> {
        Seq::new(self.scopes@.len(), |i: int| self.scopes@[i]@)
    }
}

/// Every scope but the global one was made inside an older scope.
pub open spec fn well_nested(env: Seq<ScopeView>) -> bool {
    &&& env.len() >= 1
    &&& forall|i: int|
        0 <= i < env.len() ==> match (#[trigger] env[i]).enclosing {
            Some(p) => p < i,
            None => true,
        }
}

/// The nearest scope, from `scope` outwards, that binds `name`.
pub open spec fn resolve(env: Seq<ScopeView>, scope: nat, name: Seq<char>) -> Option<nat>
    decreases scope,
{
    if scope >= env.len() {
        None
    } else if env[scope as int].values.contains_key(name) {
        Some(scope)
    } else {
        match env[scope as int].enclosing {
            Some(p) => if p < scope {
                resolve(env, p, name)
            } else {
                None
            },
            None => None,
        }
    }
}

/// The value of `name` as seen from `scope`, if any scope around binds it.
pub open spec fn lookup(env: Seq<ScopeView>, scope: nat, name: Seq<char>) -> Option<ObjectView> {
    match resolve(env, scope, name) {
        Some(at) => Some(env[at as int].values[name]),
        None => None,
    }
}

/// The store after `name` has been bound to `value` in `scope`.
pub open spec fn bound(env: Seq<ScopeView>, scope: nat, name: Seq<char>, value: ObjectView) -> Seq<
    ScopeView,
> {
    env.update(
        scope as int,
        ScopeView {
            enclosing: env[scope as int].enclosing,
            values: env[scope as int].values.insert(name, value),
            is_enclosed_in_loop: env[scope as int].is_enclosed_in_loop,
        },
    )
}

/// The store after the loop flag of `scope` has been set.
pub open spec fn flagged(env: Seq<ScopeView>, scope: nat, inside: bool) -> Seq<ScopeView> {
    env.update(
        scope as int,
        ScopeView {
            enclosing: env[scope as int].enclosing,
            values: env[scope as int].values,
            is_enclosed_in_loop: inside,
        },
    )
}

/// The store with one more scope, empty, inside `enclosing`, whose loop flag
/// it takes over.
pub open spec fn nested(env: Seq<ScopeView>, enclosing: nat) -> Seq<ScopeView> {
    env.push(
        ScopeView {
            enclosing: Some(enclosing),
            values: Map::empty(),
            is_enclosed_in_loop: env[enclosing as int].is_enclosed_in_loop,
        },
    )
}

/// The store after an assignment to `name` from `scope`: the nearest binding
/// changes; without one, nothing does.
pub open spec fn assigned(env: Seq<ScopeView>, scope: nat, name: Seq<char>, value: ObjectView) -> Seq<
    ScopeView,
> {
    match resolve(env, scope, name) {
        Some(at) => bound(env, at, name, value),
        None => env,
    }
}

/// The failure of a use of a name that no scope binds.
pub open spec fn undefined(name: TokenView) -> LoxErrorView {
    runtime_error(name, "Undefined variable: "@ + name.lexeme)
}

proof fn lemma_absent<'a>(values: Seq<Binding<'a>>, name: Seq<char>)
    requires
        forall|j: int| 0 <= j < values.len() ==> values[j].name@ != name,
    ensures
        !bindings_map(values).contains_key(name),
    decreases values.len(),
{
    if values.len() > 0 {
        lemma_absent(values.drop_last(), name);
    }
}

proof fn lemma_present<'a>(values: Seq<Binding<'a>>, name: Seq<char>, at: int)
    requires
        0 <= at < values.len(),
        values[at].name@ == name,
        forall|j: int| at < j < values.len() ==> values[j].name@ != name,
    ensures
        bindings_map(values).contains_key(name),
        bindings_map(values)[name] == values[at].value@,
    decreases values.len(),
{
    if at < values.len() - 1 {
        lemma_present(values.drop_last(), name, at);
    }
}

proof fn lemma_replaced<'a>(values: Seq<Binding<'a>>, at: int, with: Binding<'a>)
    requires
        0 <= at < values.len(),
        values[at].name@ == with.name@,
        forall|j: int| at < j < values.len() ==> values[j].name@ != with.name@,
    ensures
        bindings_map(values.update(at, with)) =~= bindings_map(values).insert(
            with.name@,
            with.value@,
        ),
    decreases values.len(),
{
    let changed = values.update(at, with);
    if at < values.len() - 1 {
        lemma_replaced(values.drop_last(), at, with);
        assert(changed.drop_last() =~= values.drop_last().update(at, with));
        assert(changed.last() == values.last());
    } else {
        assert(changed.drop_last() =~= values.drop_last());
    }
}

/// The index of the binding of `name` that counts, if there is one.
fn find<'a>(values: &Vec<Binding<'a>>, name: &String) -> (r: Option<usize>)
    ensures
        match r {
            Some(at) => at < values@.len() && values@[at as int].name@ == name@ && forall|j: int|
                at < j < values@.len() ==> values@[j].name@ != name@,
            None => forall|j: int| 0 <= j < values@.len() ==> values@[j].name@ != name@,
        },
        r.is_some() == bindings_map(values@).contains_key(name@),
        r matches Some(at) ==> bindings_map(values@)[name@] == values@[at as int].value@,
{
    let mut i: usize = values.len();
    while i > 0
        invariant
            i <= values@.len(),
            forall|j: int| i <= j < values@.len() ==> values@[j].name@ != name@,
        decreases i,
    {
        i -= 1;
        if values[i].name == *name {
            proof {
                lemma_present(values@, name@, i as int);
            }
            return Some(i);
        }
    }
    proof {
        lemma_absent(values@, name@);
    }
    None
}

/// Binds `name` to `value`, in place of an earlier binding if there is one.
fn bind<'a>(values: &mut Vec<Binding<'a>>, name: String, value: Object<'a>)
    ensures
        bindings_map(final(values)@) == bindings_map(old(values)@).insert(name@, value@),
{
    let found = find(values, &name);
    let binding = Binding { name, value };
    match found {
        Some(at) => {
            proof {
                lemma_replaced(values@, at as int, binding);
            }
            values.set(at, binding);
        },
        None => {
            proof {
                assert(values@.push(binding).drop_last() =~= values@);
            }
            values.push(binding);
        },
    }
}

impl<'a> Environment<'a> {
    /// The scopes are well nested.
    pub open spec fn wf(&self) -> bool {
        well_nested(self@)
    }

    /// A store that holds the global scope, empty and outside any loop.
    pub fn new() -> (r: Self)
        ensures
            r.wf(),
            r@ == seq![
                ScopeView { enclosing: None, values: Map::empty(), is_enclosed_in_loop: false },
            ],
    {
        let global = Scope { enclosing: None, values: Vec::new(), is_enclosed_in_loop: false };
        let mut scopes: Vec<Scope<'a>> = Vec::new();
        scopes.push(global);
        let r = Environment { scopes };
        assert(r@ =~= seq![
            ScopeView { enclosing: None, values: Map::empty(), is_enclosed_in_loop: false },
        ]);
        r
    }

    /// The number of scopes made so far.
    pub fn len(&self) -> (r: usize)
        ensures
            r == self@.len(),
    {
        self.scopes.len()
    }

    /// Binds `name` in `scope`, overwriting an earlier binding of it there.
    pub fn define(&mut self, scope: usize, name: String, value: Object<'a>) -> (r: Result<
        (),
        LoxError,
    >)
        requires
            scope < old(self)@.len(),
        ensures
            r.is_ok(),
            final(self)@ == bound(old(self)@, scope as nat, name@, value@),
            final(self)@.len() == old(self)@.len(),
            old(self).wf() ==> final(self).wf(),
    {
        let ghost before = self@;
        let ghost expected = bound(before, scope as nat, name@, value@);
        bind(&mut self.scopes[scope].values, name, value);
        assert(self@ =~= expected);
        Ok(())
    }

    /// Makes an empty scope inside `enclosing` and returns its index.
    pub fn create_enclosing_for_env(&mut self, enclosing: usize) -> (r: usize)
        requires
            enclosing < old(self)@.len(),
            old(self)@.len() < usize::MAX,
        ensures
            r == old(self)@.len(),
            final(self)@ == nested(old(self)@, enclosing as nat),
            old(self).wf() ==> final(self).wf(),
    {
        let ghost before = self@;
        let inside = self.scopes[enclosing].is_enclosed_in_loop;
        let at = self.scopes.len();
        self.scopes.push(
            Scope { enclosing: Some(enclosing), values: Vec::new(), is_enclosed_in_loop: inside },
        );
        assert(self@ =~= nested(before, enclosing as nat));
        at
    }

    /// Whether a loop is running in `scope`.
    pub fn is_enclosed_in_loop(&self, scope: usize) -> (r: bool)
        requires
            scope < self@.len(),
        ensures
            r == self@[scope as int].is_enclosed_in_loop,
    {
        self.scopes[scope].is_enclosed_in_loop
    }

    /// Records whether a loop is running in `scope`.
    pub fn set_enclosed_in_loop(&mut self, scope: usize, inside: bool)
        requires
            scope < old(self)@.len(),
        ensures
            final(self)@ == flagged(old(self)@, scope as nat, inside),
            final(self)@.len() == old(self)@.len(),
            old(self).wf() ==> final(self).wf(),
    {
        let ghost before = self@;
        self.scopes[scope].is_enclosed_in_loop = inside;
        assert(self@ =~= flagged(before, scope as nat, inside));
    }

    /// The index of the nearest scope, from `scope` outwards, that binds the
    /// name, and of the binding in it.
    fn locate(&self, scope: usize, name: &String) -> (r: Option<(usize, usize)>)
        requires
            self.wf(),
            scope < self@.len(),
        ensures
            match r {
                Some((at, slot)) => {
                    &&& resolve(self@, scope as nat, name@) == Some(at as nat)
                    &&& at < self.scopes@.len()
                    &&& slot < self.scopes@[at as int].values@.len()
                    &&& self.scopes@[at as int].values@[slot as int].name@ == name@
                    &&& forall|j: int|
                        slot < j < self.scopes@[at as int].values@.len()
                            ==> self.scopes@[at as int].values@[j].name@ != name@
                    &&& self@[at as int].values[name@]
                        == self.scopes@[at as int].values@[slot as int].value@
                },
                None => resolve(self@, scope as nat, name@).is_none(),
            },
    {
        let mut at = scope;
        loop
            invariant
                self.wf(),
                at < self@.len(),
                resolve(self@, scope as nat, name@) == resolve(self@, at as nat, name@),
            decreases at,
        {
            match find(&self.scopes[at].values, name) {
                Some(slot) => {
                    return Some((at, slot));
                },
                None => {},
            }
            match self.scopes[at].enclosing {
                Some(outer) => {
                    assert(self@[at as int].enclosing == Some(outer as nat));
                    at = outer;
                },
                None => {
                    return None;
                },
            }
        }
    }

    /// The value of the name as seen from `scope`: that of the nearest scope
    /// that binds it.
    pub fn get(&self, scope: usize, name: &Token) -> (r: Result<Object<'a>, LoxError>)
        requires
            self.wf(),
            scope < self@.len(),
        ensures
            match r {
                Ok(v) => lookup(self@, scope as nat, name@.lexeme) == Some(v@),
                Err(e) => lookup(self@, scope as nat, name@.lexeme).is_none() && e@ == undefined(
                    name@,
                ),
            },
    {
        match self.locate(scope, &name.lexeme) {
            Some((at, slot)) => Ok(self.scopes[at].values[slot].value.clone()),
            None => Err(undefined_variable(name)),
        }
    }

    /// Changes the nearest binding of the name as seen from `scope`. Makes no
    /// new binding: without one the assignment fails.
    pub fn assign(&mut self, scope: usize, name: &Token, value: Object<'a>) -> (r: Result<
        (),
        LoxError,
    >)
        requires
            old(self).wf(),
            scope < old(self)@.len(),
        ensures
            final(self).wf(),
            final(self)@ == assigned(old(self)@, scope as nat, name@.lexeme, value@),
            final(self)@.len() == old(self)@.len(),
            r.is_ok() == resolve(old(self)@, scope as nat, name@.lexeme).is_some(),
            r matches Err(e) ==> e@ == undefined(name@),
    {
        let ghost before = self@;
        match self.locate(scope, &name.lexeme) {
            Some((at, slot)) => {
                let binding = Binding { name: name.lexeme.clone(), value };
                proof {
                    lemma_replaced(self.scopes@[at as int].values@, slot as int, binding);
                }
                self.scopes[at].values.set(slot, binding);
                assert(self@ =~= bound(before, at as nat, name@.lexeme, value@));
                Ok(())
            },
            None => Err(undefined_variable(name)),
        }
    }
}

/// Builds the failure of a use of a name that no scope binds.
pub fn undefined_variable(name: &Token) -> (r: LoxError)
    ensures
        r@ == undefined(name@),
{
    let mut message = String::from_str("Undefined variable: ");
    push_text(&mut message, name.lexeme.as_str());
    LoxError::Runtime { token: name.clone(), message }
}

/// Two stores agree on the scopes below `count`: they have the same
/// bindings and the same enclosing scopes there.
pub open spec fn agree_below(a: Seq<ScopeView>, b: Seq<ScopeView>, count: nat) -> bool {
    &&& count <= a.len()
    &&& count <= b.len()
    &&& forall|i: int|
        0 <= i < count ==> (#[trigger] a[i]).values == b[i].values && a[i].enclosing
            == b[i].enclosing
}

/// What a scope sees depends only on the scopes around it: two stores that
/// agree on the scopes up to `scope` resolve every name alike from there.
pub proof fn lemma_resolve_local(a: Seq<ScopeView>, b: Seq<ScopeView>, scope: nat, name: Seq<char>)
    requires
        agree_below(a, b, scope + 1),
    ensures
        resolve(a, scope, name) == resolve(b, scope, name),
        lookup(a, scope, name) == lookup(b, scope, name),
    decreases scope,
{
    assert(a[scope as int].values == b[scope as int].values);
    if !a[scope as int].values.contains_key(name) {
        match a[scope as int].enclosing {
            Some(p) => {
                if p < scope {
                    lemma_resolve_local(a, b, p, name);
                }
            },
            None => {},
        }
    } else {
    }
    if resolve(a, scope, name).is_some() {
        lemma_resolve_within(a, scope, name);
        let at = resolve(a, scope, name).unwrap();
        assert(a[at as int].values == b[at as int].values);
    }
}

/// A name is resolved in the scope itself or in one made before it.
pub proof fn lemma_resolve_within(env: Seq<ScopeView>, scope: nat, name: Seq<char>)
    ensures
        match resolve(env, scope, name) {
            Some(at) => at <= scope && at < env.len() && env[at as int].values.contains_key(name),
            None => true,
        },
    decreases scope,
{
    if scope < env.len() && !env[scope as int].values.contains_key(name) {
        match env[scope as int].enclosing {
            Some(p) => {
                if p < scope {
                    lemma_resolve_within(env, p, name);
                }
            },
            None => {},
        }
    }
}

/// A binding made in a block is seen inside the block only. From the scope
/// around it, and from every scope that existed before, each name resolves
/// as it did before the block: a binding of the block is not visible there,
/// and one that shadows an outer binding leaves the outer one as it was.
pub proof fn lemma_block_binding_is_local(
    env: Seq<ScopeView>,
    current: nat,
    name: Seq<char>,
    value: ObjectView,
    from: nat,
    other: Seq<char>,
)
    requires
        well_nested(env),
        current < env.len(),
        from < env.len(),
    ensures
        ({
            let inside = env.len();
            let after = bound(nested(env, current), inside, name, value);
            &&& lookup(after, inside, name) == Some(value)
            &&& lookup(after, from, other) == lookup(env, from, other)
            &&& after.len() == env.len() + 1
            &&& well_nested(after)
        }),
{
    let inside = env.len();
    let after = bound(nested(env, current), inside, name, value);
    assert(after[inside as int].values.contains_key(name));
    assert(agree_below(after, env, from + 1));
    lemma_resolve_local(after, env, from, other);
}

/// A new scope sees what the scope around it sees: every name that the new
/// scope does not bind itself resolves to the binding that the enclosing
/// scope resolves it to, so that reading it reads that binding and
/// assigning to it changes that binding, however long ago the enclosing
/// scope was made.
pub proof fn lemma_inner_scope_reaches_outer(
    env: Seq<ScopeView>,
    enclosing: nat,
    name: Seq<char>,
    value: ObjectView,
)
    requires
        well_nested(env),
        enclosing < env.len(),
    ensures
        ({
            let inside = env.len();
            let made = nested(env, enclosing);
            &&& resolve(made, inside, name) == resolve(env, enclosing, name)
            &&& lookup(made, inside, name) == lookup(env, enclosing, name)
            &&& resolve(env, enclosing, name) matches Some(at) ==> {
                &&& assigned(made, inside, name, value) == bound(made, at, name, value)
                &&& lookup(assigned(made, inside, name, value), enclosing, name) == Some(value)
                &&& lookup(assigned(made, inside, name, value), inside, name) == Some(value)
            }
        }),
{
    let inside = env.len();
    let made = nested(env, enclosing);
    assert(!made[inside as int].values.contains_key(name));
    assert(made[inside as int].enclosing == Some(enclosing));
    assert(agree_below(made, env, enclosing + 1));
    lemma_resolve_local(made, env, enclosing, name);
    lemma_resolve_within(env, enclosing, name);
    if resolve(env, enclosing, name).is_some() {
        let at = resolve(env, enclosing, name).unwrap();
        let changed = bound(made, at, name, value);
        lemma_resolve_changed(made, at, name, value, enclosing);
        lemma_resolve_changed(made, at, name, value, inside);
    }
}

/// After the binding that a scope resolves a name to has been given a new
/// value, the scope resolves the name to the same binding and reads the
/// new value.
pub proof fn lemma_resolve_changed(
    env: Seq<ScopeView>,
    at: nat,
    name: Seq<char>,
    value: ObjectView,
    from: nat,
)
    requires
        resolve(env, from, name) == Some(at),
    ensures
        resolve(bound(env, at, name, value), from, name) == Some(at),
        lookup(bound(env, at, name, value), from, name) == Some(value),
    decreases from,
{
    let changed = bound(env, at, name, value);
    lemma_resolve_within(env, from, name);
    if from == at {
        assert(changed[at as int].values.contains_key(name));
    } else {
        assert(changed[from as int] == env[from as int]);
        match env[from as int].enclosing {
            Some(p) => {
                lemma_resolve_changed(env, at, name, value, p);
            },
            None => {},
        }
    }
}

} // verus!
