use vstd::prelude::*;
use vstd::string::*;
use std::rc::Rc;
use crate::ast::{FunctionDecleration, Lambda};
use crate::bindings::{bind, find_in, last_index};

verus! {

/// The functions that every interpreter provides.
#[derive(Debug, Clone, Copy, PartialEq, Eq, Structural)]
pub enum BuiltIn {
    /// Writes its arguments, separated by spaces, as one line.
    Print,
    /// Fails with an error whose message is its first argument.
    Error,
}

/// What a function value runs.
#[derive(Debug, PartialEq)]
pub enum FunctionType {
    Function(Rc<FunctionDecleration>),
    Lambda(Rc<Lambda>),
    BuiltIn { name: String, function: BuiltIn },
}

/// A runtime value.
#[derive(Debug, PartialEq)]
pub enum Value {
    /// An IEEE-754 double, as its bit pattern.
    Number(u64),
    Boolean(bool),
    /// A function with the index of the environment it captured.
    Function(FunctionType, usize),
    String(String),
    NoValue,
}

/// Relies on `Rc::clone`: the clone shares the same allocation, so it holds the same value.
#[verifier::external_body]
pub(crate) fn share_rc<T>(r: &Rc<T>) -> (c: Rc<T>)
    ensures
        c == *r,
{
    Rc::clone(r)
}

impl FunctionType {
    pub fn copied(&self) -> (r: FunctionType)
        ensures
            r == *self,
    {
        match self {
            FunctionType::Function(f) => FunctionType::Function(share_rc(f)),
            FunctionType::Lambda(l) => FunctionType::Lambda(share_rc(l)),
            FunctionType::BuiltIn { name, function } => FunctionType::BuiltIn { name: name.clone(), function: *function },
        }
    }
}

impl Value {
    pub fn copied(&self) -> (r: Value)
        ensures
            r == *self,
    {
        match self {
            Value::Number(n) => Value::Number(*n),
            Value::Boolean(b) => Value::Boolean(*b),
            Value::Function(f, e) => Value::Function(f.copied(), *e),
            Value::String(s) => Value::String(s.clone()),
            Value::NoValue => Value::NoValue,
        }
    }
}

} // verus!

verus! {

/// `v` refers to no environment at or past `n`.
pub open spec fn value_ok(v: Value, n: int) -> bool {
    v is Function ==> (v->Function_1 as int) < n
}

/// One scope of runtime bindings.
#[derive(Debug)]
pub struct Enviroment {
    /// The bindings; the last entry of a name is the one in force.
    pub values: Vec<(String, Value)>,
    /// The index of the enclosing environment.
    pub enclosing_enviroment: Option<usize>,
}

impl Enviroment {
    /// The environment stands at `index` among `n`: its parent comes before it and its values
    /// refer only to environments that exist.
    pub open spec fn ok(&self, index: int, n: int) -> bool {
        &&& match self.enclosing_enviroment {
            Some(p) => (p as int) < index,
            None => true,
        }
        &&& forall|j: int| 0 <= j < self.values@.len() ==> value_ok(#[trigger] self.values@[j].1, n)
    }

    /// An environment without bindings.
    pub fn new(enclosing_enviroment: Option<usize>) -> (r: Self)
        ensures
            r.values@.len() == 0,
            r.enclosing_enviroment == enclosing_enviroment,
    {
        Enviroment { values: Vec::new(), enclosing_enviroment }
    }
}

/// All environments of an interpreter, each addressed by its index. Environments are never
/// dropped, so a function value's captured index stays valid; the price is that memory grows
/// by one environment per call for the life of the interpreter.
#[derive(Debug)]
pub struct Enviroments {
    pub frames: Vec<Enviroment>,
}

impl Enviroments {
    /// Index 0 is the global environment; each other one has an enclosing environment before it.
    pub open spec fn wf(&self) -> bool {
        &&& self.frames@.len() > 0
        &&& self.frames@[0].enclosing_enviroment is None
        &&& forall|i: int| 0 <= i < self.frames@.len() ==> (#[trigger] self.frames@[i]).ok(i, self.frames@.len() as int)
    }

    /// What `name` is bound to, seen from environment `i`: its own binding or the nearest
    /// enclosing environment's.
    pub open spec fn lookup(&self, i: int, name: Seq<char>) -> Option<Value>
        decreases i,
    {
        if 0 <= i < self.frames@.len() {
            match find_in(self.frames@[i].values@, name) {
                Some(v) => Some(v),
                None => match self.frames@[i].enclosing_enviroment {
                    Some(p) => if (p as int) < i { self.lookup(p as int, name) } else { None },
                    None => None,
                },
            }
        } else {
            None
        }
    }

    /// The environment whose binding of `name` an assignment from `i` changes.
    pub open spec fn assign_target(&self, i: int, name: Seq<char>) -> Option<int>
        decreases i,
    {
        if 0 <= i < self.frames@.len() {
            match find_in(self.frames@[i].values@, name) {
                Some(_) => Some(i),
                None => match self.frames@[i].enclosing_enviroment {
                    Some(p) => if (p as int) < i { self.assign_target(p as int, name) } else { None },
                    None => None,
                },
            }
        } else {
            None
        }
    }

    /// How many environments the chain from `i` holds, `i` included.
    pub open spec fn depth(&self, i: int) -> nat
        decreases i,
    {
        if 0 <= i < self.frames@.len() {
            match self.frames@[i].enclosing_enviroment {
                Some(p) => if (p as int) < i { 1 + self.depth(p as int) } else { 1 },
                None => 1,
            }
        } else {
            0
        }
    }

    /// Every environment keeps its parent, and those before `n` their place.
    pub open spec fn extends(&self, before: Enviroments) -> bool {
        &&& self.frames@.len() >= before.frames@.len()
        &&& forall|i: int| 0 <= i < before.frames@.len()
            ==> (#[trigger] self.frames@[i]).enclosing_enviroment == before.frames@[i].enclosing_enviroment
    }

    /// Only the global environment.
    pub fn new() -> (r: Self)
        ensures
            r.wf(),
            r.frames@.len() == 1,
            r.frames@[0].values@.len() == 0,
    {
        let mut frames = Vec::new();
        frames.push(Enviroment::new(None));
        Enviroments { frames }
    }

    /// Adds an empty environment enclosed by `enclosing`; returns its index.
    pub fn push(&mut self, enclosing: usize) -> (r: usize)
        requires
            old(self).wf(),
            enclosing < old(self).frames@.len(),
            old(self).frames@.len() < usize::MAX,
        ensures
            final(self).wf(),
            final(self).extends(*old(self)),
            r == old(self).frames@.len(),
            final(self).frames@ == old(self).frames@.push(final(self).frames@[r as int]),
            final(self).frames@[r as int].values@.len() == 0,
            final(self).frames@[r as int].enclosing_enviroment == Some(enclosing),
    {
        let r = self.frames.len();
        self.frames.push(Enviroment::new(Some(enclosing)));
        proof {
            let n = self.frames@.len() as int;
            assert forall|i: int| 0 <= i < n implies (#[trigger] self.frames@[i]).ok(i, n) by {
                if i < n - 1 {
                    assert(old(self).frames@[i].ok(i, n - 1));
                }
            }
        }
        r
    }

    /// Binds `name` in environment `env` itself.
    pub fn define(&mut self, env: usize, name: &str, value: Value)
        requires
            old(self).wf(),
            env < old(self).frames@.len(),
            value_ok(value, old(self).frames@.len() as int),
        ensures
            final(self).wf(),
            final(self).extends(*old(self)),
            final(self).frames@.len() == old(self).frames@.len(),
            forall|i: int| 0 <= i < old(self).frames@.len() && i != env ==> #[trigger] final(self).frames@[i] == old(self).frames@[i],
            forall|m: Seq<char>| #[trigger] find_in(final(self).frames@[env as int].values@, m)
                == if m == name@ { Some(value) } else { find_in(old(self).frames@[env as int].values@, m) },
    {
        let ghost n = self.frames@.len() as int;
        let ghost old_frame = self.frames@[env as int];
        let ghost v = value;
        bind(&mut self.frames[env].values, String::from_str(name), value);
        proof {
            let f = self.frames@[env as int];
            assert(old_frame.ok(env as int, n));
            assert forall|j: int| 0 <= j < f.values@.len() implies value_ok(#[trigger] f.values@[j].1, n) by {
                if f.values@[j].1 != v {
                    assert(old_frame.values@[j] == f.values@[j]);
                }
            }
            assert forall|i: int| 0 <= i < n implies (#[trigger] self.frames@[i]).ok(i, n) by {
                if i != env {
                    assert(old(self).frames@[i].ok(i, n));
                }
            }
        }
    }
}


impl Enviroments {
    /// What `name` is bound to as seen from `env`: in `env` alone when `current_env_only`,
    /// else along its chain.
    pub fn look_up(&self, env: usize, name: &str, current_env_only: bool) -> (r: Option<Value>)
        requires
            self.wf(),
            env < self.frames@.len(),
        ensures
            current_env_only ==> r == find_in(self.frames@[env as int].values@, name@),
            !current_env_only ==> r == self.lookup(env as int, name@),
    {
        let key = String::from_str(name);
        let mut i = env;
        loop
            invariant
                self.wf(),
                i < self.frames@.len(),
                current_env_only ==> i == env,
                !current_env_only ==> self.lookup(env as int, name@) == self.lookup(i as int, name@),
                key@ == name@,
            decreases i,
        {
            match last_index(&self.frames[i].values, &key) {
                Some(k) => {
                    return Some(self.frames[i].values[k].1.copied());
                },
                None => {
                    if current_env_only {
                        return None;
                    }
                    assert(self.frames@[i as int].ok(i as int, self.frames@.len() as int));
                    match self.frames[i].enclosing_enviroment {
                        Some(p) => {
                            i = p;
                        },
                        None => {
                            return None;
                        },
                    }
                },
            }
        }
    }

    /// The environment that an assignment to `name` from `env` changes, if any.
    pub fn find_target(&self, env: usize, name: &String) -> (r: Option<usize>)
        requires
            self.wf(),
            env < self.frames@.len(),
        ensures
            match r {
                Some(t) => self.assign_target(env as int, name@) == Some(t as int) && t < self.frames@.len(),
                None => self.assign_target(env as int, name@) is None,
            },
    {
        let mut i = env;
        loop
            invariant
                self.wf(),
                i < self.frames@.len(),
                self.assign_target(env as int, name@) == self.assign_target(i as int, name@),
            decreases i,
        {
            match last_index(&self.frames[i].values, name) {
                Some(_) => {
                    return Some(i);
                },
                None => {
                    assert(self.frames@[i as int].ok(i as int, self.frames@.len() as int));
                    match self.frames[i].enclosing_enviroment {
                        Some(p) => {
                            i = p;
                        },
                        None => {
                            return None;
                        },
                    }
                },
            }
        }
    }

    /// Rebinds `name` where `env` sees it; an error if nothing along the chain binds it.
    pub fn assign(&mut self, env: usize, name: &str, value: Value) -> (r: Result<(), String>)
        requires
            old(self).wf(),
            env < old(self).frames@.len(),
            value_ok(value, old(self).frames@.len() as int),
        ensures
            final(self).wf(),
            final(self).extends(*old(self)),
            final(self).frames@.len() == old(self).frames@.len(),
            match old(self).assign_target(env as int, name@) {
                Some(t) => r is Ok
                    && (forall|i: int| 0 <= i < old(self).frames@.len() && i != t ==> #[trigger] final(self).frames@[i] == old(self).frames@[i])
                    && (forall|m: Seq<char>| #[trigger] find_in(final(self).frames@[t].values@, m)
                        == if m == name@ { Some(value) } else { find_in(old(self).frames@[t].values@, m) }),
                None => r is Err && *final(self) == *old(self),
            },
    {
        let key = String::from_str(name);
        match self.find_target(env, &key) {
            Some(t) => {
                self.define(t, name, value);
                Ok(())
            },
            None => {
                let mut message = String::from_str("Attempt to assign to undefined variable ");
                message.append(name);
                Err(message)
            },
        }
    }
}

/// What a frame sees depends only on the frames at or before it: environments added or
/// changed after `c` leave every earlier frame's view as it was. So a declaration inside a
/// function body, whose environment is newer than every enclosing one, never changes an outer
/// binding of the same name.
pub proof fn lemma_outer_view_unchanged(a: Enviroments, b: Enviroments, c: int, g: int, m: Seq<char>)
    requires
        a.wf(),
        b.wf(),
        0 <= g < c,
        c <= a.frames@.len(),
        c <= b.frames@.len(),
        forall|i: int| 0 <= i < c ==> #[trigger] a.frames@[i] == b.frames@[i],
    ensures
        a.lookup(g, m) == b.lookup(g, m),
    decreases g,
{
    assert(a.frames@[g] == b.frames@[g]);
    match a.frames@[g].enclosing_enviroment {
        Some(p) => {
            if (p as int) < g {
                lemma_outer_view_unchanged(a, b, c, p as int, m);
            }
        },
        None => {},
    }
}

/// Inside a call, whose environment `f` is enclosed by the captured environment `closure`, a
/// name is what `f` itself binds (the parameters) and otherwise whatever `closure` sees; the
/// caller's environment plays no part.
pub proof fn lemma_call_scope(envs: Enviroments, f: int, closure: usize, m: Seq<char>)
    requires
        envs.wf(),
        0 <= f < envs.frames@.len(),
        envs.frames@[f].enclosing_enviroment == Some(closure),
    ensures
        envs.lookup(f, m) == match find_in(envs.frames@[f].values@, m) {
            Some(v) => Some(v),
            None => envs.lookup(closure as int, m),
        },
{
    assert(envs.frames@[f].ok(f, envs.frames@.len() as int));
}

/// The environment that an assignment changes exists.
pub proof fn lemma_assign_target_in_range(envs: Enviroments, i: int, m: Seq<char>)
    ensures
        envs.assign_target(i, m) is Some ==> 0 <= envs.assign_target(i, m)->Some_0 < envs.frames@.len(),
    decreases i,
{
    if 0 <= i < envs.frames@.len() {
        match envs.frames@[i].enclosing_enviroment {
            Some(p) => {
                if (p as int) < i {
                    lemma_assign_target_in_range(envs, p as int, m);
                }
            },
            None => {},
        }
    }
}

} // verus!
