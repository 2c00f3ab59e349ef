use vstd::prelude::*;
use crate::value::{result_view, RuntimeError, Val, Value};

verus! {

/// One scope as seen in contracts: its variables and its operand stack.
pub struct Scope {
    pub vars: Map<Seq<char>, Val>,
    pub stack: Seq<Val>,
}

/// The variables held by an association list: a later entry hides an
/// earlier one with the same name.
pub open spec fn vars_map(v: Seq<(String, Value)>) -> Map<Seq<char>, Val>
    decreases v.len(),
{
    if v.len() == 0 {
        Map::empty()
    } else {
        vars_map(v.drop_last()).insert(v.last().0@, v.last().1@)
    }
}

/// No name occurs twice in the list.
pub open spec fn names_unique(v: Seq<(String, Value)>) -> bool {
    forall|i: int, j: int| 0 <= i < j < v.len() ==> v[i].0@ != v[j].0@
}

pub open spec fn stack_view(s: Seq<Value>) -> Seq<Val> {
    s.map_values(|v: Value| v@)
}

/// The value bound to `name` in the innermost scope that binds it.
pub open spec fn lookup(scopes: Seq<Scope>, name: Seq<char>) -> Option<Val>
    decreases scopes.len(),
{
    if scopes.len() == 0 {
        None
    } else if scopes.last().vars.contains_key(name) {
        Some(scopes.last().vars[name])
    } else {
        lookup(scopes.drop_last(), name)
    }
}

/// `scopes` with the innermost scope replaced by `s`.
pub open spec fn with_top(scopes: Seq<Scope>, s: Scope) -> Seq<Scope> {
    scopes.update(scopes.len() - 1, s)
}

/// `scopes` with `name` bound to `v` in the innermost scope.
pub open spec fn bind(scopes: Seq<Scope>, name: Seq<char>, v: Val) -> Seq<Scope> {
    let top = scopes.last();
    with_top(scopes, Scope { vars: top.vars.insert(name, v), stack: top.stack })
}

/// `scopes` with `v` pushed on the innermost stack.
pub open spec fn push_top(scopes: Seq<Scope>, v: Val) -> Seq<Scope> {
    let top = scopes.last();
    with_top(scopes, Scope { vars: top.vars, stack: top.stack.push(v) })
}

/// `scopes` with the innermost stack's top value removed.
pub open spec fn drop_top(scopes: Seq<Scope>) -> Seq<Scope> {
    let top = scopes.last();
    with_top(scopes, Scope { vars: top.vars, stack: top.stack.drop_last() })
}

/// A fresh scope: no variables and an empty stack.
pub open spec fn empty_scope() -> Scope {
    Scope { vars: Map::empty(), stack: Seq::empty() }
}

proof fn lemma_vars_map_get(v: Seq<(String, Value)>, j: int)
    requires
        names_unique(v),
        0 <= j < v.len(),
    ensures
        vars_map(v).contains_key(v[j].0@),
        vars_map(v)[v[j].0@] == v[j].1@,
    decreases v.len(),
{
    if j < v.len() - 1 {
        lemma_vars_map_get(v.drop_last(), j);
    }
}

proof fn lemma_vars_map_absent(v: Seq<(String, Value)>, name: Seq<char>)
    requires
        forall|i: int| 0 <= i < v.len() ==> v[i].0@ != name,
    ensures
        !vars_map(v).contains_key(name),
    decreases v.len(),
{
    if v.len() > 0 {
        lemma_vars_map_absent(v.drop_last(), name);
    }
}

proof fn lemma_vars_map_update(v: Seq<(String, Value)>, j: int, e: (String, Value))
    requires
        names_unique(v),
        0 <= j < v.len(),
        e.0@ == v[j].0@,
    ensures
        vars_map(v.update(j, e)) =~= vars_map(v).insert(e.0@, e.1@),
    decreases v.len(),
{
    let w = v.update(j, e);
    if j == v.len() - 1 {
        assert(w.drop_last() =~= v.drop_last());
    } else {
        assert(w.drop_last() =~= v.drop_last().update(j, e));
        lemma_vars_map_update(v.drop_last(), j, e);
    }
}

/// One scope: its variables, each name at most once, and its operand stack.
pub struct Frame {
    vars: Vec<(String, Value)>,
    stack: Vec<Value>,
}

impl View for Frame {
    type V = Scope;

    closed spec fn view(&self) -> Scope {
        Scope { vars: vars_map(self.vars@), stack: stack_view(self.stack@) }
    }
}

impl Frame {
    pub closed spec fn wf(&self) -> bool {
        names_unique(self.vars@)
    }

    fn new() -> (r: Frame)
        ensures
            r.wf(),
            r@ == empty_scope(),
    {
        let r = Frame { vars: Vec::new(), stack: Vec::new() };
        assert(r@.stack =~= Seq::<Val>::empty());
        r
    }

    fn get(&self, name: &String) -> (r: Option<Value>)
        requires
            self.wf(),
        ensures
            match r {
                Some(v) => self@.vars.contains_key(name@) && self@.vars[name@] == v@,
                None => !self@.vars.contains_key(name@),
            },
    {
        let mut i: usize = 0;
        while i < self.vars.len()
            invariant
                i <= self.vars@.len(),
                names_unique(self.vars@),
                forall|k: int| 0 <= k < i ==> self.vars@[k].0@ != name@,
            decreases self.vars@.len() - i,
        {
            if self.vars[i].0.eq(name) {
                proof {
                    lemma_vars_map_get(self.vars@, i as int);
                }
                return Some(self.vars[i].1.copy());
            }
            i = i + 1;
        }
        proof {
            lemma_vars_map_absent(self.vars@, name@);
        }
        None
    }

    fn set(&mut self, name: String, value: Value)
        requires
            old(self).wf(),
        ensures
            final(self).wf(),
            final(self)@ == (Scope {
                vars: old(self)@.vars.insert(name@, value@),
                stack: old(self)@.stack,
            }),
    {
        let mut i: usize = 0;
        while i < self.vars.len()
            invariant
                i <= self.vars@.len(),
                self.vars@ == old(self).vars@,
                self.stack@ == old(self).stack@,
                names_unique(self.vars@),
                forall|k: int| 0 <= k < i ==> self.vars@[k].0@ != name@,
            decreases self.vars@.len() - i,
        {
            if self.vars[i].0.eq(&name) {
                proof {
                    lemma_vars_map_update(self.vars@, i as int, (name, value));
                }
                self.vars.set(i, (name, value));
                assert(names_unique(self.vars@));
                return;
            }
            i = i + 1;
        }
        self.vars.push((name, value));
        proof {
            assert(self.vars@.drop_last() =~= old(self).vars@);
        }
    }

    fn push(&mut self, value: Value)
        ensures
            final(self).wf() == old(self).wf(),
            final(self)@ == (Scope { vars: old(self)@.vars, stack: old(self)@.stack.push(value@) }),
    {
        self.stack.push(value);
        proof {
            assert(stack_view(self.stack@) =~= stack_view(old(self).stack@).push(value@));
        }
    }

    fn pop(&mut self) -> (r: Option<Value>)
        ensures
            final(self).wf() == old(self).wf(),
            old(self)@.stack.len() == 0 ==> r is None && final(self)@ == old(self)@,
            old(self)@.stack.len() > 0 ==> r is Some && r->Some_0@ == old(self)@.stack.last()
                && final(self)@ == (Scope {
                vars: old(self)@.vars,
                stack: old(self)@.stack.drop_last(),
            }),
    {
        let r = self.stack.pop();
        proof {
            if old(self).stack@.len() > 0 {
                assert(stack_view(self.stack@) =~= stack_view(old(self).stack@).drop_last());
            }
        }
        r
    }
}

/// Nested scopes, the outermost (global) one first. Entering a function call
/// adds a scope and returning removes it; the global scope always remains.
pub struct Environment {
    frames: Vec<Frame>,
}

impl View for Environment {
    type V = Seq<Scope>;

    closed spec fn view(&self) -> Seq<Scope> {
        self.frames@.map_values(|f: Frame| f@)
    }
}

/// The result of looking `name` up in `scopes`.
pub open spec fn get_result(scopes: Seq<Scope>, name: String) -> Result<Val, RuntimeError> {
    match lookup(scopes, name@) {
        Some(v) => Ok(v),
        None => Err(RuntimeError::UndefinedValue { ident: name }),
    }
}

/// The innermost stack's top value, or the empty-stack error.
pub open spec fn top_value(scopes: Seq<Scope>) -> Result<Val, RuntimeError> {
    if scopes.last().stack.len() == 0 {
        Err(RuntimeError::EmptyStack)
    } else {
        Ok(scopes.last().stack.last())
    }
}

/// The scopes after a pop from the innermost stack: unchanged if it is empty.
pub open spec fn after_pop(scopes: Seq<Scope>) -> Seq<Scope> {
    if scopes.last().stack.len() == 0 {
        scopes
    } else {
        drop_top(scopes)
    }
}

impl Environment {
    pub closed spec fn wf(&self) -> bool {
        &&& self.frames@.len() >= 1
        &&& forall|i: int| 0 <= i < self.frames@.len() ==> #[trigger] self.frames@[i].wf()
    }

    /// A well-formed environment has its global scope.
    pub proof fn lemma_has_global(&self)
        requires
            self.wf(),
        ensures
            self@.len() >= 1,
    {
    }

    /// Only the global scope, empty.
    pub fn new() -> (r: Environment)
        ensures
            r.wf(),
            r@ == seq![empty_scope()],
    {
        let mut frames = Vec::new();
        frames.push(Frame::new());
        let r = Environment { frames };
        assert(r@ =~= seq![empty_scope()]);
        r
    }

    /// The number of scopes above the global one.
    pub fn depth(&self) -> (r: usize)
        requires
            self.wf(),
        ensures
            r == self@.len() - 1,
    {
        self.frames.len() - 1
    }

    fn take_top(&mut self) -> (r: Frame)
        requires
            old(self).wf(),
        ensures
            r.wf(),
            r@ == old(self)@.last(),
            final(self)@ == old(self)@.drop_last(),
            final(self).frames@.len() == old(self).frames@.len() - 1,
            forall|i: int| 0 <= i < final(self).frames@.len() ==> #[trigger] final(self).frames@[i].wf(),
    {
        let r = self.frames.pop().unwrap();
        assert(self@ =~= old(self)@.drop_last());
        r
    }

    fn put_top(&mut self, f: Frame)
        requires
            f.wf(),
            forall|i: int| 0 <= i < old(self).frames@.len() ==> #[trigger] old(self).frames@[i].wf(),
        ensures
            final(self).wf(),
            final(self)@ == old(self)@.push(f@),
    {
        self.frames.push(f);
        assert(self@ =~= old(self)@.push(f@));
    }

    /// Enters a new, empty scope.
    pub fn new_scope(&mut self)
        requires
            old(self).wf(),
        ensures
            final(self).wf(),
            final(self)@ == old(self)@.push(empty_scope()),
    {
        self.frames.push(Frame::new());
        assert(self@ =~= old(self)@.push(empty_scope()));
    }

    /// Leaves the innermost scope, dropping its variables and stack.
    pub fn exit_scope(&mut self)
        requires
            old(self).wf(),
            old(self)@.len() >= 2,
        ensures
            final(self).wf(),
            final(self)@ == old(self)@.drop_last(),
    {
        let _ = self.take_top();
    }

    /// The value of `name` in the innermost scope that binds it.
    pub fn get(&self, name: &String) -> (r: Result<Value, RuntimeError>)
        requires
            self.wf(),
        ensures
            result_view(r) == get_result(self@, *name),
    {
        let mut i: usize = self.frames.len();
        assert(self@.subrange(0, i as int) =~= self@);
        while i > 0
            invariant
                self.wf(),
                i <= self@.len(),
                lookup(self@, name@) == lookup(self@.subrange(0, i as int), name@),
            decreases i,
        {
            i = i - 1;
            assert(self@.subrange(0, i + 1).drop_last() =~= self@.subrange(0, i as int));
            assert(self.frames@[i as int].wf());
            match self.frames[i].get(name) {
                Some(v) => {
                    return Ok(v);
                },
                None => {},
            }
        }
        Err(RuntimeError::UndefinedValue { ident: name.clone() })
    }

    /// Binds `name` to `value` in the innermost scope.
    pub fn set(&mut self, name: String, value: Value)
        requires
            old(self).wf(),
        ensures
            final(self).wf(),
            final(self)@ == bind(old(self)@, name@, value@),
    {
        let mut top = self.take_top();
        top.set(name, value);
        self.put_top(top);
        assert(self@ =~= bind(old(self)@, name@, value@));
    }

    /// Pushes `value` on the innermost stack.
    pub fn push(&mut self, value: Value)
        requires
            old(self).wf(),
        ensures
            final(self).wf(),
            final(self)@ == push_top(old(self)@, value@),
    {
        let mut top = self.take_top();
        top.push(value);
        self.put_top(top);
        assert(self@ =~= push_top(old(self)@, value@));
    }

    /// Pops the innermost stack's top value.
    pub fn pop(&mut self) -> (r: Result<Value, RuntimeError>)
        requires
            old(self).wf(),
        ensures
            final(self).wf(),
            result_view(r) == top_value(old(self)@),
            final(self)@ == after_pop(old(self)@),
    {
        let mut top = self.take_top();
        let r = top.pop();
        self.put_top(top);
        match r {
            Some(v) => {
                assert(self@ =~= drop_top(old(self)@));
                Ok(v)
            },
            None => {
                assert(self@ =~= old(self)@);
                Err(RuntimeError::EmptyStack)
            },
        }
    }

    /// Pops the top value of the stack one scope out from the innermost: the
    /// caller's stack while a call binds its parameters.
    pub fn parent_pop(&mut self) -> (r: Result<Value, RuntimeError>)
        requires
            old(self).wf(),
            old(self)@.len() >= 2,
        ensures
            final(self).wf(),
            result_view(r) == top_value(old(self)@.drop_last()),
            final(self)@ == after_pop(old(self)@.drop_last()).push(old(self)@.last()),
    {
        let top = self.take_top();
        let r = self.pop();
        self.put_top(top);
        r
    }

    /// The global scope's variables and stack, for display.
    pub fn dump(&self) -> (r: (&Vec<(String, Value)>, &Vec<Value>))
        requires
            self.wf(),
        ensures
            vars_map(r.0@) == self@[0].vars,
            stack_view(r.1@) == self@[0].stack,
    {
        let global = &self.frames[0];
        (&global.vars, &global.stack)
    }
}

} // verus!
