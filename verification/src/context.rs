//! The environment of a parse: variables and functions by name. Each name
//! holds a stack, so that an inner binding shadows an outer one and gives it
//! back when it is popped.

use crate::path::{path_resolve, resolve};
use crate::table::Table;
use crate::text::{is_truthy, text_is_falsy, texts};
use vstd::prelude::*;

verus! {

/// A value and the template file that it was bound in.
#[derive(Debug, Default)]
pub struct Variable {
    path: String,
    value: String,
}

pub struct VarView {
    pub path: Seq<char>,
    pub value: Seq<char>,
}

impl View for Variable {
    type V = VarView;

    closed spec fn view(&self) -> VarView {
        VarView { path: self.path@, value: self.value@ }
    }
}

impl Variable {
    pub fn new(path: &str, value: &str) -> (r: Self)
        ensures
            r@ == (VarView { path: path@, value: value@ }),
    {
        Self { path: path.to_owned(), value: value.to_owned() }
    }

    pub fn value(&self) -> (r: &String)
        ensures
            r@ == self@.value,
    {
        &self.value
    }

    /// The file that the value was bound in.
    pub fn path(&self) -> (r: &String)
        ensures
            r@ == self@.path,
    {
        &self.path
    }

    /// The value read as a path: as it is where it is absolute, else against
    /// the directory of the file that it was bound in.
    pub fn value_as_path(&self) -> (r: String)
        ensures
            r@ == path_resolve(self@.path, self@.value),
    {
        resolve(self.path.as_str(), self.value.as_str())
    }

    /// A value is true unless it is absent, empty, `0`, `n` or `false`
    /// (whatever the case of the letters).
    pub fn value_is_truthy(value: Option<&String>) -> (r: bool)
        ensures
            r == is_truthy(
                match value {
                    Some(s) => Some(s@),
                    None => None,
                },
            ),
    {
        match value {
            None => false,
            Some(s) => !text_is_falsy(s.as_str()),
        }
    }

    pub fn duplicate(&self) -> (r: Self)
        ensures
            r@ == self@,
    {
        Self { path: self.path.clone(), value: self.value.clone() }
    }
}

/// A function of a template: the names of its parameters and its body, kept
/// as the text that was written.
#[derive(Debug, Default)]
pub struct Function {
    args: Vec<String>,
    content: String,
}

pub struct FunView {
    pub args: Seq<Seq<char>>,
    pub body: Seq<char>,
}

impl View for Function {
    type V = FunView;

    closed spec fn view(&self) -> FunView {
        FunView { args: texts(self.args@), body: self.content@ }
    }
}

pub fn clone_strings(v: &Vec<String>) -> (r: Vec<String>)
    ensures
        texts(r@) == texts(v@),
{
    let mut r: Vec<String> = Vec::new();
    let mut i: usize = 0;
    while i < v.len()
        invariant
            i <= v.len(),
            r@.len() == i,
            forall|j: int| 0 <= j < i ==> r@[j]@ == v@[j]@,
        decreases v.len() - i,
    {
        r.push(v[i].clone());
        i += 1;
    }
    assert(texts(r@) =~= texts(v@));
    r
}

impl Function {
    pub fn new(args: Vec<String>, content: String) -> (r: Self)
        ensures
            r@ == (FunView { args: texts(args@), body: content@ }),
    {
        Self { args, content }
    }

    /// The body as it was written.
    pub fn content(&self) -> (r: &String)
        ensures
            r@ == self@.body,
    {
        &self.content
    }

    pub fn args(&self) -> (r: &Vec<String>)
        ensures
            texts(r@) == self@.args,
    {
        &self.args
    }

    pub fn duplicate(&self) -> (r: Self)
        ensures
            r@ == self@,
    {
        Self { args: clone_strings(&self.args), content: self.content.clone() }
    }
}

pub open spec fn stack_view(stack: Vec<Variable>) -> Seq<VarView> {
    stack@.map_values(|v: Variable| v@)
}

pub open spec fn functions_view(stack: Vec<Function>) -> Seq<FunView> {
    stack@.map_values(|f: Function| f@)
}

#[derive(Debug)]
pub struct Context {
    variables: Table<Vec<Variable>>,
    functions: Table<Vec<Function>>,
}

pub struct CtxView {
    pub variables: Map<Seq<char>, Seq<VarView>>,
    pub functions: Map<Seq<char>, Seq<FunView>>,
}

impl CtxView {
    /// No name holds an empty stack.
    pub open spec fn wf(self) -> bool {
        &&& forall|k: Seq<char>| #[trigger]
            self.variables.contains_key(k) ==> self.variables[k].len() > 0
        &&& forall|k: Seq<char>| #[trigger]
            self.functions.contains_key(k) ==> self.functions[k].len() > 0
    }

    pub open spec fn empty() -> CtxView {
        CtxView { variables: Map::empty(), functions: Map::empty() }
    }

    /// The stack of a name, oldest first; empty where the name is unbound.
    pub open spec fn stack(self, k: Seq<char>) -> Seq<VarView> {
        if self.variables.contains_key(k) {
            self.variables[k]
        } else {
            Seq::empty()
        }
    }

    /// The newest value of a name.
    pub open spec fn value(self, k: Seq<char>) -> Option<Seq<char>> {
        if self.stack(k).len() > 0 {
            Some(self.stack(k).last().value)
        } else {
            None
        }
    }

    /// All values of a name, oldest first.
    pub open spec fn values(self, k: Seq<char>) -> Option<Seq<Seq<char>>> {
        if self.variables.contains_key(k) {
            Some(self.variables[k].map_values(|v: VarView| v.value))
        } else {
            None
        }
    }

    /// The newest value of a name, read as a path.
    pub open spec fn path(self, k: Seq<char>) -> Option<Seq<char>> {
        if self.stack(k).len() > 0 {
            Some(path_resolve(self.stack(k).last().path, self.stack(k).last().value))
        } else {
            None
        }
    }

    /// A new binding on top of the stack of `k`.
    pub open spec fn add_variable(self, k: Seq<char>, path: Seq<char>, value: Seq<char>) -> CtxView {
        CtxView {
            variables: self.variables.insert(k, self.stack(k).push(VarView { path, value })),
            ..self
        }
    }

    /// The stack of `k` without its newest binding; the name goes with its
    /// last binding.
    pub open spec fn pop_variable(self, k: Seq<char>) -> CtxView {
        if self.stack(k).len() > 1 {
            CtxView { variables: self.variables.insert(k, self.stack(k).drop_last()), ..self }
        } else {
            CtxView { variables: self.variables.remove(k), ..self }
        }
    }

    pub open spec fn remove_variable(self, k: Seq<char>) -> CtxView {
        CtxView { variables: self.variables.remove(k), ..self }
    }

    /// The newest function of a name.
    pub open spec fn function(self, k: Seq<char>) -> Option<FunView> {
        if self.functions.contains_key(k) && self.functions[k].len() > 0 {
            Some(self.functions[k].last())
        } else {
            None
        }
    }

    pub open spec fn add_function(self, k: Seq<char>, args: Seq<Seq<char>>, body: Seq<char>) -> CtxView {
        let stack = if self.functions.contains_key(k) {
            self.functions[k]
        } else {
            Seq::empty()
        };
        CtxView { functions: self.functions.insert(k, stack.push(FunView { args, body })), ..self }
    }
}

impl View for Context {
    type V = CtxView;

    closed spec fn view(&self) -> CtxView {
        CtxView {
            variables: self.variables@.map_values(|s: Vec<Variable>| stack_view(s)),
            functions: self.functions@.map_values(|s: Vec<Function>| functions_view(s)),
        }
    }
}

impl DeepView for Context {
    type V = CtxView;

    open spec fn deep_view(&self) -> CtxView {
        self@
    }
}

fn clone_stack(stack: &Vec<Variable>) -> (r: Vec<Variable>)
    ensures
        stack_view(r) == stack_view(*stack),
{
    let mut r: Vec<Variable> = Vec::new();
    let mut i: usize = 0;
    while i < stack.len()
        invariant
            i <= stack.len(),
            r@.len() == i,
            forall|j: int| 0 <= j < i ==> r@[j]@ == stack@[j]@,
        decreases stack.len() - i,
    {
        r.push(stack[i].duplicate());
        i += 1;
    }
    assert(stack_view(r) =~= stack_view(*stack));
    r
}

fn clone_functions(stack: &Vec<Function>) -> (r: Vec<Function>)
    ensures
        functions_view(r) == functions_view(*stack),
{
    let mut r: Vec<Function> = Vec::new();
    let mut i: usize = 0;
    while i < stack.len()
        invariant
            i <= stack.len(),
            r@.len() == i,
            forall|j: int| 0 <= j < i ==> r@[j]@ == stack@[j]@,
        decreases stack.len() - i,
    {
        r.push(stack[i].duplicate());
        i += 1;
    }
    assert(functions_view(r) =~= functions_view(*stack));
    r
}

impl Context {
    pub closed spec fn tables_wf(&self) -> bool {
        self.variables.wf() && self.functions.wf()
    }

    pub open spec fn wf(&self) -> bool {
        self.tables_wf() && self@.wf()
    }

    /// A context without a binding.
    pub fn new() -> (r: Self)
        ensures
            r.wf(),
            r@ == CtxView::empty(),
    {
        let r = Context { variables: Table::new(), functions: Table::new() };
        assert(r@.variables =~= Map::<Seq<char>, Seq<VarView>>::empty());
        assert(r@.functions =~= Map::<Seq<char>, Seq<FunView>>::empty());
        r
    }

    fn variables(&self, key: &str) -> (r: Option<&Vec<Variable>>)
        requires
            self.wf(),
        ensures
            match r {
                Some(s) => self@.variables.contains_key(key@) && self@.variables[key@]
                    == stack_view(*s),
                None => !self@.variables.contains_key(key@),
            },
    {
        self.variables.get(key)
    }

    /// The newest value of `key`.
    pub fn value(&self, key: &str) -> (r: Option<&String>)
        requires
            self.wf(),
        ensures
            match r {
                Some(s) => self@.value(key@) == Some(s@),
                None => self@.value(key@) is None,
            },
    {
        match self.variables(key) {
            Some(stack) => {
                if stack.len() > 0 {
                    Some(stack[stack.len() - 1].value())
                } else {
                    None
                }
            },
            None => None,
        }
    }

    /// The newest value of `key`, read as a path.
    pub fn path(&self, key: &str) -> (r: Option<String>)
        requires
            self.wf(),
        ensures
            match r {
                Some(s) => self@.path(key@) == Some(s@),
                None => self@.path(key@) is None,
            },
    {
        match self.variables(key) {
            Some(stack) => {
                if stack.len() > 0 {
                    Some(stack[stack.len() - 1].value_as_path())
                } else {
                    None
                }
            },
            None => None,
        }
    }

    /// All values of `key`, oldest first.
    pub fn values(&self, key: &str) -> (r: Option<Vec<String>>)
        requires
            self.wf(),
        ensures
            match r {
                Some(v) => self@.values(key@) == Some(texts(v@)),
                None => self@.values(key@) is None,
            },
    {
        match self.variables(key) {
            Some(stack) => {
                let mut out: Vec<String> = Vec::new();
                let mut i: usize = 0;
                while i < stack.len()
                    invariant
                        i <= stack.len(),
                        out@.len() == i,
                        forall|j: int| 0 <= j < i ==> out@[j]@ == stack@[j]@.value,
                    decreases stack.len() - i,
                {
                    out.push(stack[i].value().clone());
                    i += 1;
                }
                assert(texts(out@) =~= stack_view(*stack).map_values(|v: VarView| v.value));
                Some(out)
            },
            None => None,
        }
    }

    /// The number of values of `key`.
    pub fn count(&self, key: &str) -> (r: usize)
        requires
            self.wf(),
        ensures
            r == self@.stack(key@).len(),
    {
        match self.variables(key) {
            Some(stack) => stack.len(),
            None => 0,
        }
    }

    /// Binds `key` to `value`, on top of what it is bound to; `path` is the
    /// template file that owns the binding.
    pub fn add_variable(&mut self, key: &str, path: &str, value: &str)
        requires
            old(self).wf(),
        ensures
            final(self).wf(),
            final(self)@ == old(self)@.add_variable(key@, path@, value@),
    {
        let variable = Variable::new(path, value);
        let mut stack = match self.variables.remove(key) {
            Some(stack) => stack,
            None => Vec::new(),
        };
        let ghost before = stack_view(stack);
        assert(before =~= old(self)@.stack(key@));
        stack.push(variable);
        assert(stack_view(stack) =~= before.push(variable@));
        self.variables.insert(key, stack);
        assert(self@.variables =~= old(self)@.add_variable(key@, path@, value@).variables);
    }

    /// Takes the whole stack of `key` away.
    pub fn remove_variable(&mut self, key: &str) -> (r: Option<Vec<Variable>>)
        requires
            old(self).wf(),
        ensures
            final(self).wf(),
            final(self)@ == old(self)@.remove_variable(key@),
            match r {
                Some(s) => old(self)@.variables.contains_key(key@) && stack_view(s) == old(
                    self,
                )@.variables[key@],
                None => !old(self)@.variables.contains_key(key@),
            },
    {
        let r = self.variables.remove(key);
        assert(self@.variables =~= old(self)@.variables.remove(key@));
        assert(self@.functions =~= old(self)@.functions);
        assert(self@ == old(self)@.remove_variable(key@));
        r
    }

    /// Takes the newest binding of `key` away; the name goes with its last
    /// binding.
    pub fn pop_variable(&mut self, key: &str) -> (r: Option<Variable>)
        requires
            old(self).wf(),
        ensures
            final(self).wf(),
            final(self)@ == old(self)@.pop_variable(key@),
            match r {
                Some(v) => old(self)@.stack(key@).len() > 0 && v@ == old(self)@.stack(key@).last(),
                None => old(self)@.stack(key@).len() == 0,
            },
    {
        match self.variables.remove(key) {
            Some(mut stack) => {
                let ghost before = stack_view(stack);
                assert(old(self)@.variables.contains_key(key@));
                assert(before == old(self)@.variables[key@]);
                assert(before.len() > 0);
                assert(stack@.len() == before.len());
                let popped = stack.pop();
                assert(stack_view(stack) =~= before.drop_last());
                if stack.len() > 0 {
                    self.variables.insert(key, stack);
                    assert(self@.variables =~= old(self)@.pop_variable(key@).variables);
                } else {
                    assert(self@.variables =~= old(self)@.pop_variable(key@).variables);
                }
                popped
            },
            None => {
                assert(self@.variables =~= old(self)@.pop_variable(key@).variables);
                None
            },
        }
    }

    /// The newest function of `key`.
    pub fn function(&self, key: &str) -> (r: Option<&Function>)
        requires
            self.wf(),
        ensures
            match r {
                Some(f) => self@.function(key@) == Some(f@),
                None => self@.function(key@) is None,
            },
    {
        match self.functions.get(key) {
            Some(stack) => {
                if stack.len() > 0 {
                    Some(&stack[stack.len() - 1])
                } else {
                    None
                }
            },
            None => None,
        }
    }

    /// Defines a function, on top of the ones of the same name.
    pub fn add_function(&mut self, name: String, args: Vec<String>, content: String)
        requires
            old(self).wf(),
        ensures
            final(self).wf(),
            final(self)@ == old(self)@.add_function(name@, texts(args@), content@),
    {
        let function = Function::new(args, content);
        let mut stack = match self.functions.remove(name.as_str()) {
            Some(stack) => stack,
            None => Vec::new(),
        };
        let ghost before = functions_view(stack);
        assert(before =~= if old(self)@.functions.contains_key(name@) {
            old(self)@.functions[name@]
        } else {
            Seq::empty()
        });
        stack.push(function);
        assert(functions_view(stack) =~= before.push(function@));
        self.functions.insert(name.as_str(), stack);
        assert(self@.functions =~= old(self)@.add_function(
            name@,
            texts(args@),
            content@,
        ).functions);
    }

    /// A context with the same bindings.
    pub fn duplicate(&self) -> (r: Self)
        requires
            self.wf(),
        ensures
            r.wf(),
            r@ == self@,
    {
        let mut variables: Table<Vec<Variable>> = Table::new();
        let n = self.variables.len();
        let mut i: usize = 0;
        proof {
            self.variables.lemma_positions();
        }
        while i < n
            invariant
                i <= n,
                n == self.variables.spec_len(),
                self.variables.wf(),
                variables.wf(),
                forall|k: Seq<char>|
                    variables@.contains_key(k) <==> exists|j: int|
                        0 <= j < i && #[trigger] self.variables.spec_name(j) == k,
                forall|k: Seq<char>|
                    variables@.contains_key(k) ==> self.variables@.contains_key(k) && stack_view(
                        variables@[k],
                    ) == stack_view(self.variables@[k]),
            decreases n - i,
        {
            let name = self.variables.name_at(i);
            let stack = clone_stack(self.variables.value_at(i));
            variables.insert(name.as_str(), stack);
            proof {
                assert(self.variables.spec_name(i as int) == name@);
            }
            i += 1;
        }
        let mut functions: Table<Vec<Function>> = Table::new();
        let m = self.functions.len();
        let mut i: usize = 0;
        proof {
            self.functions.lemma_positions();
        }
        while i < m
            invariant
                i <= m,
                m == self.functions.spec_len(),
                self.functions.wf(),
                functions.wf(),
                forall|k: Seq<char>|
                    functions@.contains_key(k) <==> exists|j: int|
                        0 <= j < i && #[trigger] self.functions.spec_name(j) == k,
                forall|k: Seq<char>|
                    functions@.contains_key(k) ==> self.functions@.contains_key(k)
                        && functions_view(functions@[k]) == functions_view(self.functions@[k]),
            decreases m - i,
        {
            let name = self.functions.name_at(i);
            let stack = clone_functions(self.functions.value_at(i));
            functions.insert(name.as_str(), stack);
            proof {
                assert(self.functions.spec_name(i as int) == name@);
            }
            i += 1;
        }
        let r = Context { variables, functions };
        proof {
            self.variables.lemma_positions();
            self.functions.lemma_positions();
            assert(r@.variables =~= self@.variables);
            assert(r@.functions =~= self@.functions);
        }
        r
    }
}

impl Default for Context {
    fn default() -> (r: Self)
        ensures
            r.wf(),
            r@ == CtxView::empty(),
    {
        Context::new()
    }
}

} // verus!
