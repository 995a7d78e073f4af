use std::rc::Rc;

use vstd::prelude::*;

use crate::ast::{Class, Function, Lambda, function_v, lemma_tokens_v_index, tokens_v};
use crate::environment::{
    EnvInnerV, Environments, GlobalEnvironment, LocalEnvironment, ancestor, assign_at, bind, deref,
    define_at, envs_wf, lemma_ancestor_in_store, lemma_ancestor_push, lookup, lookup_at, values_map,
};
use crate::error::{LoxError, LoxErrorV};
use crate::parser::message;
use crate::token::{Token, TokenV};

verus! {

/// `Rc::clone`: another handle on the same value; std documents that the
/// new pointer points to the same allocation, so the value is the same.
#[verifier::external_body]
fn share<T>(rc: &Rc<T>) -> (r: Rc<T>)
    ensures
        *r == **rc,
{
    Rc::clone(rc)
}

/// A function value of a running program: its declaration, the environment
/// it closes over, and whether it is the initializer of a class.
pub struct LoxFunction {
    pub declaration: Rc<Function>,
    pub closure: LocalEnvironment,
    pub is_init: bool,
}

impl Clone for LoxFunction {
    fn clone(&self) -> (r: Self)
        ensures
            r == *self,
    {
        LoxFunction {
            declaration: share(&self.declaration),
            closure: self.closure,
            is_init: self.is_init,
        }
    }
}

/// The store after a method is bound to an instance: a new environment, in
/// the method's closure, that binds `this`.
pub open spec fn bound_store<V>(envs: Seq<EnvInnerV<V>>, closure: LocalEnvironment, instance: V) -> Seq<
    EnvInnerV<V>,
> {
    envs.push(
        EnvInnerV {
            parent: Some(closure.id),
            values: Map::<Seq<char>, V>::empty().insert("this"@, instance),
        },
    )
}

/// Binding a method to an instance keeps the method's closure: the new
/// environment binds `this`, and nothing else, to the instance, and a read one
/// step further out is the same read in the closure the method was made in.
pub proof fn law_bind_keeps_closure<V>(
    envs: Seq<EnvInnerV<V>>,
    closure: LocalEnvironment,
    instance: V,
    name: Seq<char>,
    hops: nat,
)
    requires
        envs_wf(envs),
        closure.id < envs.len(),
    ensures
        envs_wf(bound_store(envs, closure, instance)),
        lookup_at(bound_store(envs, closure, instance), envs.len() as int, "this"@, 0) == Some(instance),
        name != "this"@ ==> lookup_at(bound_store(envs, closure, instance), envs.len() as int, name, 0)
            is None,
        lookup_at(bound_store(envs, closure, instance), envs.len() as int, name, hops + 1) == lookup_at(
            envs,
            closure.id as int,
            name,
            hops,
        ),
{
    let e = EnvInnerV { parent: Some(closure.id), values: Map::<Seq<char>, V>::empty().insert("this"@, instance) };
    let e2 = bound_store(envs, closure, instance);
    assert(e2 == envs.push(e));
    assert forall|i: int| 0 <= i < e2.len() implies match #[trigger] e2[i].parent {
        Some(p) => p < i,
        None => true,
    } by {
        if i < envs.len() {
            assert(e2[i] == envs[i]);
        }
    }
    lemma_ancestor_push(envs, e, closure.id as int, hops);
    lemma_ancestor_in_store(envs, closure.id as int, hops);
    assert(e2[envs.len() as int].parent == Some(closure.id));
    assert(ancestor(e2, envs.len() as int, hops + 1) == ancestor(e2, closure.id as int, hops));
    assert(e2[envs.len() as int].values.contains_key("this"@));
    if let Some(a) = ancestor(envs, closure.id as int, hops) {
        assert(e2[a] == envs[a]);
    }
}

impl LoxFunction {
    pub fn new(declaration: Function, closure: LocalEnvironment, is_init: bool) -> (r: Self)
        ensures
            *r.declaration == declaration,
            r.closure == closure,
            r.is_init == is_init,
    {
        LoxFunction { declaration: Rc::new(declaration), closure, is_init }
    }

    /// The same function with `this` bound to `instance`, in a new
    /// environment built in its closure.
    pub fn bind<V>(&self, envs: &mut Environments<V>, instance: V) -> (r: Self)
        requires
            envs_wf(old(envs)@),
            self.closure.id < old(envs)@.len(),
        ensures
            envs_wf(final(envs)@),
            final(envs)@ == bound_store(old(envs)@, self.closure, instance),
            r == (LoxFunction {
                declaration: self.declaration,
                closure: LocalEnvironment { id: old(envs)@.len() as usize },
                is_init: self.is_init,
            }),
    {
        let env = LocalEnvironment::build(envs, self.closure);
        env.defineAt(envs, message("this"), instance, 0);
        proof {
            assert(envs@ =~= bound_store(old(envs)@, self.closure, instance));
        }
        LoxFunction { declaration: share(&self.declaration), closure: env, is_init: self.is_init }
    }

    /// The number of parameters.
    pub fn arity(&self) -> (r: usize)
        ensures
            r == self.declaration.params@.len(),
    {
        self.declaration.params.len()
    }

    pub fn get_name(&self) -> (r: String)
        ensures
            r@ == self.declaration.name.lexeme@,
    {
        self.declaration.name.lexeme.clone()
    }
}

/// An anonymous function value: its declaration and its closure.
pub struct LoxLambda {
    pub declaration: Rc<Lambda>,
    pub closure: LocalEnvironment,
}

impl LoxLambda {
    pub fn new(declaration: Lambda, closure: LocalEnvironment) -> (r: Self)
        ensures
            *r.declaration == declaration,
            r.closure == closure,
    {
        LoxLambda { declaration: Rc::new(declaration), closure }
    }

    pub fn arity(&self) -> (r: usize)
        ensures
            r == self.declaration.params@.len(),
    {
        self.declaration.params.len()
    }

    pub fn get_name(&self) -> (r: String)
        ensures
            r@ == "Lambda"@,
    {
        message("Lambda")
    }
}

/// A class: its name, its methods by name (a later method of the same name
/// replaces an earlier one), and its superclass.
pub struct LoxClass {
    pub name: String,
    pub methods: Vec<(String, LoxFunction)>,
    pub super_class: Option<Box<LoxClass>>,
}

/// The method a class finds for `name`: its own, else its superclass's.
pub open spec fn find_method_spec(c: LoxClass, name: Seq<char>) -> Option<LoxFunction>
    decreases c,
{
    let own = values_map(c.methods@);
    if own.contains_key(name) {
        Some(own[name])
    } else {
        match c.super_class {
            Some(sc) => find_method_spec(*sc, name),
            None => None,
        }
    }
}

impl LoxClass {
    pub fn new(name: String, methods: Vec<(String, LoxFunction)>, super_class: Option<Box<LoxClass>>) -> (r: Self)
        ensures
            r.name == name,
            r.methods == methods,
            r.super_class == super_class,
    {
        LoxClass { name, methods, super_class }
    }

    /// The method for `name`: the class's own, else one its superclasses
    /// find.
    pub fn find_method(&self, name: &String) -> (r: Option<&LoxFunction>)
        ensures
            deref(r) == find_method_spec(*self, name@),
        decreases self,
    {
        match lookup(&self.methods, name) {
            Some(m) => Some(m),
            None => match &self.super_class {
                Some(sc) => sc.find_method(name),
                None => None,
            },
        }
    }

    /// The method for the name of `name`, bound to `instance`; a class with
    /// no such method is an error.
    pub fn bind_method<V>(&self, envs: &mut Environments<V>, name: &Token, instance: V) -> (r: Result<LoxFunction, LoxError>)
        requires
            envs_wf(old(envs)@),
            forall|m: LoxFunction| #[trigger] find_method_spec(*self, name.lexeme@) == Some(m) ==> m.closure.id < old(envs)@.len(),
        ensures
            envs_wf(final(envs)@),
            match find_method_spec(*self, name.lexeme@) {
                Some(m) => {
                    &&& final(envs)@ == bound_store(old(envs)@, m.closure, instance)
                    &&& r == Ok::<LoxFunction, LoxError>(LoxFunction {
                        declaration: m.declaration,
                        closure: LocalEnvironment { id: old(envs)@.len() as usize },
                        is_init: m.is_init,
                    })
                },
                None => {
                    &&& final(envs)@ == old(envs)@
                    &&& r matches Err(e) && e@ == LoxErrorV::RuntimeError(
                        name.lexeme@,
                        name.line_no,
                        "Only Instances have properties"@,
                    )
                },
            },
    {
        match self.find_method(&name.lexeme) {
            Some(m) => Ok(m.bind(envs, instance)),
            None => Err(
                LoxError::RuntimeError(
                    name.lexeme.clone(),
                    name.line_no,
                    message("Only Instances have properties"),
                ),
            ),
        }
    }

    /// The number of arguments a call of the class takes: that of its
    /// initializer, or none.
    pub fn arity(&self) -> (r: usize)
        ensures
            r == (match find_method_spec(*self, "init"@) {
                Some(m) => m.declaration.params@.len(),
                None => 0,
            }),
    {
        match self.find_method(&message("init")) {
            Some(init) => init.arity(),
            None => 0,
        }
    }

    pub fn get_name(&self) -> (r: String)
        ensures
            r@ == self.name@,
    {
        self.name.clone()
    }
}

/// An instance of a class: the class and the instance's fields.
pub struct LoxInstance<V> {
    pub klass: LoxClass,
    pub fields: Vec<(String, V)>,
}

impl<V> LoxInstance<V> {
    pub fn new(klass: LoxClass) -> (r: Self)
        ensures
            r.klass == klass,
            r.fields() == Map::<Seq<char>, V>::empty(),
    {
        LoxInstance { klass, fields: Vec::new() }
    }

    /// The fields by name.
    pub open spec fn fields(&self) -> Map<Seq<char>, V> {
        values_map(self.fields@)
    }

    /// The value of the field of the token's name, if it is set.
    pub fn get(&self, name: &Token) -> (r: Option<&V>)
        ensures
            deref(r) == (if self.fields().contains_key(name.lexeme@) {
                Some(self.fields()[name.lexeme@])
            } else {
                None
            }),
    {
        lookup(&self.fields, &name.lexeme)
    }

    /// Sets the field of the token's name.
    pub fn set(&mut self, name: &Token, value: V)
        ensures
            final(self).klass == old(self).klass,
            final(self).fields() == old(self).fields().insert(name.lexeme@, value),
    {
        bind(&mut self.fields, name.lexeme.clone(), value);
    }
}

/// A class's own method of a name overrides any of its superclasses; a name
/// it does not define itself is looked up in its superclass.
pub proof fn law_own_method_overrides(c: LoxClass, name: Seq<char>)
    ensures
        values_map(c.methods@).contains_key(name) ==> find_method_spec(c, name) == Some(values_map(c.methods@)[name]),
        !values_map(c.methods@).contains_key(name) ==> find_method_spec(c, name) == (match c.super_class {
            Some(sc) => find_method_spec(*sc, name),
            None => None,
        }),
{
}

/// A copy of a class: the same name, the same methods, and a copy of its
/// superclass.
pub fn clone_class(c: &LoxClass) -> (r: LoxClass)
    ensures
        r.name == c.name,
        r.methods@ == c.methods@,
        forall|n: Seq<char>| #[trigger] find_method_spec(r, n) == find_method_spec(*c, n),
    decreases c,
{
    let mut methods: Vec<(String, LoxFunction)> = Vec::new();
    let mut i: usize = 0;
    while i < c.methods.len()
        invariant
            i <= c.methods@.len(),
            methods@ == c.methods@.subrange(0, i as int),
        decreases c.methods@.len() - i,
    {
        let m = (c.methods[i].0.clone(), c.methods[i].1.clone());
        methods.push(m);
        assert(methods@ =~= c.methods@.subrange(0, i + 1));
        i += 1;
    }
    assert(methods@ =~= c.methods@);
    let super_class = match &c.super_class {
        Some(sc) => Some(Box::new(clone_class(sc))),
        None => None,
    };
    let r = LoxClass { name: c.name.clone(), methods, super_class };
    assert forall|n: Seq<char>| #[trigger] find_method_spec(r, n) == find_method_spec(*c, n) by {
        match c.super_class {
            Some(sc) => {
                assert(find_method_spec(*r.super_class->0, n) == find_method_spec(*sc, n));
            },
            None => {},
        }
    }
    r
}

impl Clone for LoxClass {
    fn clone(&self) -> (r: Self)
        ensures
            r.name == self.name,
            r.methods@ == self.methods@,
            forall|n: Seq<char>| #[trigger] find_method_spec(r, n) == find_method_spec(*self, n),
    {
        clone_class(self)
    }
}

/// The class that a class declaration makes: its name, its superclass, and
/// for each declared method in turn a function that closes over `env`, the
/// one named `init` being the initializer.
pub fn make_class(decl: &Class, env: LocalEnvironment, super_class: Option<Box<LoxClass>>) -> (r: LoxClass)
    ensures
        r.name@ == decl.name.lexeme@,
        r.super_class == super_class,
        r.methods@.len() == decl.methods@.len(),
        forall|i: int|
            0 <= i < decl.methods@.len() ==> {
                let (n, f) = #[trigger] r.methods@[i];
                &&& n@ == decl.methods@[i].name.lexeme@
                &&& function_v(*f.declaration) == function_v(decl.methods@[i])
                &&& f.closure == env
                &&& f.is_init == (decl.methods@[i].name.lexeme@ == "init"@)
            },
{
    let mut methods: Vec<(String, LoxFunction)> = Vec::new();
    let mut i: usize = 0;
    let init = message("init");
    while i < decl.methods.len()
        invariant
            i <= decl.methods@.len(),
            init@ == "init"@,
            methods@.len() == i,
            forall|j: int|
                0 <= j < i ==> {
                    let (n, f) = #[trigger] methods@[j];
                    &&& n@ == decl.methods@[j].name.lexeme@
                    &&& function_v(*f.declaration) == function_v(decl.methods@[j])
                    &&& f.closure == env
                    &&& f.is_init == (decl.methods@[j].name.lexeme@ == "init"@)
                },
        decreases decl.methods@.len() - i,
    {
        let m = &decl.methods[i];
        let is_init = m.name.lexeme == init;
        let f = LoxFunction::new(m.clone(), env, is_init);
        methods.push((m.name.lexeme.clone(), f));
        i += 1;
    }
    LoxClass { name: decl.name.lexeme.clone(), methods, super_class }
}

/// The parameters bound to the arguments, pair by pair in order: a later
/// parameter of the same name replaces an earlier one, and what the longer
/// list has over the shorter is left out.
pub open spec fn params_map<V>(params: Seq<TokenV>, args: Seq<V>) -> Map<Seq<char>, V>
    decreases params.len(),
{
    if params.len() == 0 || args.len() == 0 {
        Map::empty()
    } else {
        let n = if params.len() < args.len() { params.len() } else { args.len() };
        params_map(params.subrange(0, n - 1), args.subrange(0, n - 1)).insert(params[n - 1].lexeme, args[n - 1])
    }
}

/// The environment of a call: a new environment built in `closure` that
/// binds the parameters to the arguments.
pub fn call_environment<V>(
    envs: &mut Environments<V>,
    closure: LocalEnvironment,
    params: &Vec<Token>,
    args: Vec<V>,
) -> (r: LocalEnvironment)
    requires
        envs_wf(old(envs)@),
        closure.id < old(envs)@.len(),
    ensures
        envs_wf(final(envs)@),
        r.id == old(envs)@.len(),
        final(envs)@ == old(envs)@.push(
            EnvInnerV { parent: Some(closure.id), values: params_map(tokens_v(params@), args@) },
        ),
{
    let ghost a0 = args@;
    let ghost p0 = tokens_v(params@);
    proof {
        lemma_tokens_v_index(params@);
    }
    let env = LocalEnvironment::build(envs, closure);
    let mut args = args;
    let mut i: usize = 0;
    let n = if params.len() < args.len() { params.len() } else { args.len() };
    proof {
        assert(p0.subrange(0, 0) =~= Seq::<TokenV>::empty());
    }
    while i < n
        invariant
            i <= n,
            n <= params@.len(),
            n <= a0.len(),
            n == (if params@.len() < a0.len() { params@.len() } else { a0.len() }),
            p0 == tokens_v(params@),
            p0.len() == params@.len(),
            forall|j: int| 0 <= j < params@.len() ==> #[trigger] p0[j] == params@[j]@,
            args@ == a0.subrange(i as int, a0.len() as int),
            env.id == old(envs)@.len(),
            envs_wf(envs@),
            envs@ == old(envs)@.push(
                EnvInnerV {
                    parent: Some(closure.id),
                    values: params_map(p0.subrange(0, i as int), a0.subrange(0, i as int)),
                },
            ),
        decreases n - i,
    {
        let v = args.remove(0);
        let ghost before = envs@;
        env.defineAt(envs, params[i].lexeme.clone(), v, 0);
        proof {
            let ps = p0.subrange(0, i + 1);
            let as_ = a0.subrange(0, i + 1);
            assert(ps.subrange(0, i as int) =~= p0.subrange(0, i as int));
            assert(as_.subrange(0, i as int) =~= a0.subrange(0, i as int));
            assert(ps[i as int] == params@[i as int]@);
            assert(as_[i as int] == v);
            assert(params_map(ps, as_) == params_map(p0.subrange(0, i as int), a0.subrange(0, i as int)).insert(
                params@[i as int].lexeme@,
                v,
            ));
            assert(envs@ =~= old(envs)@.push(
                EnvInnerV { parent: Some(closure.id), values: params_map(ps, as_) },
            ));
            assert(args@ =~= a0.subrange(i + 1, a0.len() as int));
        }
        i += 1;
    }
    proof {
        if p0.len() == 0 || a0.len() == 0 {
            assert(params_map(p0.subrange(0, 0), a0.subrange(0, 0)) == params_map(p0, a0));
        } else {
            lemma_params_map_prefix(p0, a0);
        }
    }
    env
}

/// Only the pairs up to the shorter list's end count.
proof fn lemma_params_map_prefix<V>(params: Seq<TokenV>, args: Seq<V>)
    requires
        params.len() > 0,
        args.len() > 0,
    ensures
        ({
            let n = if params.len() < args.len() { params.len() } else { args.len() };
            params_map(params.subrange(0, n as int), args.subrange(0, n as int)) == params_map(params, args)
        }),
{
    let n = if params.len() < args.len() { params.len() } else { args.len() };
    let ps = params.subrange(0, n as int);
    let as_ = args.subrange(0, n as int);
    assert(ps.subrange(0, n - 1) =~= params.subrange(0, n - 1));
    assert(as_.subrange(0, n - 1) =~= args.subrange(0, n - 1));
}

/// In a call whose parameters have distinct names and match the arguments
/// in number, each parameter is bound to its own argument.
pub proof fn law_each_parameter_gets_its_argument<V>(params: Seq<TokenV>, args: Seq<V>)
    requires
        params.len() == args.len(),
        forall|i: int, j: int| 0 <= i < j < params.len() ==> #[trigger] params[i].lexeme != #[trigger] params[j].lexeme,
    ensures
        forall|i: int|
            0 <= i < params.len() ==> params_map(params, args).contains_key(#[trigger] params[i].lexeme)
                && params_map(params, args)[params[i].lexeme] == args[i],
    decreases params.len(),
{
    if params.len() > 0 {
        let n = params.len();
        let ps = params.subrange(0, n - 1);
        let as_ = args.subrange(0, n - 1);
        assert forall|i: int, j: int| 0 <= i < j < ps.len() implies #[trigger] ps[i].lexeme != #[trigger] ps[j].lexeme by {
            assert(ps[i] == params[i]);
            assert(ps[j] == params[j]);
        }
        law_each_parameter_gets_its_argument(ps, as_);
        assert forall|i: int| 0 <= i < params.len() implies params_map(params, args).contains_key(#[trigger] params[i].lexeme)
            && params_map(params, args)[params[i].lexeme] == args[i] by {
            if i < n - 1 {
                assert(ps[i] == params[i]);
                assert(as_[i] == args[i]);
                assert(params[i].lexeme != params[n - 1].lexeme);
            }
        }
    }
}

/// Where a name is read or written: the environment as many steps out as
/// the resolver found, or the global environment for a name it left
/// unresolved.
pub open spec fn variable_place(env: LocalEnvironment, global: GlobalEnvironment, name: TokenV) -> (int, nat) {
    match name.scope {
        Some(d) => (env.id as int, d as nat),
        None => (global.id as int, 0),
    }
}

/// The value of a variable; a name bound nowhere it is looked for is an
/// error.
pub fn lookup_variable<'a, V>(
    envs: &'a Environments<V>,
    env: LocalEnvironment,
    global: GlobalEnvironment,
    name: &Token,
) -> (r: Result<&'a V, LoxError>)
    requires
        envs_wf(envs@),
        env.id < envs@.len(),
        global.id < envs@.len(),
    ensures
        ({
            let (id, hops) = variable_place(env, global, name@);
            match lookup_at(envs@, id, name.lexeme@, hops) {
                Some(v) => r matches Ok(x) && *x == v,
                None => r matches Err(e) && e@ == LoxErrorV::RuntimeError(name.lexeme@, name.line_no, "Undefined get"@),
            }
        }),
{
    let found = match name.scope {
        Some(d) => env.getAt(envs, &name.lexeme, d),
        None => global.get(envs, &name.lexeme),
    };
    match found {
        Some(v) => Ok(v),
        None => Err(LoxError::RuntimeError(name.lexeme.clone(), name.line_no, message("Undefined get"))),
    }
}

/// Assigns a variable; a name bound nowhere it is looked for is an error,
/// and nothing changes.
pub fn assign_variable<V>(
    envs: &mut Environments<V>,
    env: LocalEnvironment,
    global: GlobalEnvironment,
    name: &Token,
    value: V,
) -> (r: Result<(), LoxError>)
    requires
        envs_wf(old(envs)@),
        env.id < old(envs)@.len(),
        global.id < old(envs)@.len(),
    ensures
        envs_wf(final(envs)@),
        ({
            let (id, hops) = variable_place(env, global, name@);
            &&& final(envs)@ == assign_at(old(envs)@, id, name.lexeme@, value, hops)
            &&& (lookup_at(old(envs)@, id, name.lexeme@, hops) is Some) == (r is Ok)
            &&& r matches Err(e) ==> e@ == LoxErrorV::RuntimeError(name.lexeme@, name.line_no, "Undefined assign"@)
        }),
{
    let done = match name.scope {
        Some(d) => env.assignAt(envs, name.lexeme.clone(), value, d),
        None => global.assign(envs, name.lexeme.clone(), value),
    };
    if done {
        Ok(())
    } else {
        Err(LoxError::RuntimeError(name.lexeme.clone(), name.line_no, message("Undefined assign")))
    }
}

/// Defines a variable where the resolver found its declaration.
pub fn define_variable<V>(
    envs: &mut Environments<V>,
    env: LocalEnvironment,
    global: GlobalEnvironment,
    name: &Token,
    value: V,
)
    requires
        envs_wf(old(envs)@),
        env.id < old(envs)@.len(),
        global.id < old(envs)@.len(),
    ensures
        envs_wf(final(envs)@),
        ({
            let (id, hops) = variable_place(env, global, name@);
            final(envs)@ == define_at(old(envs)@, id, name.lexeme@, value, hops)
        }),
{
    match name.scope {
        Some(d) => env.defineAt(envs, name.lexeme.clone(), value, d),
        None => global.define(envs, name.lexeme.clone(), value),
    }
}

/// The environment in which the methods of a class with a superclass are
/// made: a new one, built in `env`, that binds `super` to the superclass.
pub fn superclass_environment<V>(envs: &mut Environments<V>, env: LocalEnvironment, superclass: V) -> (r: LocalEnvironment)
    requires
        envs_wf(old(envs)@),
        env.id < old(envs)@.len(),
    ensures
        envs_wf(final(envs)@),
        r.id == old(envs)@.len(),
        final(envs)@ == old(envs)@.push(
            EnvInnerV {
                parent: Some(env.id),
                values: Map::<Seq<char>, V>::empty().insert("super"@, superclass),
            },
        ),
{
    let r = LocalEnvironment::build(envs, env);
    r.defineAt(envs, message("super"), superclass, 0);
    assert(envs@ =~= old(envs)@.push(
        EnvInnerV { parent: Some(env.id), values: Map::<Seq<char>, V>::empty().insert("super"@, superclass) },
    ));
    r
}

/// A call passes as many arguments as the callee takes; otherwise it is an
/// error, reported with the callee's name on the line of the call.
pub fn check_arity(name: String, arity: usize, args: usize, paren: &Token) -> (r: Result<(), LoxError>)
    ensures
        arity == args <==> r is Ok,
        r matches Err(e) ==> e@ == LoxErrorV::RuntimeError(name@, paren.line_no, "No. of args don't match"@),
{
    if args != arity {
        return Err(LoxError::RuntimeError(name, paren.line_no, message("No. of args don't match")));
    }
    Ok(())
}

} // verus!
