//! The environment of the static checks: nested scopes of value variables
//! with their schemes and of type names with their kinds.

use vstd::prelude::*;

use crate::error::ErrorKind;
use crate::error::ErrorModel;
use crate::error::FogError;
use crate::error::FogResult;
use crate::error::Span;
use crate::static_check::kind::Kind;
use crate::static_check::kind::spec_kind_text;
use crate::static_check::static_check::can_unify;
use crate::static_check::static_check::spec_unify;
use crate::static_check::static_check::static_error;
use crate::static_check::type_text::type_text;
use crate::static_check::types::Monotype;
use crate::static_check::types::MonotypeModel;
use crate::static_check::types::Type;
use crate::static_check::types::TypeModel;
use crate::static_check::types::kind_of;
use crate::static_check::types::spec_kind_of;
use crate::static_check::types::str_eq;
use crate::static_check::variable::TypeVariable;
use crate::static_check::variable::ValueVariable;
use crate::static_check::variable::unassigned_type_message;
use crate::util::string_from;

verus! {

// --- values ---

/// A value variable's scheme, and whether it was declared (not only
/// annotated).
pub struct VarModel {
    pub scheme: TypeModel,
    pub declared: bool,
}

/// A type name's monotype, once declared, and its kind.
pub struct TypeVarModel {
    pub ty: Option<MonotypeModel>,
    pub kind: Kind,
}

/// One scope: its value variables and its type names.
pub struct ScopeModel {
    pub vars: Map<Seq<char>, VarModel>,
    pub types: Map<Seq<char>, TypeVarModel>,
}

/// The scopes, the innermost last.
pub type EnvModel = Seq<ScopeModel>;

pub open spec fn var_model(v: ValueVariable) -> VarModel {
    VarModel { scheme: v.scheme@, declared: v.declared }
}

pub open spec fn type_var_model(v: TypeVariable) -> TypeVarModel {
    TypeVarModel {
        ty: match v.ty {
            Some(t) => Some(t@),
            None => None,
        },
        kind: v.kind,
    }
}

/// The variables of a scope by name, a later one of a name winning.
pub open spec fn vars_map(s: Seq<ValueVariable>) -> Map<Seq<char>, VarModel>
    decreases s.len(),
{
    if s.len() == 0 {
        Map::empty()
    } else {
        vars_map(s.drop_last()).insert(s.last().name@, var_model(s.last()))
    }
}

pub open spec fn types_map(s: Seq<TypeVariable>) -> Map<Seq<char>, TypeVarModel>
    decreases s.len(),
{
    if s.len() == 0 {
        Map::empty()
    } else {
        types_map(s.drop_last()).insert(s.last().name@, type_var_model(s.last()))
    }
}

pub open spec fn empty_scope() -> ScopeModel {
    ScopeModel { vars: Map::empty(), types: Map::empty() }
}

/// The innermost binding of a value variable.
pub open spec fn lookup_var(env: EnvModel, name: Seq<char>) -> Option<VarModel>
    decreases env.len(),
{
    if env.len() == 0 {
        None
    } else if env.last().vars.contains_key(name) {
        Some(env.last().vars[name])
    } else {
        lookup_var(env.drop_last(), name)
    }
}

/// The innermost binding of a type name.
pub open spec fn lookup_type(env: EnvModel, name: Seq<char>) -> Option<TypeVarModel>
    decreases env.len(),
{
    if env.len() == 0 {
        None
    } else if env.last().types.contains_key(name) {
        Some(env.last().types[name])
    } else {
        lookup_type(env.drop_last(), name)
    }
}

pub open spec fn with_top(env: EnvModel, scope: ScopeModel) -> EnvModel {
    env.update(env.len() - 1, scope)
}

pub open spec fn with_var(env: EnvModel, name: Seq<char>, v: VarModel) -> EnvModel {
    with_top(env, ScopeModel { vars: env.last().vars.insert(name, v), types: env.last().types })
}

pub open spec fn with_type_var(env: EnvModel, name: Seq<char>, v: TypeVarModel) -> EnvModel {
    with_top(env, ScopeModel { vars: env.last().vars, types: env.last().types.insert(name, v) })
}

pub open spec fn var_not_found(name: Seq<char>, span: Span) -> ErrorModel {
    static_error("variable `"@ + name + "` not found in the current scope"@, Some(span))
}

pub open spec fn type_not_found(name: Seq<char>, span: Span) -> ErrorModel {
    static_error("type `"@ + name + "` not found in the current scope"@, Some(span))
}

/// Annotating a variable's type: once per scope.
pub open spec fn spec_annotate_type(env: EnvModel, name: Seq<char>, t: TypeModel, span: Span) -> Result<
    EnvModel,
    ErrorModel,
> {
    if env.last().vars.contains_key(name) {
        Err(static_error("variable `"@ + name + "` already annotated its type in the current scope"@, Some(span)))
    } else {
        Ok(with_var(env, name, VarModel { scheme: t, declared: false }))
    }
}

/// Annotating a type name's kind: once per scope.
pub open spec fn spec_annotate_kind(env: EnvModel, name: Seq<char>, k: Kind, span: Span) -> Result<
    EnvModel,
    ErrorModel,
> {
    if env.last().types.contains_key(name) {
        Err(static_error("type `"@ + name + "` already annotated its kind in the scope"@, Some(span)))
    } else {
        Ok(with_type_var(env, name, TypeVarModel { ty: None, kind: k }))
    }
}

/// Declaring a variable: `_` binds nothing; a variable annotated in the
/// scope is declared once, with a type that unifies with its annotation,
/// and keeps the annotated scheme; any other is bound to `t`.
pub open spec fn spec_declare_var(env: EnvModel, name: Seq<char>, t: TypeModel, span: Span) -> Result<
    EnvModel,
    ErrorModel,
> {
    if name == "_"@ {
        Ok(env)
    } else if env.last().vars.contains_key(name) {
        let v = env.last().vars[name];
        if v.declared {
            Err(static_error("variable `"@ + name + "` already declared in the current scope"@, Some(span)))
        } else if !(spec_unify(t.monotype, v.scheme.monotype, Map::empty(), span) is Ok) {
            Err(
                static_error(
                    "type mismatch when declaring variable `"@ + name + "`\nexpected `"@ + type_text(v.scheme)
                        + "`, found `"@ + type_text(t) + "`"@,
                    Some(span),
                ),
            )
        } else {
            Ok(with_var(env, name, VarModel { scheme: v.scheme, declared: true }))
        }
    } else {
        Ok(with_var(env, name, VarModel { scheme: t, declared: true }))
    }
}

/// Declaring a type name: once, with a monotype of the annotated kind.
pub open spec fn spec_declare_type(env: EnvModel, name: Seq<char>, t: MonotypeModel, span: Span) -> Result<
    EnvModel,
    ErrorModel,
> {
    match lookup_type(env, name) {
        None => Err(type_not_found(name, span)),
        Some(v) => if v.ty is Some {
            Err(static_error("type `"@ + name + "` already declared"@, Some(span)))
        } else if spec_kind_of(t) != v.kind {
            Err(
                static_error(
                    "kind mismatch when declaring type `"@ + name + "`\nexpected `"@ + spec_kind_text(v.kind)
                        + "`, found `"@ + spec_kind_text(spec_kind_of(t)) + "`"@,
                    Some(span),
                ),
            )
        } else {
            Ok(with_type_var(env, name, TypeVarModel { ty: Some(t), kind: v.kind }))
        }
    }
}

// --- laws of the environment ---

/// Binding a value variable in the innermost scope: the name now gives that
/// binding, and every other name what it gave before.
pub proof fn lemma_lookup_with_var(env: EnvModel, name: Seq<char>, v: VarModel, x: Seq<char>)
    requires
        env.len() >= 1,
    ensures
        lookup_var(with_var(env, name, v), x) == if x == name {
            Some(v)
        } else {
            lookup_var(env, x)
        },
{
    let env2 = with_var(env, name, v);
    assert(env2.drop_last() =~= env.drop_last());
}

/// Binding a type name in the innermost scope: the name now gives that
/// binding, and every other name what it gave before.
pub proof fn lemma_lookup_with_type_var(env: EnvModel, name: Seq<char>, v: TypeVarModel, x: Seq<char>)
    requires
        env.len() >= 1,
    ensures
        lookup_type(with_type_var(env, name, v), x) == if x == name {
            Some(v)
        } else {
            lookup_type(env, x)
        },
{
    let env2 = with_type_var(env, name, v);
    assert(env2.drop_last() =~= env.drop_last());
}

/// An inner scope, while empty, sees what its outer scopes bind.
pub proof fn law_empty_scope_sees_outer(env: EnvModel, x: Seq<char>)
    ensures
        lookup_var(env.push(empty_scope()), x) == lookup_var(env, x),
        lookup_type(env.push(empty_scope()), x) == lookup_type(env, x),
{
    assert(env.push(empty_scope()).drop_last() =~= env);
}

/// A variable declared (other than `_`) is then found, declared, with its
/// annotated scheme where the scope annotated it and the declared one
/// otherwise; every other name is found as before.
pub proof fn law_declare_then_lookup(env: EnvModel, name: Seq<char>, t: TypeModel, span: Span, x: Seq<char>)
    requires
        env.len() >= 1,
        name != "_"@,
        spec_declare_var(env, name, t, span) is Ok,
    ensures
        lookup_var(spec_declare_var(env, name, t, span)->Ok_0, name) == Some(
            VarModel {
                scheme: if env.last().vars.contains_key(name) {
                    env.last().vars[name].scheme
                } else {
                    t
                },
                declared: true,
            },
        ),
        x != name ==> lookup_var(spec_declare_var(env, name, t, span)->Ok_0, x) == lookup_var(env, x),
{
    let scheme = if env.last().vars.contains_key(name) {
        env.last().vars[name].scheme
    } else {
        t
    };
    lemma_lookup_with_var(env, name, VarModel { scheme, declared: true }, name);
    lemma_lookup_with_var(env, name, VarModel { scheme, declared: true }, x);
}

/// A variable whose type was annotated is then found with that type, not
/// yet declared; every other name is found as before.
pub proof fn law_annotate_then_lookup(env: EnvModel, name: Seq<char>, t: TypeModel, span: Span, x: Seq<char>)
    requires
        env.len() >= 1,
        spec_annotate_type(env, name, t, span) is Ok,
    ensures
        lookup_var(spec_annotate_type(env, name, t, span)->Ok_0, name) == Some(
            VarModel { scheme: t, declared: false },
        ),
        x != name ==> lookup_var(spec_annotate_type(env, name, t, span)->Ok_0, x) == lookup_var(env, x),
{
    lemma_lookup_with_var(env, name, VarModel { scheme: t, declared: false }, name);
    lemma_lookup_with_var(env, name, VarModel { scheme: t, declared: false }, x);
}

/// A declared type name then stands for its monotype, with the kind it was
/// annotated with; every other type name is found as before.
pub proof fn law_declare_type_then_lookup(env: EnvModel, name: Seq<char>, t: MonotypeModel, span: Span, x: Seq<char>)
    requires
        env.len() >= 1,
        spec_declare_type(env, name, t, span) is Ok,
    ensures
        lookup_type(spec_declare_type(env, name, t, span)->Ok_0, name) == Some(
            TypeVarModel { ty: Some(t), kind: spec_kind_of(t) },
        ),
        x != name ==> lookup_type(spec_declare_type(env, name, t, span)->Ok_0, x) == lookup_type(env, x),
{
    let v = lookup_type(env, name)->Some_0;
    lemma_lookup_with_type_var(env, name, TypeVarModel { ty: Some(t), kind: v.kind }, name);
    lemma_lookup_with_type_var(env, name, TypeVarModel { ty: Some(t), kind: v.kind }, x);
}

// --- scopes ---

pub struct Scope {
    variables: Vec<ValueVariable>,
    types: Vec<TypeVariable>,
}

impl View for Scope {
    type V = ScopeModel;

    closed spec fn view(&self) -> ScopeModel {
        ScopeModel { vars: vars_map(self.variables@), types: types_map(self.types@) }
    }
}

impl Scope {
    fn new() -> (s: Scope)
        ensures
            s@ == empty_scope(),
    {
        let s = Scope { variables: Vec::new(), types: Vec::new() };
        assert(s@.vars =~= Map::<Seq<char>, VarModel>::empty());
        assert(s@.types =~= Map::<Seq<char>, TypeVarModel>::empty());
        s
    }

    /// The variable of the scope named `name`.
    fn find_var(&self, name: &str) -> (r: Option<&ValueVariable>)
        ensures
            match r {
                Some(v) => self@.vars.contains_key(name@) && self@.vars[name@] == var_model(*v) && v.name@
                    == name@,
                None => !self@.vars.contains_key(name@),
            },
    {
        let mut i: usize = self.variables.len();
        proof {
            assert(self.variables@.take(self.variables.len() as int) =~= self.variables@);
        }
        while i > 0
            invariant
                i <= self.variables.len(),
                vars_map(self.variables@).contains_key(name@) == vars_map(self.variables@.take(i as int)).contains_key(
                    name@,
                ),
                vars_map(self.variables@).contains_key(name@) ==> vars_map(self.variables@)[name@] == vars_map(
                    self.variables@.take(i as int),
                )[name@],
            decreases i,
        {
            proof {
                assert(self.variables@.take(i as int).drop_last() =~= self.variables@.take(i - 1));
            }
            if str_eq(self.variables[i - 1].name.as_str(), name) {
                return Some(&self.variables[i - 1]);
            }
            i -= 1;
        }
        None
    }

    /// The type name of the scope named `name`.
    fn find_type(&self, name: &str) -> (r: Option<&TypeVariable>)
        ensures
            match r {
                Some(v) => self@.types.contains_key(name@) && self@.types[name@] == type_var_model(*v) && v.name@
                    == name@,
                None => !self@.types.contains_key(name@),
            },
    {
        let mut i: usize = self.types.len();
        proof {
            assert(self.types@.take(self.types.len() as int) =~= self.types@);
        }
        while i > 0
            invariant
                i <= self.types.len(),
                types_map(self.types@).contains_key(name@) == types_map(self.types@.take(i as int)).contains_key(
                    name@,
                ),
                types_map(self.types@).contains_key(name@) ==> types_map(self.types@)[name@] == types_map(
                    self.types@.take(i as int),
                )[name@],
            decreases i,
        {
            proof {
                assert(self.types@.take(i as int).drop_last() =~= self.types@.take(i - 1));
            }
            if str_eq(self.types[i - 1].name.as_str(), name) {
                return Some(&self.types[i - 1]);
            }
            i -= 1;
        }
        None
    }

    fn add_var(&mut self, v: ValueVariable)
        ensures
            final(self)@ == (ScopeModel {
                vars: old(self)@.vars.insert(v.name@, var_model(v)),
                types: old(self)@.types,
            }),
    {
        let ghost name = v.name@;
        let ghost model = var_model(v);
        self.variables.push(v);
        proof {
            assert(self.variables@.drop_last() =~= old(self).variables@);
        }
    }

    fn add_type(&mut self, v: TypeVariable)
        ensures
            final(self)@ == (ScopeModel {
                vars: old(self)@.vars,
                types: old(self)@.types.insert(v.name@, type_var_model(v)),
            }),
    {
        self.types.push(v);
        proof {
            assert(self.types@.drop_last() =~= old(self).types@);
        }
    }
}

// --- the environment ---

/// The scopes of the static checks, the innermost last; there is always
/// one.
pub struct Environment {
    scopes: Vec<Scope>,
}

impl View for Environment {
    type V = EnvModel;

    closed spec fn view(&self) -> EnvModel {
        self.scopes@.map_values(|s: Scope| s@)
    }
}

impl Environment {
    /// An environment of one empty scope.
    pub fn new() -> (env: Environment)
        ensures
            env@ == seq![empty_scope()],
    {
        let mut scopes: Vec<Scope> = Vec::new();
        scopes.push(Scope::new());
        let env = Environment { scopes };
        assert(env@ =~= seq![empty_scope()]);
        env
    }

    /// Opens an inner scope.
    pub fn push_scope(&mut self)
        ensures
            final(self)@ == old(self)@.push(empty_scope()),
    {
        self.scopes.push(Scope::new());
        assert(self@ =~= old(self)@.push(empty_scope()));
    }

    /// Closes the innermost scope.
    pub fn pop_scope(&mut self)
        requires
            old(self)@.len() >= 2,
        ensures
            final(self)@ == old(self)@.drop_last(),
    {
        let _ = self.scopes.pop();
        assert(self@ =~= old(self)@.drop_last());
    }

    fn set_top(&mut self, scope: Scope)
        requires
            old(self)@.len() >= 1,
        ensures
            final(self)@ == with_top(old(self)@, scope@),
    {
        let _ = self.scopes.pop();
        self.scopes.push(scope);
        assert(self@ =~= with_top(old(self)@, scope@));
    }

    fn take_top(&mut self) -> (scope: Scope)
        requires
            old(self)@.len() >= 1,
        ensures
            scope@ == old(self)@.last(),
            final(self)@ == old(self)@.drop_last(),
            final(self)@.len() + 1 == old(self)@.len(),
    {
        let scope = self.scopes.pop().unwrap();
        assert(self@ =~= old(self)@.drop_last());
        scope
    }

    // --- getters ---

    /// The innermost value variable named `name`.
    pub fn get_value_var(&self, name: &str, span: Span) -> (r: FogResult<ValueVariable>)
        ensures
            match lookup_var(self@, name@) {
                Some(v) => r matches Ok(x) && var_model(x) == v && x.name@ == name@,
                None => r matches Err(e) && e@ == var_not_found(name@, span),
            },
    {
        let mut i: usize = self.scopes.len();
        proof {
            assert(self@.take(self@.len() as int) =~= self@);
        }
        while i > 0
            invariant
                i <= self.scopes.len(),
                self@.len() == self.scopes.len(),
                lookup_var(self@, name@) == lookup_var(self@.take(i as int), name@),
            decreases i,
        {
            proof {
                assert(self@.take(i as int).drop_last() =~= self@.take(i - 1));
                assert(self@.take(i as int).last() == self.scopes@[i - 1]@);
            }
            match self.scopes[i - 1].find_var(name) {
                Some(v) => return Ok(v.copy()),
                None => {},
            }
            i -= 1;
        }
        let mut message = string_from("variable `");
        message.append(name);
        message.append("` not found in the current scope");
        Err(FogError::new(ErrorKind::StaticCheck, message, Some(span)))
    }

    /// The innermost type name `name`.
    pub fn get_type_var(&self, name: &str, span: Span) -> (r: FogResult<TypeVariable>)
        ensures
            match lookup_type(self@, name@) {
                Some(v) => r matches Ok(x) && type_var_model(x) == v && x.name@ == name@,
                None => r matches Err(e) && e@ == type_not_found(name@, span),
            },
    {
        let mut i: usize = self.scopes.len();
        proof {
            assert(self@.take(self@.len() as int) =~= self@);
        }
        while i > 0
            invariant
                i <= self.scopes.len(),
                self@.len() == self.scopes.len(),
                lookup_type(self@, name@) == lookup_type(self@.take(i as int), name@),
            decreases i,
        {
            proof {
                assert(self@.take(i as int).drop_last() =~= self@.take(i - 1));
                assert(self@.take(i as int).last() == self.scopes@[i - 1]@);
            }
            match self.scopes[i - 1].find_type(name) {
                Some(v) => {
                    let x = v.copy();
                    proof {
                        assert(type_var_model(x) == type_var_model(*v));
                    }
                    return Ok(x);
                },
                None => {},
            }
            i -= 1;
        }
        let mut message = string_from("type `");
        message.append(name);
        message.append("` not found in the current scope");
        Err(FogError::new(ErrorKind::StaticCheck, message, Some(span)))
    }

    /// The monotype that the type name `name` stands for.
    pub fn get_type(&self, name: &str, span: Span) -> (r: FogResult<Monotype>)
        ensures
            match lookup_type(self@, name@) {
                Some(v) => match v.ty {
                    Some(t) => r matches Ok(x) && x@ == t,
                    None => r matches Err(e) && e@ == static_error(unassigned_type_message(name@), None),
                },
                None => r matches Err(e) && e@ == type_not_found(name@, span),
            },
    {
        match self.get_type_var(name, span) {
            Ok(var) => var.get_type(),
            Err(e) => Err(e),
        }
    }

    /// Whether a type name `name` is bound in any scope.
    pub fn contains_type(&self, name: &str) -> (r: bool)
        ensures
            r == lookup_type(self@, name@) is Some,
    {
        let mut i: usize = self.scopes.len();
        proof {
            assert(self@.take(self@.len() as int) =~= self@);
        }
        while i > 0
            invariant
                i <= self.scopes.len(),
                self@.len() == self.scopes.len(),
                lookup_type(self@, name@) == lookup_type(self@.take(i as int), name@),
            decreases i,
        {
            proof {
                assert(self@.take(i as int).drop_last() =~= self@.take(i - 1));
                assert(self@.take(i as int).last() == self.scopes@[i - 1]@);
            }
            if self.scopes[i - 1].find_type(name).is_some() {
                return true;
            }
            i -= 1;
        }
        false
    }

    /// Whether the innermost scope binds the type name `name`.
    pub fn top_contains_type(&self, name: &str) -> (r: bool)
        requires
            self@.len() >= 1,
        ensures
            r == self@.last().types.contains_key(name@),
    {
        self.scopes[self.scopes.len() - 1].find_type(name).is_some()
    }

    // --- setters ---

    /// Binds a value variable in the innermost scope, in place of any of the
    /// same name there.
    pub fn insert_value_var(&mut self, var: ValueVariable)
        requires
            old(self)@.len() >= 1,
        ensures
            final(self)@.len() == old(self)@.len(),
            final(self)@.drop_last() == old(self)@.drop_last(),
            final(self)@ == with_var(old(self)@, var.name@, var_model(var)),
    {
        let ghost name = var.name@;
        let ghost model = var_model(var);
        let mut top = self.take_top();
        let ghost mid = self@;
        let ghost mid_scopes = self.scopes@;
        top.add_var(var);
        self.scopes.push(top);
        proof {
            assert(self.scopes@ =~= mid_scopes.push(top));
            assert(self@ =~= mid.push(top@));
            assert(self@ =~= with_var(old(self)@, name, model));
        }
    }

    /// Binds a type name in the innermost scope, in place of any of the same
    /// name there.
    pub fn insert_type_var(&mut self, var: TypeVariable)
        requires
            old(self)@.len() >= 1,
        ensures
            final(self)@.len() == old(self)@.len(),
            final(self)@.drop_last() == old(self)@.drop_last(),
            final(self)@ == with_type_var(old(self)@, var.name@, type_var_model(var)),
    {
        let ghost name = var.name@;
        let ghost model = type_var_model(var);
        let mut top = self.take_top();
        let ghost mid = self@;
        let ghost mid_scopes = self.scopes@;
        top.add_type(var);
        self.scopes.push(top);
        proof {
            assert(self.scopes@ =~= mid_scopes.push(top));
            assert(self@ =~= mid.push(top@));
            assert(self@ =~= with_type_var(old(self)@, name, model));
        }
    }

    /// Annotates the type of a variable of the innermost scope.
    pub fn annotate_type(&mut self, name: &str, ty: Type, span: Span) -> (r: FogResult<()>)
        requires
            old(self)@.len() >= 1,
        ensures
            final(self)@.len() == old(self)@.len(),
            final(self)@.drop_last() == old(self)@.drop_last(),
            match spec_annotate_type(old(self)@, name@, ty@, span) {
                Ok(env) => r is Ok && final(self)@ == env,
                Err(e) => r matches Err(x) && x@ == e && final(self)@ == old(self)@,
            },
    {
        if self.scopes[self.scopes.len() - 1].find_var(name).is_some() {
            let mut message = string_from("variable `");
            message.append(name);
            message.append("` already annotated its type in the current scope");
            return Err(FogError::new(ErrorKind::StaticCheck, message, Some(span)));
        }
        self.insert_value_var(ValueVariable::new(name, ty, false));
        Ok(())
    }

    /// Annotates the kind of a type name of the innermost scope.
    pub fn annotate_kind(&mut self, name: &str, kind: Kind, span: Span) -> (r: FogResult<()>)
        requires
            old(self)@.len() >= 1,
        ensures
            final(self)@.len() == old(self)@.len(),
            final(self)@.drop_last() == old(self)@.drop_last(),
            match spec_annotate_kind(old(self)@, name@, kind, span) {
                Ok(env) => r is Ok && final(self)@ == env,
                Err(e) => r matches Err(x) && x@ == e && final(self)@ == old(self)@,
            },
    {
        if self.scopes[self.scopes.len() - 1].find_type(name).is_some() {
            let mut message = string_from("type `");
            message.append(name);
            message.append("` already annotated its kind in the scope");
            return Err(FogError::new(ErrorKind::StaticCheck, message, Some(span)));
        }
        let var = TypeVariable { name: string_from(name), ty: None, kind };
        self.insert_type_var(var);
        Ok(())
    }

    /// Declares a variable of the innermost scope.
    pub fn declare_var(&mut self, name: &str, ty: Type, span: Span) -> (r: FogResult<()>)
        requires
            old(self)@.len() >= 1,
        ensures
            final(self)@.len() == old(self)@.len(),
            final(self)@.drop_last() == old(self)@.drop_last(),
            match spec_declare_var(old(self)@, name@, ty@, span) {
                Ok(env) => r is Ok && final(self)@ == env,
                Err(e) => r matches Err(x) && x@ == e && final(self)@ == old(self)@,
            },
    {
        proof {
            reveal_strlit("_");
        }
        if str_eq(name, "_") {
            return Ok(());
        }
        let annotated = match self.scopes[self.scopes.len() - 1].find_var(name) {
            Some(var) => Some(var.copy()),
            None => None,
        };
        match annotated {
            Some(var) => {
                if var.declared {
                    let mut message = string_from("variable `");
                    message.append(name);
                    message.append("` already declared in the current scope");
                    return Err(FogError::new(ErrorKind::StaticCheck, message, Some(span)));
                }
                if !can_unify(&ty.monotype, &var.scheme.monotype, span) {
                    let mut message = string_from("type mismatch when declaring variable `");
                    message.append(name);
                    message.append("`\nexpected `");
                    let expected = var.scheme.to_text();
                    message.append(expected.as_str());
                    message.append("`, found `");
                    let found = ty.to_text();
                    message.append(found.as_str());
                    message.append("`");
                    return Err(FogError::new(ErrorKind::StaticCheck, message, Some(span)));
                }
                let declared = ValueVariable { name: var.name, scheme: var.scheme, declared: true };
                self.insert_value_var(declared);
            },
            None => {
                self.insert_value_var(ValueVariable::new(name, ty, true));
            },
        }
        Ok(())
    }

    /// Declares the monotype that a type name stands for; the name is bound
    /// in the innermost scope where it is bound at all.
    pub fn declare_type(&mut self, name: &str, ty: Monotype, span: Span) -> (r: FogResult<()>)
        requires
            old(self)@.len() >= 1,
            lookup_type(old(self)@, name@) is None || old(self)@.last().types.contains_key(name@),
        ensures
            final(self)@.len() == old(self)@.len(),
            final(self)@.drop_last() == old(self)@.drop_last(),
            match spec_declare_type(old(self)@, name@, ty@, span) {
                Ok(env) => r is Ok && final(self)@ == env,
                Err(e) => r matches Err(x) && x@ == e && final(self)@ == old(self)@,
            },
    {
        let var = match self.get_type_var(name, span) {
            Ok(var) => var,
            Err(e) => return Err(e),
        };
        if var.ty.is_some() {
            let mut message = string_from("type `");
            message.append(name);
            message.append("` already declared");
            return Err(FogError::new(ErrorKind::StaticCheck, message, Some(span)));
        }
        let kind_of_type = kind_of(&ty);
        if !kind_of_type.same_as(&var.kind) {
            let mut message = string_from("kind mismatch when declaring type `");
            message.append(name);
            message.append("`\nexpected `");
            let expected = var.kind.to_text();
            message.append(expected.as_str());
            message.append("`, found `");
            let found = kind_of_type.to_text();
            message.append(found.as_str());
            message.append("`");
            return Err(FogError::new(ErrorKind::StaticCheck, message, Some(span)));
        }
        let declared = TypeVariable { name: string_from(name), ty: Some(ty), kind: var.kind };
        self.insert_type_var(declared);
        Ok(())
    }
}

} // verus!
