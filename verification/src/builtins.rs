//! The names that every program starts with: the built-in types and the
//! schemes of the built-in values.

use vstd::prelude::*;

use crate::static_check::environment::TypeVarModel;
use crate::static_check::environment::type_var_model;
use crate::static_check::kind::Kind;
use crate::static_check::types::Monotype;
use crate::static_check::types::MonotypeModel;
use crate::static_check::types::Type;
use crate::static_check::types::TypeModel;
use crate::static_check::variable::TypeVariable;
use crate::static_check::variable::ValueVariable;
use crate::util::string_from;

verus! {

// --- types ---

pub open spec fn type_var_a() -> MonotypeModel {
    MonotypeModel::Variable("a"@)
}

pub open spec fn type_var_b() -> MonotypeModel {
    MonotypeModel::Variable("b"@)
}

pub open spec fn io_of(m: MonotypeModel) -> MonotypeModel {
    MonotypeModel::IO(Box::new(m))
}

pub open spec fn fn_of(p: MonotypeModel, r: MonotypeModel) -> MonotypeModel {
    MonotypeModel::Function(Box::new(p), Box::new(r))
}

pub open spec fn unit() -> MonotypeModel {
    MonotypeModel::Product(Seq::empty())
}

/// The built-in types by name: `Int32`, `String`, `Unit` and `IO`, all of
/// the kind of types.
pub open spec fn builtin_type_entries() -> Seq<(Seq<char>, TypeVarModel)> {
    seq![
        ("Int32"@, TypeVarModel { ty: Some(MonotypeModel::Int32), kind: Kind::Type }),
        ("String"@, TypeVarModel { ty: Some(MonotypeModel::Str), kind: Kind::Type }),
        ("Unit"@, TypeVarModel { ty: Some(unit()), kind: Kind::Type }),
        ("IO"@, TypeVarModel { ty: Some(MonotypeModel::TypeConstructor("a"@, Box::new(io_of(type_var_a())))), kind: Kind::Type }),
    ]
}

pub open spec fn type_var_entry(v: TypeVariable) -> (Seq<char>, TypeVarModel) {
    (v.name@, type_var_model(v))
}

/// The built-in types.
pub fn get_static_check_types() -> (types: Vec<TypeVariable>)
    ensures
        types@.map_values(|v: TypeVariable| type_var_entry(v)) == builtin_type_entries(),
{
    let mut types: Vec<TypeVariable> = Vec::new();
    types.push(TypeVariable { name: string_from("Int32"), ty: Some(Monotype::Int32), kind: Kind::Type });
    types.push(TypeVariable { name: string_from("String"), ty: Some(Monotype::String), kind: Kind::Type });
    types.push(TypeVariable { name: string_from("Unit"), ty: Some(unit_type()), kind: Kind::Type });
    let io_constructor = Monotype::TypeConstructor(string_from("a"), Box::new(io(var_a())));
    types.push(TypeVariable { name: string_from("IO"), ty: Some(io_constructor), kind: Kind::Type });
    proof {
        assert(types@.map_values(|v: TypeVariable| type_var_entry(v)) =~= builtin_type_entries());
    }
    types
}

// --- values ---

pub open spec fn mono_of(m: MonotypeModel) -> TypeModel {
    TypeModel { vars: Seq::empty(), monotype: m }
}

/// The built-in values by name with their schemes.
pub open spec fn builtin_variable_entries() -> Seq<(Seq<char>, TypeModel)> {
    let int_op = fn_of(MonotypeModel::Int32, fn_of(MonotypeModel::Int32, MonotypeModel::Int32));
    let a = type_var_a();
    let b = type_var_b();
    let ab = seq!["a"@, "b"@];
    seq![
        ("addInt32"@, mono_of(int_op)),
        ("subtractInt32"@, mono_of(int_op)),
        ("toString"@, mono_of(fn_of(MonotypeModel::Int32, MonotypeModel::Str))),
        ("concatString"@, mono_of(fn_of(MonotypeModel::Str, fn_of(MonotypeModel::Str, MonotypeModel::Str)))),
        ("return"@, TypeModel { vars: seq!["a"@], monotype: fn_of(a, io_of(a)) }),
        ("join"@, TypeModel { vars: seq!["a"@], monotype: fn_of(io_of(io_of(a)), io_of(a)) }),
        ("fmap"@, TypeModel { vars: ab, monotype: fn_of(fn_of(a, b), fn_of(io_of(a), io_of(b))) }),
        ("bind"@, TypeModel { vars: ab, monotype: fn_of(io_of(a), fn_of(fn_of(a, io_of(b)), io_of(b))) }),
        ("then"@, TypeModel { vars: ab, monotype: fn_of(io_of(a), fn_of(io_of(b), io_of(b))) }),
        ("print"@, mono_of(fn_of(MonotypeModel::Str, io_of(unit())))),
        ("printLine"@, mono_of(fn_of(MonotypeModel::Str, io_of(unit())))),
        ("readLine"@, mono_of(io_of(MonotypeModel::Str))),
    ]
}

pub open spec fn value_var_entry(v: ValueVariable) -> (Seq<char>, TypeModel) {
    (v.name@, v.scheme@)
}

fn var_a() -> (m: Monotype)
    ensures
        m@ == type_var_a(),
{
    Monotype::Variable(string_from("a"))
}

fn var_b() -> (m: Monotype)
    ensures
        m@ == type_var_b(),
{
    Monotype::Variable(string_from("b"))
}

fn io(m: Monotype) -> (r: Monotype)
    ensures
        r@ == io_of(m@),
{
    Monotype::IO(Box::new(m))
}

fn unit_type() -> (r: Monotype)
    ensures
        r@ == unit(),
{
    let parts: Vec<Monotype> = Vec::new();
    assert(crate::static_check::types::monotype_views(parts@) =~= Seq::<MonotypeModel>::empty());
    Monotype::Product(parts)
}

fn names_a() -> (v: Vec<String>)
    ensures
        crate::util::string_views(v@) == seq!["a"@],
{
    let mut v: Vec<String> = Vec::new();
    v.push(string_from("a"));
    assert(crate::util::string_views(v@) =~= seq!["a"@]);
    v
}

fn names_ab() -> (v: Vec<String>)
    ensures
        crate::util::string_views(v@) == seq!["a"@, "b"@],
{
    let mut v: Vec<String> = Vec::new();
    v.push(string_from("a"));
    v.push(string_from("b"));
    assert(crate::util::string_views(v@) =~= seq!["a"@, "b"@]);
    v
}

fn builtin(name: &str, scheme: Type) -> (v: ValueVariable)
    ensures
        value_var_entry(v) == (name@, scheme@),
        v.declared,
{
    ValueVariable::new(name, scheme, true)
}

/// The built-in values with their schemes, all declared.
pub fn get_static_check_variables() -> (vars: Vec<ValueVariable>)
    ensures
        vars@.map_values(|v: ValueVariable| value_var_entry(v)) == builtin_variable_entries(),
        forall|i: int| 0 <= i < vars@.len() ==> #[trigger] vars@[i].declared,
{
    let mut vars: Vec<ValueVariable> = Vec::new();
    let int_op = Monotype::function(Monotype::Int32, Monotype::function(Monotype::Int32, Monotype::Int32));
    let int_op_2 = Monotype::function(Monotype::Int32, Monotype::function(Monotype::Int32, Monotype::Int32));
    vars.push(builtin("addInt32", Type::mono(int_op)));
    vars.push(builtin("subtractInt32", Type::mono(int_op_2)));
    vars.push(builtin("toString", Type::mono(Monotype::function(Monotype::Int32, Monotype::String))));
    vars.push(
        builtin(
            "concatString",
            Type::mono(Monotype::function(Monotype::String, Monotype::function(Monotype::String, Monotype::String))),
        ),
    );
    vars.push(builtin("return", Type::poly(names_a(), Monotype::function(var_a(), io(var_a())))));
    vars.push(builtin("join", Type::poly(names_a(), Monotype::function(io(io(var_a())), io(var_a())))));
    vars.push(
        builtin(
            "fmap",
            Type::poly(
                names_ab(),
                Monotype::function(Monotype::function(var_a(), var_b()), Monotype::function(io(var_a()), io(var_b()))),
            ),
        ),
    );
    vars.push(
        builtin(
            "bind",
            Type::poly(
                names_ab(),
                Monotype::function(io(var_a()), Monotype::function(Monotype::function(var_a(), io(var_b())), io(var_b()))),
            ),
        ),
    );
    vars.push(
        builtin(
            "then",
            Type::poly(names_ab(), Monotype::function(io(var_a()), Monotype::function(io(var_b()), io(var_b())))),
        ),
    );
    vars.push(builtin("print", Type::mono(Monotype::function(Monotype::String, io(unit_type())))));
    vars.push(builtin("printLine", Type::mono(Monotype::function(Monotype::String, io(unit_type())))));
    vars.push(builtin("readLine", Type::mono(io(Monotype::String))));
    assert(vars@.map_values(|v: ValueVariable| value_var_entry(v)) =~= builtin_variable_entries());
    vars
}

} // verus!
