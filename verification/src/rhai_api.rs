//! The trusted boundary around the `rhai` script engine.
//!
//! Everything the host needs from the engine — compiling source text,
//! optimizing a compiled unit, running it, invoking one of its functions,
//! and manipulating a variable scope — passes through the declarations and
//! wrappers in this module. Their contracts state only what rhai's own
//! source shows.

use vstd::prelude::*;

verus! {

#[verifier::external_type_specification]
#[verifier::external_body]
pub struct ExEngine(rhai::Engine);

#[verifier::external_type_specification]
#[verifier::external_body]
pub struct ExAst(rhai::AST);

#[verifier::external_type_specification]
#[verifier::external_body]
pub struct ExScope<'a>(rhai::Scope<'a>);

#[verifier::external_type_specification]
#[verifier::external_body]
pub struct ExDynamic(rhai::Dynamic);

/// Whether a default-configured rhai engine compiles `src` successfully.
/// Parsing is a function of the source text alone; the optimization level
/// never turns success into failure or back.
pub uninterp spec fn compiles(src: Seq<char>) -> bool;

/// The literal variables of a compiled unit's top level, in order: each
/// one's name and whether it is a constant.
pub uninterp spec fn ast_literals(ast: rhai::AST) -> Seq<(Seq<char>, bool)>;

/// The names bound in a scope, oldest first, duplicates kept: a later
/// binding of a name shadows an earlier one.
pub uninterp spec fn scope_names(s: rhai::Scope<'static>) -> Seq<Seq<char>>;

/// The integer bindings a scope answers for: the names whose most recent
/// binding holds an integer, each mapped to that integer.
pub uninterp spec fn scope_ints(s: rhai::Scope<'static>) -> Map<Seq<char>, i64>;

/// A scope with no bindings at all.
pub open spec fn scope_is_empty(s: rhai::Scope<'static>) -> bool {
    scope_names(s) == Seq::<Seq<char>>::empty() && scope_ints(s) == Map::<Seq<char>, i64>::empty()
}

/// What looking an integer up in a scope returns.
pub open spec fn scope_int_of(s: rhai::Scope<'static>, name: Seq<char>) -> Option<i64> {
    if scope_ints(s).dom().contains(name) {
        Some(scope_ints(s)[name])
    } else {
        None
    }
}

/// Relies on rhai::Engine::new: a fresh engine with the standard packages
/// registered and nothing else.
#[verifier::external_body]
pub(crate) fn engine_new() -> rhai::Engine {
    rhai::Engine::new()
}

/// Relies on rhai::Engine::compile: for a default-configured engine,
/// success is decided by the source text alone, and the optimization level
/// only changes the produced unit, never whether one is produced.
#[verifier::external_body]
pub(crate) fn compile_source(src: &str, optimized: bool) -> (r: Result<rhai::AST, String>)
    ensures
        r is Ok <==> compiles(src@),
{
    let mut engine = rhai::Engine::new();
    let level = if optimized {
        rhai::OptimizationLevel::Simple
    } else {
        rhai::OptimizationLevel::None
    };
    engine.set_optimization_level(level);
    engine.compile(src).map_err(|e| e.to_string())
}

/// Relies on rhai::Engine::optimize_ast: re-optimizes a compiled unit
/// against the constants already pushed into `scope`, returning the
/// optimized copy.
#[verifier::external_body]
pub(crate) fn optimize_unit(scope: &rhai::Scope<'static>, ast: rhai::AST) -> rhai::AST {
    rhai::Engine::new().optimize_ast(scope, ast, rhai::OptimizationLevel::Simple)
}

/// Relies on rhai::Engine::run_ast_with_scope: runs a unit's top-level code
/// with `scope` attached; the script decides the outcome, so nothing is
/// promised of it.
#[verifier::external_body]
pub(crate) fn run_unit(
    engine: &rhai::Engine,
    scope: &mut rhai::Scope<'static>,
    ast: &rhai::AST,
) -> Result<(), String> {
    engine.run_ast_with_scope(scope, ast).map_err(|e| e.to_string())
}

/// Relies on rhai::Engine::call_fn: invokes the zero-argument function
/// named `name` defined in the unit; the script decides the outcome, so
/// nothing is promised of it.
#[verifier::external_body]
pub(crate) fn call_unit_fn(
    engine: &rhai::Engine,
    scope: &mut rhai::Scope<'static>,
    ast: &rhai::AST,
    name: &str,
) -> Result<(), String> {
    engine.call_fn::<()>(scope, ast, name, ()).map_err(|e| e.to_string())
}

/// Relies on rhai::AST::iter_literal_variables: yields the top-level
/// variables with literal initializers, in statement order, constants and
/// plain variables alike.
#[verifier::external_body]
pub(crate) fn unit_literal_vars(ast: &rhai::AST) -> (r: Vec<(String, bool, rhai::Dynamic)>)
    ensures
        r@.len() == ast_literals(*ast).len(),
        forall|i: int|
            0 <= i < r@.len() ==> r@[i].0@ == ast_literals(*ast)[i].0 && r@[i].1 == ast_literals(
                *ast,
            )[i].1,
{
    ast.iter_literal_variables(true, true).map(|(n, c, v)| (n.to_string(), c, v)).collect()
}

/// Relies on rhai::Scope::new: a scope with no bindings at all.
#[verifier::external_body]
pub(crate) fn scope_new() -> (s: rhai::Scope<'static>)
    ensures
        scope_is_empty(s),
{
    rhai::Scope::new()
}

/// Relies on rhai::Scope::clear: removes every binding.
#[verifier::external_body]
pub(crate) fn scope_clear(s: &mut rhai::Scope<'static>)
    ensures
        scope_is_empty(*final(s)),
{
    s.clear();
}

/// Relies on rhai::Scope::push_constant: appends a constant integer
/// binding, shadowing any earlier binding of the same name.
#[verifier::external_body]
pub(crate) fn scope_push_const_int(s: &mut rhai::Scope<'static>, name: &str, value: i64)
    ensures
        scope_names(*final(s)) == scope_names(*old(s)).push(name@),
        scope_ints(*final(s)) == scope_ints(*old(s)).insert(name@, value),
{
    s.push_constant(name.to_string(), value);
}

/// Relies on rhai::Scope::push_constant_dynamic: appends a constant binding
/// whose value is an arbitrary dynamic, so nothing is promised of integer
/// lookups of that name afterwards.
#[verifier::external_body]
pub(crate) fn scope_push_const_dynamic(
    s: &mut rhai::Scope<'static>,
    name: &str,
    value: rhai::Dynamic,
)
    ensures
        scope_names(*final(s)) == scope_names(*old(s)).push(name@),
        scope_ints(*final(s)).remove(name@) == scope_ints(*old(s)).remove(name@),
{
    s.push_constant_dynamic(name.to_string(), value);
}

/// Relies on rhai::Scope::push_dynamic: appends a mutable binding whose
/// value is an arbitrary dynamic.
#[verifier::external_body]
pub(crate) fn scope_push_dynamic(s: &mut rhai::Scope<'static>, name: &str, value: rhai::Dynamic)
    ensures
        scope_names(*final(s)) == scope_names(*old(s)).push(name@),
        scope_ints(*final(s)).remove(name@) == scope_ints(*old(s)).remove(name@),
{
    s.push_dynamic(name.to_string(), value);
}

/// Relies on rhai::Scope::get_value: answers with the most recent binding
/// of `name` when it holds an integer, and with nothing otherwise.
#[verifier::external_body]
pub fn scope_get_int(s: &rhai::Scope<'static>, name: &str) -> (r: Option<i64>)
    ensures
        r == scope_int_of(*s, name@),
{
    s.get_value::<i64>(name)
}

} // verus!
