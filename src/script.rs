use vstd::prelude::*;

use rhai::{Dynamic, Engine, AST};

verus! {

#[verifier::external_type_specification]
#[verifier::external_body]
pub struct ExEngine(rhai::Engine);

#[verifier::external_type_specification]
#[verifier::external_body]
pub struct ExAst(rhai::AST);

/// Whether the standard Rhai engine compiles the source text.
pub uninterp spec fn compiles(source: Seq<char>) -> bool;

/// A Rhai engine with the standard configuration. It is never changed after
/// it is made, so what it compiles depends on the source text alone.
pub struct ScriptEngine {
    engine: Engine,
}

impl ScriptEngine {
    /// Makes the standard engine.
    pub fn new() -> (r: Self) {
        ScriptEngine { engine: standard_engine() }
    }
}

/// Relies on `Engine::new`: an engine with the standard packages.
#[verifier::external_body]
fn standard_engine() -> (r: Engine) {
    Engine::new()
}

/// Relies on `Engine::compile` of the standard engine: the compiled program,
/// or the parser's diagnostic as text; whether it succeeds depends on the
/// source alone.
#[verifier::external_body]
pub(crate) fn compile_source(engine: &ScriptEngine, source: &str) -> (r: Result<AST, String>)
    ensures
        r is Ok <==> compiles(source@),
{
    engine.engine.compile(source).map_err(|e| e.to_string())
}

/// Relies on `Engine::eval_ast_with_scope`, run in a fresh scope whose only
/// binding is `input` under `name`: the script's result, or the engine's
/// runtime error as text.
#[verifier::external_body]
pub(crate) fn eval_bound(engine: &ScriptEngine, program: &AST, name: &str, input: Dynamic) -> (r:
    Result<Dynamic, String>) {
    let mut scope = rhai::Scope::new();
    scope.push(name.to_string(), input);
    engine.engine.eval_ast_with_scope::<Dynamic>(&mut scope, program).map_err(|e| e.to_string())
}

} // verus!
