use vstd::prelude::*;

use rhai::{Dynamic, AST};

use crate::convert::{
    convertible, failure_of, failure_view, from_dynamic, represents, to_dynamic, ConversionError,
};
use crate::script::{compile_source, compiles, eval_bound, ScriptEngine};
use crate::value::{wf, Value};

verus! {

/// The name under which a script sees its input, and the name of the node's
/// one input port and one output port.
pub const PORT_VALUE: &'static str = "value";

/// The configuration key that holds the script's source text.
pub const CONFIG_SCRIPT: &'static str = "script";

/// What can go wrong while compiling or running a script.
#[derive(Debug, PartialEq)]
pub enum ScriptError {
    /// The source text did not compile; the engine's diagnostic.
    CompileError(String),
    /// The script failed while running; the engine's message.
    RuntimeError(String),
    /// The script's result has no tagged counterpart.
    Conversion(ConversionError),
}

/// One script node: the compiled program of its configured script, or none
/// when the script is empty (no output is then produced).
pub struct RhaiScriptAgent {
    program: Option<AST>,
}

/// The agent that a compile outcome gives: the program on success, the
/// compiler's diagnostic as a `CompileError` otherwise.
pub fn agent_from_compiled(compiled: Result<AST, String>) -> (r: Result<
    RhaiScriptAgent,
    ScriptError,
>)
    ensures
        compiled is Ok ==> r is Ok && r->Ok_0.compiled() == Some(compiled->Ok_0),
        compiled is Err ==> r == Err::<RhaiScriptAgent, ScriptError>(
            ScriptError::CompileError(compiled->Err_0),
        ),
{
    match compiled {
        Ok(ast) => Ok(RhaiScriptAgent { program: Some(ast) }),
        Err(msg) => Err(ScriptError::CompileError(msg)),
    }
}

/// What one run of the script gives: a runtime failure is reported as such;
/// a result is converted back, and a failed conversion is reported as a
/// `Conversion` error carrying the first failure met.
pub fn settle_outcome(outcome: Result<Dynamic, String>) -> (r: Result<Option<Value>, ScriptError>)
    ensures
        outcome is Err ==> r == Err::<Option<Value>, ScriptError>(
            ScriptError::RuntimeError(outcome->Err_0),
        ),
        outcome is Ok ==> (r is Ok <==> convertible(outcome->Ok_0)),
        outcome is Ok && r is Ok ==> r->Ok_0 is Some && represents(outcome->Ok_0, r->Ok_0->Some_0),
        outcome is Ok ==> (r is Ok <==> failure_of(outcome->Ok_0) is None),
        outcome is Ok && r is Err ==> r->Err_0 is Conversion && failure_of(outcome->Ok_0) == Some(
            failure_view(r->Err_0->Conversion_0),
        ),
{
    match outcome {
        Err(msg) => Err(ScriptError::RuntimeError(msg)),
        Ok(d) => match from_dynamic(&d) {
            Ok(v) => Ok(Some(v)),
            Err(e) => Err(ScriptError::Conversion(e)),
        },
    }
}

impl RhaiScriptAgent {
    /// The compiled program the agent runs, if any.
    pub closed spec fn compiled(&self) -> Option<AST> {
        self.program
    }

    /// Creates a node for the given script. An empty script gives a node
    /// with no program; another script is compiled, and a compile failure
    /// means no node is created.
    pub fn new(engine: &ScriptEngine, script: &str) -> (r: Result<Self, ScriptError>)
        ensures
            script@.len() == 0 ==> r is Ok && r->Ok_0.compiled() is None,
            script@.len() > 0 ==> (r is Ok <==> compiles(script@)),
            script@.len() > 0 && r is Ok ==> r->Ok_0.compiled() is Some,
            script@.len() > 0 && r is Err ==> r->Err_0 is CompileError,
    {
        if script.is_empty() {
            return Ok(RhaiScriptAgent { program: None });
        }
        agent_from_compiled(compile_source(engine, script))
    }

    /// Whether the node holds a program to run.
    pub fn is_ready(&self) -> (r: bool)
        ensures
            r == self.compiled() is Some,
    {
        self.program.is_some()
    }

    /// Installs the outcome of compiling a new script: on success its
    /// program replaces the current one; on failure the error is returned and
    /// the current program, if any, stays in place.
    pub fn install_compiled(&mut self, compiled: Result<AST, String>) -> (r: Result<(), ScriptError>)
        ensures
            compiled is Ok ==> r is Ok && final(self).compiled() == Some(compiled->Ok_0),
            compiled is Err ==> r == Err::<(), ScriptError>(
                ScriptError::CompileError(compiled->Err_0),
            ) && final(self).compiled() == old(self).compiled(),
    {
        match compiled {
            Ok(ast) => {
                self.program = Some(ast);
                Ok(())
            },
            Err(msg) => Err(ScriptError::CompileError(msg)),
        }
    }

    /// Reconfigures the node with a new script. An empty script clears the
    /// program; another one is compiled and, on success, replaces it. On a
    /// compile failure the error is returned and the previous program keeps
    /// running.
    pub fn set_script(&mut self, engine: &ScriptEngine, script: &str) -> (r: Result<(), ScriptError>)
        ensures
            script@.len() == 0 ==> r is Ok && final(self).compiled() is None,
            script@.len() > 0 ==> (r is Ok <==> compiles(script@)),
            script@.len() > 0 && r is Ok ==> final(self).compiled() is Some,
            script@.len() > 0 && r is Err ==> r->Err_0 is CompileError && final(self).compiled()
                == old(self).compiled(),
    {
        if script.is_empty() {
            self.program = None;
            return Ok(());
        }
        let compiled = compile_source(engine, script);
        self.install_compiled(compiled)
    }

    /// Runs the script on one input. With no program nothing is produced and
    /// nothing fails. Otherwise the input is converted, bound as `value` in a
    /// fresh scope, and the script's result converted back: the output, or
    /// the runtime or conversion error that stopped it.
    pub fn process(&self, engine: &ScriptEngine, input: &Value) -> (r: Result<Option<Value>, ScriptError>)
        requires
            wf(*input),
        ensures
            self.compiled() is None ==> r == Ok::<Option<Value>, ScriptError>(None),
            self.compiled() is Some && r is Ok ==> r->Ok_0 is Some,
            self.compiled() is Some && r is Err ==> r->Err_0 is RuntimeError
                || r->Err_0 is Conversion,
    {
        match &self.program {
            None => Ok(None),
            Some(program) => {
                let d = to_dynamic(input);
                settle_outcome(eval_bound(engine, program, PORT_VALUE, d))
            },
        }
    }
}

} // verus!
