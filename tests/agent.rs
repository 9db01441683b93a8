use askit_rhai::agent::{agent_from_compiled, settle_outcome, RhaiScriptAgent, ScriptError};
use askit_rhai::convert::ConversionError;
use askit_rhai::value::Value;
use askit_rhai::script::ScriptEngine;
use rhai::{Dynamic, Engine};

fn s(text: &str) -> String {
    text.to_string()
}

fn sample_object() -> Value {
    Value::Object(vec![
        (s("a"), Value::Integer(1)),
        (s("b"), Value::Array(vec![Value::Boolean(true), Value::String(s("x"))])),
    ])
}

#[test]
fn empty_script_on_construction_produces_nothing() {
    let engine = ScriptEngine::new();
    let agent = RhaiScriptAgent::new(&engine, "").unwrap();
    assert!(!agent.is_ready());
    assert_eq!(agent.process(&engine, &Value::Integer(1)), Ok(None));
    assert_eq!(agent.process(&engine, &sample_object()), Ok(None));
}

#[test]
fn empty_script_on_reconfiguration_disables_node() {
    let engine = ScriptEngine::new();
    let mut agent = RhaiScriptAgent::new(&engine, "value").unwrap();
    assert!(agent.is_ready());
    assert_eq!(agent.set_script(&engine, ""), Ok(()));
    assert!(!agent.is_ready());
    assert_eq!(agent.process(&engine, &Value::Integer(3)), Ok(None));
}

#[test]
fn incomplete_expression_fails_construction() {
    let engine = ScriptEngine::new();
    let r = RhaiScriptAgent::new(&engine, "1 +");
    assert!(matches!(r, Err(ScriptError::CompileError(_))));
}

#[test]
fn failed_reconfiguration_keeps_previous_program() {
    let engine = ScriptEngine::new();
    let mut agent = RhaiScriptAgent::new(&engine, "value + 1").unwrap();
    let r = agent.set_script(&engine, "1 +");
    assert!(matches!(r, Err(ScriptError::CompileError(_))));
    assert!(agent.is_ready());
    assert_eq!(agent.process(&engine, &Value::Integer(1)), Ok(Some(Value::Integer(2))));
}

#[test]
fn reconfiguration_replaces_program() {
    let engine = ScriptEngine::new();
    let mut agent = RhaiScriptAgent::new(&engine, "value + 1").unwrap();
    assert_eq!(agent.set_script(&engine, "value * 10"), Ok(()));
    assert_eq!(agent.process(&engine, &Value::Integer(4)), Ok(Some(Value::Integer(40))));
}

#[test]
fn identity_script_returns_input() {
    let engine = ScriptEngine::new();
    let agent = RhaiScriptAgent::new(&engine, "value").unwrap();
    assert_eq!(agent.process(&engine, &sample_object()), Ok(Some(sample_object())));
}

#[test]
fn increment_script_adds_one() {
    let engine = ScriptEngine::new();
    let agent = RhaiScriptAgent::new(&engine, "value + 1").unwrap();
    assert_eq!(agent.process(&engine, &Value::Integer(41)), Ok(Some(Value::Integer(42))));
}

#[test]
fn float_script_doubles_number() {
    let engine = ScriptEngine::new();
    let agent = RhaiScriptAgent::new(&engine, "value * 2.0").unwrap();
    let out = agent.process(&engine, &Value::Number(1.5f64.to_bits()));
    assert_eq!(out, Ok(Some(Value::Number(3.0f64.to_bits()))));
}

#[test]
fn field_update_script_changes_object() {
    let engine = ScriptEngine::new();
    let agent = RhaiScriptAgent::new(&engine, "value.a += 1; value").unwrap();
    let out = agent.process(&engine, &sample_object()).unwrap().unwrap();
    let expected = Value::Object(vec![
        (s("a"), Value::Integer(2)),
        (s("b"), Value::Array(vec![Value::Boolean(true), Value::String(s("x"))])),
    ]);
    assert_eq!(out, expected);
}

#[test]
fn unbound_identifier_fails_at_run_time() {
    let engine = ScriptEngine::new();
    let agent = RhaiScriptAgent::new(&engine, "undefined_name").unwrap();
    let r = agent.process(&engine, &Value::Integer(1));
    assert!(matches!(r, Err(ScriptError::RuntimeError(_))));
}

#[test]
fn runtime_failure_leaves_agent_usable() {
    let engine = ScriptEngine::new();
    let agent =
        RhaiScriptAgent::new(&engine, "if value > 0 { value } else { undefined_name }").unwrap();
    let r = agent.process(&engine, &Value::Integer(-1));
    assert!(matches!(r, Err(ScriptError::RuntimeError(_))));
    assert_eq!(agent.process(&engine, &Value::Integer(5)), Ok(Some(Value::Integer(5))));
}

#[test]
fn script_result_without_tagged_counterpart_is_conversion_error() {
    let engine = ScriptEngine::new();
    let agent = RhaiScriptAgent::new(&engine, "'c'").unwrap();
    let r = agent.process(&engine, &Value::Unit);
    assert_eq!(
        r,
        Err(ScriptError::Conversion(ConversionError::UnsupportedNativeType(s("char"))))
    );
}

#[test]
fn outputs_follow_input_order() {
    let engine = ScriptEngine::new();
    let agent = RhaiScriptAgent::new(&engine, "value").unwrap();
    let inputs = vec![Value::Integer(1), Value::String(s("two")), Value::Boolean(true)];
    let mut outputs = Vec::new();
    for input in inputs.iter() {
        if let Some(out) = agent.process(&engine, input).unwrap() {
            outputs.push(out);
        }
    }
    assert_eq!(outputs, vec![Value::Integer(1), Value::String(s("two")), Value::Boolean(true)]);
}

#[test]
fn settle_outcome_reports_runtime_error() {
    assert_eq!(settle_outcome(Err(s("boom"))), Err(ScriptError::RuntimeError(s("boom"))));
}

#[test]
fn settle_outcome_converts_result() {
    assert_eq!(settle_outcome(Ok(Dynamic::from(9i64))), Ok(Some(Value::Integer(9))));
    assert_eq!(
        settle_outcome(Ok(Dynamic::from('z'))),
        Err(ScriptError::Conversion(ConversionError::UnsupportedNativeType(s("char"))))
    );
}

#[test]
fn agent_from_compiled_reports_compile_error() {
    let r = agent_from_compiled(Err(s("bad syntax")));
    assert!(matches!(r, Err(ScriptError::CompileError(m)) if m == "bad syntax"));
    let ast = Engine::new().compile("value").unwrap();
    assert!(agent_from_compiled(Ok(ast)).unwrap().is_ready());
}

#[test]
fn install_compiled_keeps_program_on_error() {
    let engine = ScriptEngine::new();
    let mut agent = RhaiScriptAgent::new(&engine, "value - 1").unwrap();
    assert_eq!(agent.install_compiled(Err(s("oops"))), Err(ScriptError::CompileError(s("oops"))));
    assert_eq!(agent.process(&engine, &Value::Integer(1)), Ok(Some(Value::Integer(0))));
    let ast = Engine::new().compile("value * 3").unwrap();
    assert_eq!(agent.install_compiled(Ok(ast)), Ok(()));
    assert_eq!(agent.process(&engine, &Value::Integer(2)), Ok(Some(Value::Integer(6))));
}
