use lasso_zen_bre::api::{plan_evaluation, RequestBody};
use lasso_zen_bre::paths::PathComponent;
use lasso_zen_bre::registry::{Registry, RegistryLoad};
use serde_json::Value;
use std::sync::Arc;
use zen_engine::handler::custom_node_adapter::NoopCustomNode;
use zen_engine::{DecisionEngine, EvaluationOptions};

const CHILD: &str = r#"{"nodes":[
  {"id":"in","type":"inputNode","name":"Request"},
  {"id":"calc","type":"expressionNode","name":"Double","content":{"expressions":[{"id":"x1","key":"doubled","value":"input * 2"}]}},
  {"id":"out","type":"outputNode","name":"Response"}],
 "edges":[{"id":"e1","sourceId":"in","type":"edge","targetId":"calc"},{"id":"e2","sourceId":"calc","type":"edge","targetId":"out"}]}"#;

const PARENT: &str = r#"{"nodes":[
  {"id":"in","type":"inputNode","name":"Request"},
  {"id":"child","type":"decisionNode","name":"Child","content":{"key":"child.json"}},
  {"id":"out","type":"outputNode","name":"Response"}],
 "edges":[{"id":"e1","sourceId":"in","type":"edge","targetId":"child"},{"id":"e2","sourceId":"child","type":"edge","targetId":"out"}]}"#;

const NAMES: &str = r#"{"nodes":[
  {"id":"in","type":"inputNode","name":"Request"},
  {"id":"calc","type":"expressionNode","name":"Names","content":{"expressions":[{"id":"x1","key":"fullName","value":"firstName + ' ' + lastName"}]}},
  {"id":"out","type":"outputNode","name":"Response"}],
 "edges":[{"id":"e1","sourceId":"in","type":"edge","targetId":"calc"},{"id":"e2","sourceId":"calc","type":"edge","targetId":"out"}]}"#;

const DECIMAL: &str = r#"{"nodes":[
  {"id":"in","type":"inputNode","name":"Request"},
  {"id":"calc","type":"expressionNode","name":"Sum","content":{"expressions":[{"id":"x1","key":"sum","value":"0.1 + 0.2"}]}},
  {"id":"out","type":"outputNode","name":"Response"}],
 "edges":[{"id":"e1","sourceId":"in","type":"edge","targetId":"calc"},{"id":"e2","sourceId":"calc","type":"edge","targetId":"out"}]}"#;

const TABLE: &str = r#"{"nodes":[
  {"id":"in","type":"inputNode","name":"Request"},
  {"id":"table","type":"decisionTableNode","name":"Table","content":{"hitPolicy":"first",
    "inputs":[{"id":"i1","name":"Input","field":"input"}],
    "outputs":[{"id":"o1","name":"Output","field":"output"}],
    "rules":[{"_id":"r1","i1":"> 10","o1":"10"},{"_id":"r2","i1":"","o1":"0"}]}},
  {"id":"out","type":"outputNode","name":"Response"}],
 "edges":[{"id":"e1","sourceId":"in","type":"edge","targetId":"table"},{"id":"e2","sourceId":"table","type":"edge","targetId":"out"}]}"#;

const SWITCH: &str = r#"{"nodes":[
  {"id":"in","type":"inputNode","name":"Request"},
  {"id":"sw","type":"switchNode","name":"Switch","content":{"hitPolicy":"first","statements":[
    {"id":"s1","condition":"color == 'yellow'"},{"id":"s2","condition":""}]}},
  {"id":"p1","type":"expressionNode","name":"Path 1","content":{"expressions":[{"id":"x1","key":"path1","value":"true"}]}},
  {"id":"p2","type":"expressionNode","name":"Path 2","content":{"expressions":[{"id":"x2","key":"path2","value":"true"}]}},
  {"id":"out","type":"outputNode","name":"Response"}],
 "edges":[{"id":"e1","sourceId":"in","type":"edge","targetId":"sw"},
  {"id":"e2","sourceId":"sw","sourceHandle":"s1","type":"edge","targetId":"p1"},
  {"id":"e3","sourceId":"sw","sourceHandle":"s2","type":"edge","targetId":"p2"},
  {"id":"e4","sourceId":"p1","type":"edge","targetId":"out"},
  {"id":"e5","sourceId":"p2","type":"edge","targetId":"out"}]}"#;

const FUNCTION: &str = r#"{"nodes":[
  {"id":"in","type":"inputNode","name":"Request"},
  {"id":"fn","type":"functionNode","name":"Double","content":{"source":"export const handler = async (input) => { return { output: input.input * 2 }; };"}},
  {"id":"out","type":"outputNode","name":"Response"}],
 "edges":[{"id":"e1","sourceId":"in","type":"edge","targetId":"fn"},{"id":"e2","sourceId":"fn","type":"edge","targetId":"out"}]}"#;

const PRECISION: &str = r#"{"nodes":[
  {"id":"in","type":"inputNode","name":"Request"},
  {"id":"calc","type":"expressionNode","name":"Precise","content":{"expressions":[{"id":"x1","key":"precise","value":"12345678901234567890.12345679"}]}},
  {"id":"out","type":"outputNode","name":"Response"}],
 "edges":[{"id":"e1","sourceId":"in","type":"edge","targetId":"calc"},{"id":"e2","sourceId":"calc","type":"edge","targetId":"out"}]}"#;

fn normal(s: &str) -> PathComponent {
    PathComponent::Normal(s.to_string())
}

fn registry(files: &[(&str, &str)]) -> Registry {
    let root = vec![PathComponent::RootDir, normal("ws"), normal("decisions")];
    let mut load = RegistryLoad::new();
    for (name, bytes) in files {
        let mut path = root.clone();
        path.push(normal(name));
        let (id, key) = load.accept_path(&root, &path).expect("admitted");
        load.add_model(id, key, Some(bytes.as_bytes().to_vec()));
    }
    match load.finish(1) {
        Ok(r) => r,
        Err(e) => panic!("refused: {:?}", e.diagnostics),
    }
}

fn evaluate(registry: &Registry, decision_id: &str, context: &str) -> Value {
    let context: Value = serde_json::from_str(context).expect("context");
    let path = format!("{decision_id}/evaluate");
    let target = plan_evaluation(&path, RequestBody::Json { depth: 2 }, 64, registry)
        .ok()
        .expect("the request is planned");
    let engine = DecisionEngine::new(target.loader, Arc::new(NoopCustomNode));
    let runtime = tokio::runtime::Builder::new_current_thread()
        .enable_all()
        .build()
        .expect("runtime");
    let response = runtime
        .block_on(engine.evaluate_with_opts(
            target.key,
            context.into(),
            EvaluationOptions { trace: Some(false), max_depth: Some(10) },
        ))
        .ok()
        .expect("the decision evaluates");
    response.result.to_value()
}

#[test]
fn resolves_nested_decision_nodes_from_the_same_registry() {
    let reg = registry(&[("parent.json", PARENT), ("child.json", CHILD)]);
    let result = evaluate(&reg, "parent", r#"{"input": 7}"#);
    assert_eq!(result.pointer("/doubled").map(|v| v.to_string()), Some("14".to_string()));
}

#[test]
fn evaluates_expression_table_switch_and_function_nodes() {
    let reg = registry(&[
        ("expression.json", NAMES),
        ("table.json", TABLE),
        ("switch.json", SWITCH),
        ("function.json", FUNCTION),
    ]);
    let result = evaluate(
        &reg,
        "expression",
        r#"{"numbers": [1, 2, 10], "firstName": "Max", "lastName": "Lasso"}"#,
    );
    assert_eq!(result.pointer("/fullName").and_then(|v| v.as_str()), Some("Max Lasso"));
    let result = evaluate(&reg, "table", r#"{"input": 12}"#);
    assert_eq!(result.pointer("/output").map(|v| v.to_string()), Some("10".to_string()));
    let result = evaluate(&reg, "switch", r#"{"color": "yellow"}"#);
    assert_eq!(result.pointer("/path1").and_then(|v| v.as_bool()), Some(true));
    assert_eq!(result.pointer("/path2"), None);
    let result = evaluate(&reg, "function", r#"{"input": 12}"#);
    assert_eq!(result.pointer("/output").map(|v| v.to_string()), Some("24".to_string()));
}

#[test]
fn decimal_arithmetic_is_exact() {
    let reg = registry(&[("decimal.json", DECIMAL)]);
    let result = evaluate(&reg, "decimal", "{}");
    assert_eq!(result.pointer("/sum").map(|v| v.to_string()), Some("0.3".to_string()));
}

#[test]
fn arbitrary_precision_numbers_are_not_rounded() {
    let reg = registry(&[("precision.json", PRECISION)]);
    let result = evaluate(&reg, "precision", "{}");
    assert_eq!(
        result.pointer("/precise").expect("precise result").to_string(),
        "12345678901234567890.12345679"
    );
}
