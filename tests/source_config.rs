use next_core::js_value::{explain, ConstantValue, JsValue, ObjectPart};
use next_core::source_config::{
    parse_config_from_js_value, parse_config_from_source, ConfigProblem, IssueSeverity,
    ModuleItem, NextRuntime, NextSourceConfig, NextSourceConfigParsingIssue, VarDeclarator,
};

fn s(v: &str) -> JsValue {
    JsValue::Constant(ConstantValue::Str(v.to_string()))
}

fn num(v: &str) -> JsValue {
    JsValue::Constant(ConstantValue::Num(v.to_string()))
}

fn kv(k: &str, v: JsValue) -> ObjectPart {
    ObjectPart::KeyValue(s(k), v)
}

fn module_with_config(init: Option<JsValue>) -> Vec<ModuleItem> {
    vec![
        ModuleItem::Other,
        ModuleItem::ExportVar(vec![VarDeclarator { name: Some("config".to_string()), init }]),
    ]
}

fn run(value: JsValue) -> (NextSourceConfig, Vec<NextSourceConfigParsingIssue>) {
    let mut issues = Vec::new();
    let items = module_with_config(Some(value));
    let config = parse_config_from_source(&"pages/a.js".to_string(), &items, &mut issues);
    (config, issues)
}

fn default_config() -> NextSourceConfig {
    NextSourceConfig { runtime: NextRuntime::NodeJs, matcher: None }
}

fn strings(v: &[&str]) -> Option<Vec<String>> {
    Some(v.iter().map(|x| x.to_string()).collect())
}

#[test]
fn no_config_export_gives_default() {
    let items = vec![
        ModuleItem::Other,
        ModuleItem::ExportVar(vec![VarDeclarator {
            name: Some("other".to_string()),
            init: Some(JsValue::Object(vec![kv("runtime", s("edge"))])),
        }]),
    ];
    let mut issues = Vec::new();
    let config = parse_config_from_source(&"a.js".to_string(), &items, &mut issues);
    assert_eq!(config, default_config());
    assert!(issues.is_empty());
}

#[test]
fn empty_object_gives_default() {
    let (config, issues) = run(JsValue::Object(vec![]));
    assert_eq!(config, default_config());
    assert_eq!(issues.len(), 0);
}

#[test]
fn runtime_edge() {
    let (config, issues) = run(JsValue::Object(vec![kv("runtime", s("edge"))]));
    assert_eq!(config, NextSourceConfig { runtime: NextRuntime::Edge, matcher: None });
    assert_eq!(issues.len(), 0);
}

#[test]
fn runtime_experimental_edge_alias() {
    let (config, issues) = run(JsValue::Object(vec![kv("runtime", s("experimental-edge"))]));
    assert_eq!(config, NextSourceConfig { runtime: NextRuntime::Edge, matcher: None });
    assert_eq!(issues.len(), 0);
}

#[test]
fn runtime_unsupported_keeps_default() {
    let (config, issues) = run(JsValue::Object(vec![kv("runtime", s("deno"))]));
    assert_eq!(config, default_config());
    assert_eq!(issues.len(), 1);
    assert_eq!(
        issues[0].detail,
        "The runtime property must be either \"nodejs\" or \"edge\". Got \"deno\"."
    );
    assert_eq!(issues[0].ident, "pages/a.js");
}

#[test]
fn runtime_nodejs_after_edge() {
    let (config, issues) = run(JsValue::Object(vec![
        kv("runtime", s("edge")),
        kv("runtime", s("nodejs")),
    ]));
    assert_eq!(config, default_config());
    assert!(issues.is_empty());
}

#[test]
fn runtime_not_constant() {
    let (config, issues) = run(JsValue::Object(vec![kv(
        "runtime",
        JsValue::Unknown("process.env.RUNTIME".to_string()),
    )]));
    assert_eq!(config, default_config());
    assert_eq!(issues.len(), 1);
    assert_eq!(
        issues[0].detail,
        "The runtime property must be a constant string. Got unknown (process.env.RUNTIME)."
    );
}

#[test]
fn runtime_constant_number_is_reported() {
    let (config, issues) = run(JsValue::Object(vec![kv("runtime", num("42"))]));
    assert_eq!(config, default_config());
    assert_eq!(issues.len(), 1);
    assert_eq!(issues[0].detail, "The runtime property must be a constant string. Got 42.");
}

#[test]
fn runtime_non_string_constant_keeps_earlier_value() {
    let (config, issues) = run(JsValue::Object(vec![
        kv("runtime", s("edge")),
        kv("runtime", JsValue::Constant(ConstantValue::Null)),
    ]));
    assert_eq!(config.runtime, NextRuntime::Edge);
    assert_eq!(issues.len(), 1);
}

#[test]
fn matcher_single_string() {
    let (config, issues) = run(JsValue::Object(vec![kv("matcher", s("/about"))]));
    assert_eq!(config, NextSourceConfig { runtime: NextRuntime::NodeJs, matcher: strings(&["/about"]) });
    assert_eq!(issues.len(), 0);
}

#[test]
fn matcher_array_of_strings() {
    let (config, issues) =
        run(JsValue::Object(vec![kv("matcher", JsValue::Array(vec![s("/a"), s("/b")]))]));
    assert_eq!(config.runtime, NextRuntime::NodeJs);
    assert_eq!(config.matcher, strings(&["/a", "/b"]));
    assert_eq!(issues.len(), 0);
}

#[test]
fn matcher_array_drops_invalid_item() {
    let (config, issues) =
        run(JsValue::Object(vec![kv("matcher", JsValue::Array(vec![s("/a"), num("42")]))]));
    assert_eq!(config.runtime, NextRuntime::NodeJs);
    assert_eq!(config.matcher, strings(&["/a"]));
    assert_eq!(issues.len(), 1);
    assert_eq!(
        issues[0].detail,
        "The matcher property must be a string or array of strings Got [\"/a\", 42]."
    );
}

#[test]
fn matcher_bad_shape_keeps_previous() {
    let (config, issues) = run(JsValue::Object(vec![
        kv("matcher", s("/x")),
        kv("matcher", JsValue::Constant(ConstantValue::Bool(true))),
    ]));
    assert_eq!(config.matcher, strings(&["/x"]));
    assert_eq!(issues.len(), 1);
    assert_eq!(
        issues[0].detail,
        "The matcher property must be a string or array of strings Got true."
    );
}

#[test]
fn matcher_repeated_key_overwrites() {
    let (config, issues) = run(JsValue::Object(vec![
        kv("matcher", s("/x")),
        kv("matcher", JsValue::Array(vec![s("/y"), s("/z")])),
    ]));
    assert_eq!(config.matcher, strings(&["/y", "/z"]));
    assert!(issues.is_empty());
}

#[test]
fn spread_is_reported_and_siblings_apply() {
    let value = JsValue::Object(vec![
        ObjectPart::Spread(JsValue::Unknown("base".to_string())),
        kv("runtime", s("edge")),
    ]);
    let (config, issues) = run(value);
    assert_eq!(config, NextSourceConfig { runtime: NextRuntime::Edge, matcher: None });
    assert_eq!(issues.len(), 1);
    assert_eq!(
        issues[0].detail,
        "Spread properties are not supported in the config export. Got {...unknown (base), \"runtime\": \"edge\"}."
    );
}

#[test]
fn non_object_value_gives_default() {
    let (config, issues) = run(JsValue::Unknown("call of computeIt".to_string()));
    assert_eq!(config, default_config());
    assert_eq!(issues.len(), 1);
    assert_eq!(
        issues[0].detail,
        "The exported config object must be a valid object literal. Got unknown (call of computeIt)."
    );
}

#[test]
fn non_constant_key_is_reported() {
    let value = JsValue::Object(vec![
        ObjectPart::KeyValue(JsValue::Unknown("k".to_string()), s("edge")),
        kv("matcher", s("/m")),
    ]);
    let (config, issues) = run(value);
    assert_eq!(config.matcher, strings(&["/m"]));
    assert_eq!(issues.len(), 1);
    assert_eq!(
        issues[0].detail,
        "The exported config object must not contain non-constant strings. Got unknown (k)."
    );
}

#[test]
fn unknown_keys_are_ignored() {
    let (config, issues) = run(JsValue::Object(vec![kv("regions", s("iad1"))]));
    assert_eq!(config, default_config());
    assert!(issues.is_empty());
}

#[test]
fn every_bad_part_reports() {
    let value = JsValue::Object(vec![
        ObjectPart::Spread(s("x")),
        kv("runtime", s("deno")),
        kv("matcher", JsValue::Array(vec![num("1"), s("/ok"), JsValue::Constant(ConstantValue::Null)])),
        kv("runtime", s("edge")),
    ]);
    let (config, issues) = run(value);
    assert_eq!(config.runtime, NextRuntime::Edge);
    assert_eq!(config.matcher, strings(&["/ok"]));
    assert_eq!(issues.len(), 4);
}

#[test]
fn missing_initializer_then_later_config() {
    let items = vec![
        ModuleItem::ExportVar(vec![VarDeclarator { name: Some("config".to_string()), init: None }]),
        ModuleItem::ExportVar(vec![
            VarDeclarator { name: None, init: Some(s("x")) },
            VarDeclarator {
                name: Some("config".to_string()),
                init: Some(JsValue::Object(vec![kv("runtime", s("edge"))])),
            },
        ]),
        ModuleItem::ExportVar(vec![VarDeclarator {
            name: Some("config".to_string()),
            init: Some(JsValue::Object(vec![kv("runtime", s("nodejs"))])),
        }]),
    ];
    let mut issues = Vec::new();
    let config = parse_config_from_source(&"m.js".to_string(), &items, &mut issues);
    assert_eq!(config.runtime, NextRuntime::Edge);
    assert_eq!(issues.len(), 1);
    assert_eq!(
        issues[0].detail,
        "The exported config object must contain an variable initializer."
    );
}

#[test]
fn missing_initializer_only() {
    let items = module_with_config(None);
    let mut issues = Vec::new();
    let config = parse_config_from_source(&"m.js".to_string(), &items, &mut issues);
    assert_eq!(config, default_config());
    assert_eq!(issues.len(), 1);
}

#[test]
fn issues_are_appended_to_the_sink() {
    let mut issues = vec![NextSourceConfigParsingIssue {
        ident: "earlier.js".to_string(),
        detail: "earlier".to_string(),
    }];
    let value = JsValue::Object(vec![kv("runtime", s("deno"))]);
    let config = parse_config_from_js_value(&"b.js".to_string(), &value, &mut issues);
    assert_eq!(config, default_config());
    assert_eq!(issues.len(), 2);
    assert_eq!(issues[0].detail, "earlier");
    assert_eq!(issues[1].ident, "b.js");
}

#[test]
fn decoding_is_deterministic() {
    let make = || {
        JsValue::Object(vec![
            ObjectPart::Spread(s("x")),
            kv("matcher", JsValue::Array(vec![s("/a"), num("2")])),
        ])
    };
    let (c1, i1) = run(make());
    let (c2, i2) = run(make());
    assert_eq!(c1, c2);
    assert_eq!(i1, i2);
}

#[test]
fn redecoding_reproduces_output() {
    let items = module_with_config(Some(JsValue::Object(vec![kv("runtime", s("deno"))])));
    let mut first = Vec::new();
    let c1 = parse_config_from_source(&"r.js".to_string(), &items, &mut first);
    let mut second = Vec::new();
    let c2 = parse_config_from_source(&"r.js".to_string(), &items, &mut second);
    assert_eq!(c1, c2);
    assert_eq!(first, second);
    assert_eq!(format!("{:?}", first), format!("{:?}", second));
}

#[test]
fn explain_elides_deep_values() {
    let deep = JsValue::Array(vec![JsValue::Array(vec![JsValue::Array(vec![s("a")])]), num("1")]);
    assert_eq!(explain(&deep, 2), "[[[...]], 1]");
    let obj = JsValue::Object(vec![kv("a", JsValue::Constant(ConstantValue::Undefined))]);
    assert_eq!(explain(&obj, 0), "{...}");
    assert_eq!(explain(&obj, 1), "{\"a\": undefined}");
}

#[test]
fn explain_elides_wide_values() {
    let items: Vec<JsValue> = (0..10).map(|i| num(&i.to_string())).collect();
    assert_eq!(explain(&JsValue::Array(items), 2), "[0, 1, 2, 3, 4, 5, 6, 7, ...]");
    let exact: Vec<JsValue> = (0..8).map(|i| num(&i.to_string())).collect();
    assert_eq!(explain(&JsValue::Array(exact), 2), "[0, 1, 2, 3, 4, 5, 6, 7]");
    let parts: Vec<ObjectPart> = (0..9).map(|i| kv(&i.to_string(), num("1"))).collect();
    assert_eq!(
        explain(&JsValue::Object(parts), 1),
        "{\"0\": 1, \"1\": 1, \"2\": 1, \"3\": 1, \"4\": 1, \"5\": 1, \"6\": 1, \"7\": 1, ...}"
    );
}

#[test]
fn issue_fields() {
    let issue = NextSourceConfigParsingIssue { ident: "p.js".to_string(), detail: "d".to_string() };
    assert_eq!(issue.severity(), IssueSeverity::Warning);
    assert_eq!(issue.title(), "Unable to parse config export in source file");
    assert_eq!(issue.category(), "parsing");
    assert_eq!(issue.context(), "p.js");
    assert_eq!(issue.detail(), "d");
    assert!(issue.description().starts_with("The exported configuration object"));
    assert_eq!(ConfigProblem::Spread.message(), "Spread properties are not supported in the config export.");
}

#[test]
fn runtime_default_is_nodejs() {
    assert_eq!(NextRuntime::default(), NextRuntime::NodeJs);
    assert_eq!(NextSourceConfig::default(), default_config());
}
