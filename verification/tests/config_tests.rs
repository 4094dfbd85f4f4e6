//! The experiment document model.

use wasmer_borealis::config::{
    schema_url, should_show_wasmer_config, Document, EnvMap, EnvironmentVariable, Experiment,
    Filters, TemplatedString, WasmerConfig, WasmerVersion, SCHEMA_URL,
};

#[test]
fn templated_string_keeps_raw_text() {
    let t = TemplatedString::new("${X}/y".to_string());
    assert_eq!(t.raw(), "${X}/y");
    assert_eq!(t.as_str(), "${X}/y");
    let u: TemplatedString = TemplatedString::from("abc".to_string());
    assert_eq!(u.raw(), "abc");
}

#[test]
fn env_map_keeps_insertion_order_and_unique_keys() {
    let mut m = EnvMap::new();
    m.insert("B".to_string(), TemplatedString::new("1".to_string()));
    m.insert("A".to_string(), TemplatedString::new("2".to_string()));
    m.insert("B".to_string(), TemplatedString::new("3".to_string()));
    assert_eq!(m.len(), 2);
    let (k0, v0) = m.entry(0);
    assert_eq!(k0.as_str(), "B");
    assert_eq!(v0.raw(), "3");
    let (k1, v1) = m.entry(1);
    assert_eq!(k1.as_str(), "A");
    assert_eq!(v1.raw(), "2");
    assert_eq!(m.get("B").unwrap().raw(), "3");
    assert!(m.get("C").is_none());
}

#[test]
fn environment_variable_parses_at_first_equals() {
    let ev = EnvironmentVariable::parse("KEY=a=b").unwrap();
    assert_eq!(ev.name, "KEY");
    assert_eq!(ev.value.raw(), "a=b");
    let empty_value = EnvironmentVariable::parse("KEY=").unwrap();
    assert_eq!(empty_value.name, "KEY");
    assert_eq!(empty_value.value.raw(), "");
    assert!(EnvironmentVariable::parse("no-equals").is_none());
}

#[test]
fn filters_emptiness_ignores_users() {
    let mut f = Filters::default();
    assert!(f.is_empty());
    f.users.push("alice".to_string());
    assert!(f.is_empty());
    f.blacklist.push("a/b".to_string());
    assert!(!f.is_empty());
}

#[test]
fn default_wasmer_config_is_hidden() {
    let cfg = WasmerConfig::default();
    assert!(should_show_wasmer_config(&cfg));
    let local = WasmerConfig {
        version: WasmerVersion::Local { path: "/usr/bin/wasmer".to_string() },
        args: Vec::new(),
        env: EnvMap::new(),
    };
    assert!(!should_show_wasmer_config(&local));
    assert!(!local.version.is_latest());
    assert!(WasmerVersion::default().is_latest());
}

#[test]
fn document_carries_the_schema_url() {
    let experiment = Experiment {
        package: "python/python".to_string(),
        command: None,
        args: Vec::new(),
        env: EnvMap::new(),
        wasmer: WasmerConfig::default(),
        filters: Filters::default(),
    };
    let doc = Document::new(experiment);
    assert_eq!(doc.schema, SCHEMA_URL);
    assert_eq!(doc.schema, schema_url());
    assert_eq!(doc.experiment.package, "python/python");
}
