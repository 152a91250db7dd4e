use ga4gh_sdk::extension::Extension;
use ga4gh_sdk::extension::ExtensionMethod;
use ga4gh_sdk::extension::InstalledExtension;
use ga4gh_sdk::extension::MethodDeclaration;
use ga4gh_sdk::extension_manager::ExtensionManager;
use ga4gh_sdk::registry::parse_registry;
use ga4gh_sdk::registry::render_registry;

fn record(name: &str, enabled: bool) -> InstalledExtension {
    InstalledExtension {
        name: name.to_string(),
        version: "1.0.0".to_string(),
        definition_path: format!("/defs/{}.json", name),
        library_path: format!("/libs/lib{}.so", name),
        enabled,
        loaded: false,
        methods: Vec::new(),
    }
}

fn tls_method(ext: &str, internal: &str, symbol: &str) -> ExtensionMethod {
    ExtensionMethod {
        extension_name: ext.to_string(),
        unified_name: "tls-verifier".to_string(),
        internal_name: internal.to_string(),
        symbol_name: symbol.to_string(),
    }
}

#[test]
fn lookup_returns_providers_in_registration_order() {
    let mut manager = ExtensionManager::new("/tmp/registry.json".to_string());
    let mut first = record("alpha", true);
    first.methods.push(tls_method("alpha", "verify_a", "verify_a_impl"));
    let mut second = record("beta", true);
    second.methods.push(tls_method("beta", "verify_b", "verify_b_impl"));
    manager.register_extension(first);
    manager.register_extension(second);

    let providers = manager.lookup_extension_methods("tls-verifier");
    assert_eq!(providers.len(), 2);
    assert_eq!(providers[0].extension_name, "alpha");
    assert_eq!(providers[0].internal_name, "verify_a");
    assert_eq!(providers[1].extension_name, "beta");
    assert_eq!(providers[1].internal_name, "verify_b");
}

#[test]
fn disabled_extension_contributes_nothing() {
    let mut manager = ExtensionManager::new("/tmp/registry.json".to_string());
    let mut off = record("off", false);
    off.methods.push(tls_method("off", "verify_off", "verify_off_impl"));
    let mut on = record("on", true);
    on.methods.push(tls_method("on", "verify_on", "verify_on_impl"));
    manager.register_extension(off);
    manager.register_extension(on);

    let providers = manager.lookup_extension_methods("tls-verifier");
    assert_eq!(providers.len(), 1);
    assert_eq!(providers[0].extension_name, "on");
}

#[test]
fn lookup_of_unknown_capability_is_empty() {
    let mut manager = ExtensionManager::new("/tmp/registry.json".to_string());
    let mut ext = record("alpha", true);
    ext.methods.push(tls_method("alpha", "verify_a", "verify_a_impl"));
    manager.register_extension(ext);
    assert!(manager.lookup_extension_methods("data-signer").is_empty());
}

#[test]
fn empty_or_missing_registry_file_yields_empty_registry() {
    let manager = ExtensionManager::from_registry_json("", "/tmp/registry.json".to_string())
        .expect("empty text denotes a fresh registry");
    assert_eq!(manager.get_extensions().len(), 0);
    assert_eq!(manager.get_config_path(), "/tmp/registry.json");
    assert_eq!(manager.to_registry_json(), "{\"extensions\":[]}");
}

#[test]
fn initializer_declarations_become_lookup_entries() {
    let mut manager = ExtensionManager::new("/tmp/registry.json".to_string());
    let mut ext = record("attested-tls", false);
    ext.enable();
    manager.register_extension(ext);

    let declarations = vec![MethodDeclaration {
        unified_name: "tls-verifier".to_string(),
        internal_name: "verify_cert".to_string(),
        symbol_name: "verify_cert_impl".to_string(),
    }];
    manager.record_extension_loaded(0, declarations);

    let providers = manager.lookup_extension_methods("tls-verifier");
    assert_eq!(providers.len(), 1);
    assert_eq!(providers[0].internal_name, "verify_cert");
    assert_eq!(providers[0].symbol_name, "verify_cert_impl");
    assert_eq!(providers[0].extension_name, "attested-tls");
    assert!(manager.get_extensions()[0].loaded);

    manager.record_extension_unloaded(0);
    assert!(!manager.get_extensions()[0].loaded);
}

#[test]
fn add_then_remove_restores_prior_names() {
    let mut manager = ExtensionManager::new("/tmp/registry.json".to_string());
    manager.register_extension(record("keep", true));
    let before = manager.to_registry_json();

    let descriptor = Extension {
        name: "fresh".to_string(),
        version: "0.2.0".to_string(),
        path: "https://example.com/download/libfresh.so".to_string(),
        checksum: "0123456789abcdef".to_string(),
        description: None,
    };
    let added = manager.add_extension(&descriptor, "/defs/fresh.json".to_string(), "/libs/libfresh.so".to_string());
    assert!(added);
    assert_eq!(manager.get_extensions().len(), 2);
    let new_record = &manager.get_extensions()[1];
    assert_eq!(new_record.name, "fresh");
    assert!(!new_record.enabled);
    assert!(!new_record.loaded);

    manager.remove_extension("fresh");
    assert_eq!(manager.to_registry_json(), before);
}

#[test]
fn adding_a_registered_name_is_a_noop() {
    let mut manager = ExtensionManager::new("/tmp/registry.json".to_string());
    manager.register_extension(record("dup", true));
    let before = manager.to_registry_json();
    let descriptor = Extension {
        name: "dup".to_string(),
        version: "9.9.9".to_string(),
        path: "https://example.com/libdup.so".to_string(),
        checksum: "0123456789abcdef".to_string(),
        description: Some("a duplicate".to_string()),
    };
    let added = manager.add_extension(&descriptor, "/d".to_string(), "/l".to_string());
    assert!(!added);
    assert_eq!(manager.to_registry_json(), before);
}

#[test]
fn removing_an_unknown_name_changes_nothing() {
    let mut manager = ExtensionManager::new("/tmp/registry.json".to_string());
    manager.register_extension(record("solo", false));
    let before = manager.to_registry_json();
    manager.remove_extension("absent");
    assert_eq!(manager.to_registry_json(), before);
}

#[test]
fn enable_then_disable_flips_only_the_named_record() {
    let mut manager = ExtensionManager::new("/tmp/registry.json".to_string());
    manager.register_extension(record("first", false));
    manager.register_extension(record("second", true));

    manager.enable_extension("first");
    assert!(manager.get_extensions()[0].enabled);
    assert!(manager.get_extensions()[1].enabled);
    assert!(manager.to_registry_json().contains("\"name\":\"first\",\"version\":\"1.0.0\""));

    manager.disable_extension("first");
    assert!(!manager.get_extensions()[0].enabled);
    assert!(manager.get_extensions()[1].enabled);
}

#[test]
fn cloned_record_never_counts_as_loaded() {
    let mut ext = record("dup", true);
    ext.enable();
    ext.record_loaded(vec![MethodDeclaration {
        unified_name: "tls-verifier".to_string(),
        internal_name: "verify".to_string(),
        symbol_name: "verify_impl".to_string(),
    }]);
    assert!(ext.loaded);
    let copy = ext.clone();
    assert!(!copy.loaded);
    assert_eq!(copy.name, ext.name);
    assert_eq!(copy.methods.len(), 1);
    assert_eq!(copy.methods[0].internal_name, "verify");
}

#[test]
fn registry_text_round_trips() {
    let records = vec![
        record("plain", true),
        InstalledExtension {
            name: "quo\"ted\\name".to_string(),
            version: "0.1".to_string(),
            definition_path: "/tmp/a \"b\".json".to_string(),
            library_path: "C:\\libs\\ext.dll".to_string(),
            enabled: false,
            loaded: true,
            methods: vec![tls_method("quoted", "v", "v_impl")],
        },
    ];
    let text = render_registry(&records);
    let parsed = parse_registry(&text).expect("canonical text must parse");
    assert_eq!(parsed.len(), 2);
    assert_eq!(parsed[0].name, "plain");
    assert_eq!(parsed[0].version, "1.0.0");
    assert!(parsed[0].enabled);
    assert_eq!(parsed[1].name, "quo\"ted\\name");
    assert_eq!(parsed[1].definition_path, "/tmp/a \"b\".json");
    assert_eq!(parsed[1].library_path, "C:\\libs\\ext.dll");
    assert!(!parsed[1].enabled);
    // runtime-only state is never persisted
    assert!(!parsed[1].loaded);
    assert!(parsed[1].methods.is_empty());
}

#[test]
fn registry_render_is_canonical() {
    let records = vec![record("ext", true)];
    assert_eq!(
        render_registry(&records),
        "{\"extensions\":[{\"name\":\"ext\",\"version\":\"1.0.0\",\"definition-path\":\"/defs/ext.json\",\"library-path\":\"/libs/libext.so\",\"enabled\":true}]}"
    );
}

#[test]
fn whitespace_and_key_order_do_not_matter() {
    let pretty = "{\n  \"extensions\": [\n    {\n      \"version\": \"1.0.0\",\n      \"enabled\": true,\n      \"name\": \"spaced\",\n      \"library-path\": \"/l.so\",\n      \"definition-path\": \"/d.json\"\n    }\n  ]\n}\n";
    let parsed = parse_registry(pretty).expect("pretty-printed registry text must parse");
    assert_eq!(parsed.len(), 1);
    assert_eq!(parsed[0].name, "spaced");
    assert_eq!(parsed[0].version, "1.0.0");
    assert_eq!(parsed[0].definition_path, "/d.json");
    assert_eq!(parsed[0].library_path, "/l.so");
    assert!(parsed[0].enabled);
}

#[test]
fn a_missing_enabled_flag_reads_as_disabled() {
    let text = "{\"extensions\":[{\"name\":\"quiet\",\"version\":\"1\",\"definition-path\":\"/d\",\"library-path\":\"/l\"}]}";
    let parsed = parse_registry(text).expect("a record without the enabled key parses");
    assert_eq!(parsed.len(), 1);
    assert!(!parsed[0].enabled);
}

#[test]
fn standard_string_escapes_are_read() {
    let text = "{\"extensions\":[{\"name\":\"a\\u0041\\n\\t\\/b\",\"version\":\"1\",\"definition-path\":\"/d\",\"library-path\":\"/l\",\"enabled\":false}]}";
    let parsed = parse_registry(text).expect("standard escapes parse");
    assert_eq!(parsed[0].name, "aA\n\t/b");
}

#[test]
fn control_characters_persist_as_escapes() {
    let records = vec![InstalledExtension {
        name: "line\nbreak".to_string(),
        version: "1".to_string(),
        definition_path: "/d".to_string(),
        library_path: "/l".to_string(),
        enabled: false,
        loaded: false,
        methods: Vec::new(),
    }];
    let text = render_registry(&records);
    assert!(text.contains("line\\u000Abreak"));
    let parsed = parse_registry(&text).expect("rendered control characters re-parse");
    assert_eq!(parsed[0].name, "line\nbreak");
}

#[test]
fn duplicate_or_unknown_keys_are_rejected() {
    let duplicated = "{\"extensions\":[{\"name\":\"x\",\"name\":\"y\",\"version\":\"1\",\"definition-path\":\"/d\",\"library-path\":\"/l\"}]}";
    assert!(parse_registry(duplicated).is_none());
    let unknown = "{\"extensions\":[{\"name\":\"x\",\"color\":\"red\",\"version\":\"1\",\"definition-path\":\"/d\",\"library-path\":\"/l\"}]}";
    assert!(parse_registry(unknown).is_none());
}

#[test]
fn malformed_registry_text_is_rejected() {
    assert!(parse_registry("").is_none());
    assert!(parse_registry("{}").is_none());
    assert!(parse_registry("{\"extensions\":[}").is_none());
    assert!(parse_registry("{\"extensions\":[]} trailing").is_none());
    assert!(parse_registry("{\"extensions\":[{\"name\":\"x\"}]}").is_none());
    assert!(parse_registry("{\"extensions\":[]}").is_some());
    assert!(parse_registry(" { \"extensions\" : [ ] } ").is_some());
}

#[test]
fn unreadable_registry_text_is_refused() {
    assert!(ExtensionManager::from_registry_json("not json at all", "/tmp/r.json".to_string()).is_none());
    let parsed = ExtensionManager::from_registry_json("{\"extensions\":[]}", "/tmp/r.json".to_string())
        .expect("a well-formed registry is accepted");
    assert_eq!(parsed.get_extensions().len(), 0);
}

#[test]
fn a_single_record_object_parses_on_its_own() {
    let text = "{\"name\":\"solo\",\"version\":\"2.1\",\"definition-path\":\"/d.json\",\"library-path\":\"/l.so\",\"enabled\":true}";
    let record = InstalledExtension::from_json(text).expect("canonical record must parse");
    assert_eq!(record.name, "solo");
    assert_eq!(record.version, "2.1");
    assert!(record.enabled);
    assert!(!record.loaded);
    assert!(record.methods.is_empty());
    assert!(InstalledExtension::from_json("{}").is_none());
    assert!(InstalledExtension::from_json(&format!(" {} ", text)).is_some());
    assert!(InstalledExtension::from_json(&format!("{} x", text)).is_none());
}

#[test]
fn should_load_follows_the_enabled_flag() {
    let ext = record("gated", false);
    assert!(!ext.should_load());
    let mut ext = ext;
    ext.enable();
    assert!(ext.should_load());
    ext.disable();
    assert!(!ext.should_load());
}
