use ga4gh_sdk::configuration::BasicAuth;
use ga4gh_sdk::configuration::Configuration;
use ga4gh_sdk::configuration::ServiceExtensionConfiguration;
use ga4gh_sdk::configuration::ServiceExtensionsConfiguration;
use ga4gh_sdk::models::Authorizations;
use ga4gh_sdk::models::MyError;
use ga4gh_sdk::models::ServiceOrganization;
use ga4gh_sdk::models::ServiceType;
use ga4gh_sdk::models::ToolClass;
use ga4gh_sdk::models::UnresolvedInner;
use ga4gh_sdk::tes::TesState;
use ga4gh_sdk::tes::service_is_tes;
use ga4gh_sdk::tes::task_cancel_path;
use ga4gh_sdk::tes::task_get_path;
use ga4gh_sdk::tes::task_id_from_response;
use ga4gh_sdk::tes::task_status_path;
use ga4gh_sdk::tes::tes_state_to_str;
use ga4gh_sdk::tes::urlencode;
use ga4gh_sdk::utils::extension_definition_rel;
use ga4gh_sdk::utils::extension_dir_rel;
use ga4gh_sdk::utils::extension_library_rel;
use ga4gh_sdk::utils::extract_filename_from_url;

#[test]
fn test_new_configuration() {
    let config = Configuration::new(
        "https://api.example.com".to_owned(),
        Some("My User Agent".to_owned()),
        Some(BasicAuth {
            username: "admin".to_owned(),
            password: Some("password".to_owned()),
        }),
        Some("my_oauth_token".to_owned()),
    );

    assert_eq!(config.base_path, "https://api.example.com");
    assert_eq!(config.user_agent, Some("My User Agent".to_owned()));
    assert_eq!(
        config.basic_auth,
        Some(BasicAuth {
            username: "admin".to_owned(),
            password: Some("password".to_owned()),
        })
    );
    assert_eq!(config.oauth_access_token, Some("my_oauth_token".to_owned()));
    assert_eq!(config.bearer_access_token, None);
    assert_eq!(config.api_key, None);
}

#[test]
fn test_set_base_path() {
    let mut config = Configuration::default();
    config.set_base_path("https://api.example.com");

    assert_eq!(config.base_path, "https://api.example.com");
}

#[test]
fn builders_set_one_field_each() {
    let config = Configuration::default()
        .with_user_agent("Agent/2".to_owned())
        .with_basic_auth(BasicAuth { username: "u".to_owned(), password: None })
        .with_oauth_access_token("token".to_owned());
    assert_eq!(config.user_agent, Some("Agent/2".to_owned()));
    assert_eq!(config.basic_auth, Some(BasicAuth { username: "u".to_owned(), password: None }));
    assert_eq!(config.oauth_access_token, Some("token".to_owned()));
    assert_eq!(config.base_path, "https://localhost");
}

#[test]
fn extension_config_lookup_finds_the_first_match() {
    let blocks = ServiceExtensionsConfiguration::new(vec![
        ServiceExtensionConfiguration {
            extension_name: "other".to_string(),
            required: false,
            configuration: "{}".to_string(),
            security_mode: None,
        },
        ServiceExtensionConfiguration {
            extension_name: "attested-tls".to_string(),
            required: true,
            configuration: "{\"security-mode\":\"permissive\"}".to_string(),
            security_mode: Some("permissive".to_string()),
        },
    ]);
    assert_eq!(blocks.len(), 2);
    assert_eq!(blocks.find_extension_config("attested-tls"), Some(1));
    assert_eq!(blocks.find_extension_config("absent"), None);
    let block = blocks.get_extension_config("attested-tls");
    assert!(block.required);
    assert_eq!(block.security_mode.as_deref(), Some("permissive"));
    assert_eq!(blocks.entry_at(0).extension_name, "other");
}

#[test]
fn required_extensions_must_be_loaded() {
    let blocks = ServiceExtensionsConfiguration::new(vec![ServiceExtensionConfiguration {
        extension_name: "must-have".to_string(),
        required: true,
        configuration: "{}".to_string(),
        security_mode: None,
    }]);
    let mut records = vec![ga4gh_sdk::extension::InstalledExtension {
        name: "must-have".to_string(),
        version: "1".to_string(),
        definition_path: "/d".to_string(),
        library_path: "/l".to_string(),
        enabled: true,
        loaded: false,
        methods: Vec::new(),
    }];
    assert_eq!(blocks.first_missing_required(&records), Some(0));
    records[0].loaded = true;
    assert_eq!(blocks.first_missing_required(&records), None);
}

#[test]
fn urlencode_keeps_unreserved_bytes() {
    assert_eq!(urlencode("abcXYZ019*-._"), "abcXYZ019*-._");
}

#[test]
fn urlencode_escapes_reserved_bytes() {
    assert_eq!(urlencode("a b"), "a+b");
    assert_eq!(urlencode("a/b?c=d"), "a%2Fb%3Fc%3Dd");
    // U+03C6 is CF 86 in UTF-8
    assert_eq!(urlencode("\u{03C6}"), "%CF%86");
    assert_eq!(urlencode(""), "");
}

#[test]
fn task_paths_are_built_exactly() {
    assert_eq!(task_status_path("123"), "/tasks/123?view=FULL");
    assert_eq!(task_get_path("123", "BASIC"), "/tasks/123?view=BASIC");
    assert_eq!(task_cancel_path("123"), "/tasks/123:cancel");
    assert_eq!(task_cancel_path("a b"), "/tasks/a+b:cancel");
}

#[test]
fn task_id_from_response_strips_stray_quotes() {
    assert_eq!(task_id_from_response(Some("\"123\"")), "123");
    assert_eq!(task_id_from_response(Some("123")), "123");
    assert_eq!(task_id_from_response(Some("\"\"")), "");
    assert_eq!(task_id_from_response(None), "");
}

#[test]
fn tes_service_check_matches_the_artifact() {
    assert!(service_is_tes("tes"));
    assert!(!service_is_tes("drs"));
    assert!(!service_is_tes(""));
}

#[test]
fn tes_states_have_display_labels() {
    assert_eq!(tes_state_to_str(&Some(TesState::Complete)), "Complete");
    assert_eq!(tes_state_to_str(&Some(TesState::ExecutorError)), "Executor Error");
    assert_eq!(tes_state_to_str(&Some(TesState::SystemError)), "System Error");
    assert_eq!(tes_state_to_str(&None), "None");
}

#[test]
fn service_types_name_their_config_keys() {
    assert_eq!(ServiceType::TES.as_str(), "TES");
    assert_eq!(ServiceType::DRS.as_str(), "DRS");
    assert_eq!(ServiceType::TRS.as_str(), "TRS");
    assert_eq!(ServiceType::AAI.as_str(), "AAI");
}

#[test]
fn extract_filename_takes_the_last_url_segment() {
    assert_eq!(
        extract_filename_from_url("https://example.com/downloads/libext.so"),
        Some("libext.so".to_string())
    );
    assert_eq!(extract_filename_from_url("not a url"), None);
}

#[test]
fn extension_paths_are_relative_to_the_config_directory() {
    assert_eq!(extension_dir_rel("ext"), ".ga4gh/extensions/ext/");
    assert_eq!(extension_library_rel("ext", "libext.so"), ".ga4gh/extensions/ext/libext.so");
    assert_eq!(
        extension_definition_rel("ext"),
        ".ga4gh/extensions/ext/ext.ga4gh-sdk-extension.json"
    );
}

#[test]
fn model_constructors_start_empty() {
    let authorizations = Authorizations::new();
    assert!(authorizations.drs_object_id.is_none());
    assert!(authorizations.supported_types.is_none());
    assert!(authorizations.passport_auth_issuers.is_none());
    assert!(authorizations.bearer_auth_issuers.is_none());

    let organization = ServiceOrganization::new("org".to_string(), "https://org.example".to_string());
    assert_eq!(organization.name, "org");
    assert_eq!(organization.url, "https://org.example");

    let unresolved = UnresolvedInner::new();
    assert!(unresolved.error_code.is_none());
    assert!(unresolved.object_ids.is_none());

    let tool_class = ToolClass::new();
    assert!(tool_class.id.is_none());
    assert!(tool_class.name.is_none());
    assert!(tool_class.description.is_none());

    let error = MyError::new("boom".to_string());
    assert_eq!(error.message, "boom");
}
