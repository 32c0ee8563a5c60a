use doxcer::config::{ai_config_ok, akv_config_ok, EnvParameters};
use doxcer::definitions::{
    build_fabric_connection_string, build_like_pattern, definitions_block_from_fetch,
    fetch_definitions_from_azure, get_azure_definition_db_credentials,
    get_fabric_definition_db_credentials, plan_definitions, resolve_definitions_block,
    AzureDefinitionConfig, ConfigError, DefinitionsPlan,
};

fn base_config() -> EnvParameters {
    EnvParameters {
        ai_enabled: true,
        ai_base_url: "https://ai.example".to_string(),
        ai_model: "model".to_string(),
        ai_version: "v1".to_string(),
        ai_task: "task".to_string(),
        akv_enabled: true,
        akv_base_url: "https://vault.example".to_string(),
        akv_secret_ai: "ai-key".to_string(),
        definition_database_enabled: false,
        definition_fabric_database_enabled: false,
        definition_fabric_database: "defs".to_string(),
        akv_secret_definition_fabric_endpoint: "ep".to_string(),
        akv_secret_definition_fabric_client_id: "cid".to_string(),
        akv_secret_definition_fabric_password: "pwd".to_string(),
        definition_azure_database_enabled: false,
        definition_azure_database: "adefs".to_string(),
        akv_secret_definition_azure_endpoint: "aep".to_string(),
        akv_secret_definition_azure_client_id: "acid".to_string(),
        akv_secret_definition_azure_password: "apwd".to_string(),
        odbc_batch_size: 200,
        odbc_max_byte_size: 4096,
    }
}

#[test]
fn plan_disabled_database_wins_over_backends() {
    let mut cfg = base_config();
    cfg.definition_database_enabled = false;
    cfg.definition_fabric_database_enabled = true;
    cfg.definition_azure_database_enabled = true;
    assert_eq!(plan_definitions(&cfg), DefinitionsPlan::Disabled);
}

#[test]
fn plan_prefers_fabric_over_azure() {
    let mut cfg = base_config();
    cfg.definition_database_enabled = true;
    cfg.definition_fabric_database_enabled = true;
    cfg.definition_azure_database_enabled = true;
    assert_eq!(plan_definitions(&cfg), DefinitionsPlan::QueryFabric);
}

#[test]
fn plan_falls_back_to_azure_when_fabric_config_incomplete() {
    let mut cfg = base_config();
    cfg.definition_database_enabled = true;
    cfg.definition_fabric_database_enabled = true;
    cfg.akv_secret_definition_fabric_password = "   ".to_string();
    cfg.definition_azure_database_enabled = true;
    assert_eq!(plan_definitions(&cfg), DefinitionsPlan::AzureStub);
}

#[test]
fn plan_reports_no_backend_when_nothing_is_usable() {
    let mut cfg = base_config();
    cfg.definition_database_enabled = true;
    assert_eq!(plan_definitions(&cfg), DefinitionsPlan::NoBackend);
}

#[test]
fn resolve_no_backend_is_a_config_error() {
    let mut cfg = base_config();
    cfg.definition_database_enabled = true;
    let err = resolve_definitions_block(&cfg, None).unwrap_err();
    assert_eq!(err, ConfigError::NoDefinitionBackend);
    assert_eq!(err.message(), "[ERR] - No supported definition DB configured");
}

#[test]
fn resolve_azure_stub_yields_stub_placeholder() {
    let mut cfg = base_config();
    cfg.definition_database_enabled = true;
    cfg.definition_azure_database_enabled = true;
    let block = resolve_definitions_block(&cfg, None).unwrap();
    assert_eq!(block, "[INF] - Azure SQL definitions not implemented yet.");
}

#[test]
fn fetch_result_with_rows_renders_table() {
    let fetched = Ok((
        vec!["col".to_string()],
        vec![vec!["val".to_string()]],
    ));
    let block = definitions_block_from_fetch(&fetched);
    assert_eq!(block, "| col |\n| --- |\n| val |\n");
}

#[test]
fn fetch_error_degrades_to_query_failed_placeholder() {
    let fetched = Err("connection refused".to_string());
    let block = definitions_block_from_fetch(&fetched);
    assert_eq!(block, "[INF] - No definitions loaded (query failed).");
}

#[test]
fn fetch_with_columns_but_no_rows_degrades_to_no_rows_placeholder() {
    let fetched = Ok((vec!["col".to_string()], Vec::new()));
    let block = definitions_block_from_fetch(&fetched);
    assert_eq!(block, "[INF] - No definitions loaded (query returned no rows).");
}

#[test]
fn fabric_credentials_require_all_three_secrets() {
    let ok = get_fabric_definition_db_credentials(" host ", "client", "secret").unwrap();
    assert_eq!(ok.fabric_sql_endpoint, "host");
    assert_eq!(ok.fabric_service_principal_client_id, "client");
    assert_eq!(ok.fabric_service_principal_password, "secret");

    let e1 = get_fabric_definition_db_credentials("  ", "client", "secret").unwrap_err();
    assert_eq!(e1, "[INF] - Fabric Definition DB endpoint secret was empty.");
    let e2 = get_fabric_definition_db_credentials("host", "\t", "secret").unwrap_err();
    assert_eq!(e2, "[INF] - Fabric Definition DB client id secret was empty.");
    let e3 = get_fabric_definition_db_credentials("host", "client", "").unwrap_err();
    assert_eq!(e3, "[INF] - Fabric Definition DB password secret was empty.");
}

#[test]
fn azure_credentials_require_all_three_secrets() {
    let ok = get_azure_definition_db_credentials("h", " c ", "p").unwrap();
    assert_eq!(ok.azure_sql_endpoint, "h");
    assert_eq!(ok.azure_service_principal_client_id, "c");
    assert_eq!(ok.azure_service_principal_password, "p");

    let e1 = get_azure_definition_db_credentials(" ", "c", "p").unwrap_err();
    assert_eq!(e1, "[INF] - Azure Definition DB endpoint secret was empty.");
    let e2 = get_azure_definition_db_credentials("h", " ", "p").unwrap_err();
    assert_eq!(e2, "[INF] - Azure Definition DB client id secret was empty.");
    let e3 = get_azure_definition_db_credentials("h", "c", " ").unwrap_err();
    assert_eq!(e3, "[INF] - Azure Definition DB password secret was empty.");
}

#[test]
fn azure_fetch_is_stubbed() {
    let config = AzureDefinitionConfig {
        repo_root: "repo".to_string(),
        akv_base_url: "https://vault.example".to_string(),
        definition_azure_database: "adefs".to_string(),
        akv_secret_definition_azure_endpoint: "aep".to_string(),
        akv_secret_definition_azure_client_id: "acid".to_string(),
        akv_secret_definition_azure_password: "apwd".to_string(),
        odbc_batch_size: 200,
        odbc_max_byte_size: 4096,
    };
    let err = fetch_definitions_from_azure("Sales", &config).unwrap_err();
    assert_eq!(err, "[ERR] - Azure SQL definitions fetch is not implemented yet.");
}

#[test]
fn fabric_connection_string_has_expected_layout() {
    let conn = build_fabric_connection_string(" host.example ", "defs", " client ", " pw ");
    assert_eq!(
        conn,
        "Driver={ODBC Driver 18 for SQL Server};Server=tcp:host.example,1433;Database=defs;Encrypt=yes;TrustServerCertificate=yes;Authentication=ActiveDirectoryServicePrincipal;UID=client;PWD=pw;"
    );
}

#[test]
fn like_pattern_appends_wildcard() {
    assert_eq!(build_like_pattern("Sales"), "Sales%");
}

#[test]
fn config_checks_reject_blank_values() {
    let good = base_config();
    assert!(ai_config_ok(&good));
    assert!(akv_config_ok(&good));

    let mut no_ai = base_config();
    no_ai.ai_enabled = false;
    assert!(!ai_config_ok(&no_ai));

    let mut blank_model = base_config();
    blank_model.ai_model = "  ".to_string();
    assert!(!ai_config_ok(&blank_model));

    let mut blank_vault = base_config();
    blank_vault.akv_base_url = "".to_string();
    assert!(!akv_config_ok(&blank_vault));
}
