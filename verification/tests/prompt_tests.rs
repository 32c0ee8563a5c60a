use doxcer::config::EnvParameters;
use doxcer::definitions::resolve_definitions_block;
use doxcer::prompt::{
    assemble_prompt, build_api_url, build_chat_request, build_prompt, classify_chat_response,
    ChatResponse, Choice, ChoiceMessage, ResponseOutcome,
};

fn prompt_config() -> EnvParameters {
    EnvParameters {
        ai_enabled: true,
        ai_base_url: "https://ai.example".to_string(),
        ai_model: "model".to_string(),
        ai_version: "v1".to_string(),
        ai_task: "task".to_string(),
        akv_enabled: true,
        akv_base_url: "https://vault.example".to_string(),
        akv_secret_ai: "ai-key".to_string(),
        definition_database_enabled: false,
        definition_fabric_database_enabled: false,
        definition_fabric_database: "defs".to_string(),
        akv_secret_definition_fabric_endpoint: "ep".to_string(),
        akv_secret_definition_fabric_client_id: "cid".to_string(),
        akv_secret_definition_fabric_password: "pwd".to_string(),
        definition_azure_database_enabled: false,
        definition_azure_database: "adefs".to_string(),
        akv_secret_definition_azure_endpoint: "aep".to_string(),
        akv_secret_definition_azure_client_id: "acid".to_string(),
        akv_secret_definition_azure_password: "apwd".to_string(),
        odbc_batch_size: 200,
        odbc_max_byte_size: 4096,
    }
}

#[test]
fn assemble_prompt_orders_the_five_sections() {
    let prompt = assemble_prompt("2024-01-02 03:04:05", "Sales.py", "defs", "template", "code");
    assert_eq!(
        prompt,
        "Current date time: 2024-01-02 03:04:05\n\nNotebook filename: Sales.py\n\nDefinitions: defs\n\nDocumentation template: template\n\nCode: code"
    );
}

#[test]
fn assemble_prompt_labels_empty_sections() {
    let prompt = assemble_prompt("", "", "", "", "");
    assert_eq!(
        prompt,
        "Current date time: \n\nNotebook filename: \n\nDefinitions: \n\nDocumentation template: \n\nCode: "
    );
}

#[test]
fn build_prompt_carries_all_sections_around_the_timestamp() {
    let prompt = build_prompt("Sales.py", "the-definitions", "the-template", "the-code");
    assert!(prompt.starts_with("Current date time: "));
    assert!(prompt.contains("\n\nNotebook filename: Sales.py\n\n"));
    assert!(prompt.contains("Definitions: the-definitions\n\n"));
    assert!(prompt.contains("Documentation template: the-template\n\n"));
    assert!(prompt.ends_with("Code: the-code"));
}

#[test]
fn disabled_database_puts_disabled_placeholder_into_prompt() {
    let cfg = prompt_config();
    let block = resolve_definitions_block(&cfg, None).unwrap();
    assert_eq!(block, "[INF] - Definition database disabled.");

    let prompt = assemble_prompt("ts", "Sales.py", &block, "template", "code");
    assert!(prompt.contains("[INF] - Definition database disabled."));
    assert!(!prompt.contains("query returned no rows"));
}

#[test]
fn zero_row_query_puts_no_rows_placeholder_into_prompt() {
    let mut cfg = prompt_config();
    cfg.definition_database_enabled = true;
    cfg.definition_fabric_database_enabled = true;
    let fetched: Result<(Vec<String>, Vec<Vec<String>>), String> =
        Ok((vec!["col".to_string()], Vec::new()));
    let block = resolve_definitions_block(&cfg, Some(&fetched)).unwrap();
    assert_eq!(block, "[INF] - No definitions loaded (query returned no rows).");

    let prompt = assemble_prompt("ts", "Sales.py", &block, "template", "code");
    assert!(prompt.contains("[INF] - No definitions loaded (query returned no rows)."));
    assert!(!prompt.contains("[INF] - Definition database disabled."));
}

#[test]
fn api_url_combines_base_task_and_version() {
    assert_eq!(
        build_api_url("https://ai.example", "chat-task", "2024-01-01"),
        "https://ai.example/models/chat/chat-task?api-version=2024-01-01"
    );
}

#[test]
fn chat_request_carries_system_and_user_messages() {
    let request = build_chat_request(
        "the-model".to_string(),
        "the-context".to_string(),
        "the-prompt".to_string(),
    );
    assert_eq!(request.model, "the-model");
    assert_eq!(request.messages.len(), 2);
    assert_eq!(request.messages[0].role, "system");
    assert_eq!(request.messages[0].content, "the-context");
    assert_eq!(request.messages[1].role, "user");
    assert_eq!(request.messages[1].content, "the-prompt");
}

#[test]
fn response_with_content_is_kept_verbatim() {
    let response = ChatResponse {
        choices: vec![Choice { message: ChoiceMessage { content: " docs ".to_string() } }],
    };
    match classify_chat_response(&response) {
        ResponseOutcome::Content(c) => assert_eq!(c, " docs "),
        other => panic!("unexpected outcome: {:?}", other),
    }
}

#[test]
fn blank_response_content_is_empty() {
    let response = ChatResponse {
        choices: vec![Choice { message: ChoiceMessage { content: " \t\n".to_string() } }],
    };
    assert!(matches!(classify_chat_response(&response), ResponseOutcome::EmptyContent));
}

#[test]
fn response_without_choices_is_reported() {
    let response = ChatResponse { choices: Vec::new() };
    assert!(matches!(classify_chat_response(&response), ResponseOutcome::NoChoices));
}
