use doxcer::cli::parse_cli_args;
use doxcer::profiles::{
    parse_profile_selector, profile_selector_name, prompt_profile_spec, supported_selector_list,
    PromptProfile,
};

fn make_args(raw: &[&str]) -> Vec<String> {
    raw.iter().map(|v| v.to_string()).collect()
}

#[test]
fn parse_no_flag_selects_default_prompt() {
    let parsed = parse_cli_args(&make_args(&["doxcer", "test/example.py"])).unwrap();
    assert_eq!(parsed.file_path, "test/example.py");
    assert_eq!(parsed.profile, PromptProfile::Default);
}

#[test]
fn parse_fabric_flag() {
    let parsed = parse_cli_args(&make_args(&["doxcer", "-fabric", "test/example.py"])).unwrap();
    assert_eq!(parsed.file_path, "test/example.py");
    assert_eq!(parsed.profile, PromptProfile::Fabric);
}

#[test]
fn parse_synapse_flag() {
    let parsed = parse_cli_args(&make_args(&["doxcer", "-synapse", "test/example.py"])).unwrap();
    assert_eq!(parsed.file_path, "test/example.py");
    assert_eq!(parsed.profile, PromptProfile::Synapse);
}

#[test]
fn parse_databricks_flag() {
    let parsed = parse_cli_args(&make_args(&["doxcer", "-databricks", "test/example.py"])).unwrap();
    assert_eq!(parsed.file_path, "test/example.py");
    assert_eq!(parsed.profile, PromptProfile::Databricks);
}

#[test]
fn parse_powerbi_flag() {
    let parsed = parse_cli_args(&make_args(&["doxcer", "-powerbi", "test/example.py"])).unwrap();
    assert_eq!(parsed.file_path, "test/example.py");
    assert_eq!(parsed.profile, PromptProfile::PowerBi);
}

#[test]
fn parse_aws_flag() {
    let parsed = parse_cli_args(&make_args(&["doxcer", "-aws", "test/example.py"])).unwrap();
    assert_eq!(parsed.file_path, "test/example.py");
    assert_eq!(parsed.profile, PromptProfile::Aws);
}

#[test]
fn parse_datafactory_flag() {
    let parsed = parse_cli_args(&make_args(&["doxcer", "-datafactory", "test/example.py"])).unwrap();
    assert_eq!(parsed.file_path, "test/example.py");
    assert_eq!(parsed.profile, PromptProfile::DataFactory);
}

#[test]
fn parse_accepts_any_argument_order() {
    let parsed = parse_cli_args(&make_args(&["doxcer", "test/example.py", "-fabric"])).unwrap();
    assert_eq!(parsed.file_path, "test/example.py");
    assert_eq!(parsed.profile, PromptProfile::Fabric);
}

#[test]
fn parse_conflicting_selectors_fail() {
    let err = parse_cli_args(&make_args(&["doxcer", "-fabric", "test/example.py", "-synapse"]))
        .unwrap_err();
    assert!(err.contains("Conflicting selectors"));
}

#[test]
fn parse_unknown_selector_fails() {
    let err = parse_cli_args(&make_args(&["doxcer", "-unknown", "test/example.py"])).unwrap_err();
    assert!(err.contains("Unknown selector"));
}

#[test]
fn parse_double_dash_selector_fails() {
    let err = parse_cli_args(&make_args(&["doxcer", "--fabric", "test/example.py"])).unwrap_err();
    assert!(err.contains("Unknown selector"));
}

#[test]
fn supported_selector_list_uses_canonical_only() {
    let supported = supported_selector_list();
    assert_eq!(
        supported,
        "-fabric, -synapse, -databricks, -powerbi, -aws, -datafactory"
    );
}

#[test]
fn parse_missing_path_fails() {
    let err = parse_cli_args(&make_args(&["doxcer", "-fabric"])).unwrap_err();
    assert!(err.contains("Missing required notebook path argument"));
}

#[test]
fn parse_multiple_paths_fail() {
    let err = parse_cli_args(&make_args(&["doxcer", "test/a.py", "test/b.py"])).unwrap_err();
    assert!(err.contains("Multiple input paths"));
}

#[test]
fn parse_profile_selector_accepts_known_values() {
    assert_eq!(parse_profile_selector("-fabric"), Some(PromptProfile::Fabric));
    assert_eq!(parse_profile_selector("-datafactory"), Some(PromptProfile::DataFactory));
}

#[test]
fn parse_profile_selector_returns_none_for_unknown_value() {
    assert_eq!(parse_profile_selector("-not-a-selector"), None);
}

#[test]
fn profile_selector_name_maps_to_canonical_name() {
    assert_eq!(profile_selector_name(PromptProfile::Default), "default");
    assert_eq!(profile_selector_name(PromptProfile::Synapse), "synapse");
    assert_eq!(profile_selector_name(PromptProfile::DataFactory), "datafactory");
}

#[test]
fn prompt_profile_spec_returns_expected_datafactory_metadata() {
    let spec = prompt_profile_spec(PromptProfile::DataFactory);
    assert_eq!(spec.template_stem, "datafactory");
    assert!(spec.selector_flags.iter().any(|s| s == "-datafactory"));
}

#[test]
fn parse_repeated_identical_selectors_do_not_conflict() {
    let parsed =
        parse_cli_args(&make_args(&["doxcer", "-fabric", "test/example.py", "-fabric"])).unwrap();
    assert_eq!(parsed.file_path, "test/example.py");
    assert_eq!(parsed.profile, PromptProfile::Fabric);
}

#[test]
fn parse_conflict_message_names_both_profiles() {
    let err = parse_cli_args(&make_args(&["doxcer", "-aws", "-powerbi"])).unwrap_err();
    assert_eq!(
        err,
        "[ERR] - Conflicting selectors: both 'aws' and 'powerbi' were provided."
    );
}

#[test]
fn parse_unknown_selector_lists_supported_selectors() {
    let err = parse_cli_args(&make_args(&["doxcer", "-oracle", "x.py"])).unwrap_err();
    assert_eq!(
        err,
        "[ERR] - Unknown selector '-oracle'. Supported selectors: -fabric, -synapse, -databricks, -powerbi, -aws, -datafactory."
    );
}

#[test]
fn parse_empty_args_fail() {
    let err = parse_cli_args(&make_args(&[])).unwrap_err();
    assert_eq!(err, "[ERR] - Missing executable name.");
}

#[test]
fn parse_empty_token_is_a_path() {
    let parsed = parse_cli_args(&make_args(&["doxcer", ""])).unwrap();
    assert_eq!(parsed.file_path, "");
    assert_eq!(parsed.profile, PromptProfile::Default);
}
