use doxcer::paths::{
    determine_output_names, find_azure_sql_path, find_context_path, find_docs_path,
    find_env_paths, find_fabric_sql_path, find_prompt_path, find_repo_root_in_ancestors,
    has_repo_markers, parse_system_env_absolute_path, AncestorProbe,
};
use doxcer::profiles::PromptProfile;

#[test]
fn determine_output_names_for_standard_file() {
    let (name, ext_name) = determine_output_names("x/y/pipeline.py");
    assert_eq!(name, "pipeline");
    assert_eq!(ext_name, "pipeline.py");
}

#[test]
fn determine_output_names_for_notebook_content_uses_parent_folder_name() {
    let (name, ext_name) = determine_output_names("Sales.Notebook/notebook-content.py");
    assert_eq!(name, "Sales");
    assert_eq!(ext_name, "Sales.py");
}

#[test]
fn determine_output_names_for_root_notebook_content_uses_fallback() {
    let (name, ext_name) = determine_output_names("notebook-content.py");
    assert_eq!(name, "notebook-content");
    assert_eq!(ext_name, "notebook-content.py");
}

#[test]
fn determine_output_names_strips_repeated_notebook_suffix() {
    let (name, ext_name) = determine_output_names("Sales.Notebook.Notebook/notebook-content.py");
    assert_eq!(name, "Sales");
    assert_eq!(ext_name, "Sales.py");
}

#[test]
fn determine_output_names_keeps_dotted_stem() {
    let (name, ext_name) = determine_output_names("a/b.c.d.py");
    assert_eq!(name, "b.c.d");
    assert_eq!(ext_name, "b.c.d.py");
}

#[test]
fn find_env_paths_returns_expected_files_in_order() {
    let env_paths = find_env_paths("repo");
    let names: Vec<String> = env_paths
        .iter()
        .map(|p| p.rsplit('/').next().unwrap().to_string())
        .collect();

    assert_eq!(
        names,
        vec![
            "system.env".to_string(),
            "definitions.env".to_string(),
            "azure_key_vault.env".to_string(),
            "ai_model.env".to_string()
        ]
    );
}

#[test]
fn find_prompt_path_finds_existing_profile_prompt() {
    let path = find_prompt_path("repo", PromptProfile::Fabric, true);
    assert_eq!(path.rsplit('/').next().unwrap(), "fabric_prompt.md");
    assert_eq!(
        find_prompt_path("repo", PromptProfile::Fabric, false),
        "repo/templates/default_prompt.md"
    );
}

#[test]
fn find_context_and_docs_paths_point_to_expected_locations() {
    let context_path = find_context_path("repo");
    assert_eq!(context_path.rsplit('/').next().unwrap(), "context.md");
    assert_eq!(context_path, "repo/templates/context.md");

    let docs_path = find_docs_path("repo");
    assert_eq!(docs_path.rsplit('/').next().unwrap(), "newly-documented");
    assert_eq!(docs_path, "repo/docs/newly-documented");
}

#[test]
fn sql_paths_point_into_sql_directory() {
    assert_eq!(
        find_fabric_sql_path("repo"),
        "repo/sql/fetch_fabric_definitions.sql"
    );
    assert_eq!(
        find_azure_sql_path("repo"),
        "repo/sql/fetch_azure_definitions.sql"
    );
}

#[test]
fn has_repo_markers_requires_all_three() {
    assert!(has_repo_markers(true, true, true));
    assert!(!has_repo_markers(false, true, true));
    assert!(!has_repo_markers(true, false, true));
    assert!(!has_repo_markers(true, true, false));
}

#[test]
fn find_repo_root_prefers_direct_markers_in_order() {
    let probes = vec![
        AncestorProbe {
            path: "/a/b".to_string(),
            has_markers: false,
            mapped_root: None,
            mapped_root_has_markers: false,
        },
        AncestorProbe {
            path: "/a".to_string(),
            has_markers: true,
            mapped_root: None,
            mapped_root_has_markers: false,
        },
    ];
    assert_eq!(find_repo_root_in_ancestors(&probes), Some("/a".to_string()));
}

#[test]
fn find_repo_root_uses_mapped_root_when_it_has_markers() {
    let probes = vec![AncestorProbe {
        path: "/a/b".to_string(),
        has_markers: false,
        mapped_root: Some("/repo".to_string()),
        mapped_root_has_markers: true,
    }];
    assert_eq!(find_repo_root_in_ancestors(&probes), Some("/repo".to_string()));
}

#[test]
fn find_repo_root_reports_nothing_without_markers() {
    let probes = vec![AncestorProbe {
        path: "/a".to_string(),
        has_markers: false,
        mapped_root: Some("/bad".to_string()),
        mapped_root_has_markers: false,
    }];
    assert_eq!(find_repo_root_in_ancestors(&probes), None);
}

#[test]
fn parse_system_env_extracts_quoted_value() {
    let content = "# mapping\n\nABSOLUTE_DOXCER_PATH=\"/srv/doxcer\"\nOTHER=1";
    assert_eq!(
        parse_system_env_absolute_path(content),
        Some("/srv/doxcer".to_string())
    );
}

#[test]
fn parse_system_env_skips_comments_and_blank_values() {
    assert_eq!(parse_system_env_absolute_path("# ABSOLUTE_DOXCER_PATH=/x"), None);
    assert_eq!(parse_system_env_absolute_path("ABSOLUTE_DOXCER_PATH=\"\""), None);
    assert_eq!(parse_system_env_absolute_path("UNRELATED=1"), None);
    assert_eq!(
        parse_system_env_absolute_path("ABSOLUTE_DOXCER_PATH='/x y'"),
        Some("/x y".to_string())
    );
}
