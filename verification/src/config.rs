//! Runtime configuration: the values read once from the layered
//! environment files, and the checks the run performs on them before any
//! network work.

use vstd::prelude::*;

use crate::text::{is_blank, is_blank_str};

verus! {

/// The configuration read from the environment files, held as one
/// immutable structure for the whole run.
pub struct EnvParameters {
    // AI model
    pub ai_enabled: bool,
    pub ai_base_url: String,
    pub ai_model: String,
    pub ai_version: String,
    pub ai_task: String,
    // Key vault
    pub akv_enabled: bool,
    pub akv_base_url: String,
    pub akv_secret_ai: String,
    // Definitions database
    pub definition_database_enabled: bool,
    // Primary (Fabric) definitions backend
    pub definition_fabric_database_enabled: bool,
    pub definition_fabric_database: String,
    pub akv_secret_definition_fabric_endpoint: String,
    pub akv_secret_definition_fabric_client_id: String,
    pub akv_secret_definition_fabric_password: String,
    // Secondary (Azure) definitions backend
    pub definition_azure_database_enabled: bool,
    pub definition_azure_database: String,
    pub akv_secret_definition_azure_endpoint: String,
    pub akv_secret_definition_azure_client_id: String,
    pub akv_secret_definition_azure_password: String,
    // Database fetch sizing
    pub odbc_batch_size: usize,
    pub odbc_max_byte_size: usize,
}

/// The AI model configuration is usable: enabled, with no required value
/// blank.
pub open spec fn spec_ai_config_ok(cfg: &EnvParameters) -> bool {
    &&& cfg.ai_enabled
    &&& !is_blank(cfg.ai_base_url@)
    &&& !is_blank(cfg.ai_version@)
    &&& !is_blank(cfg.ai_task@)
    &&& !is_blank(cfg.ai_model@)
}

/// Checks the AI model configuration, exactly as `spec_ai_config_ok`.
pub fn ai_config_ok(cfg: &EnvParameters) -> (r: bool)
    ensures
        r == spec_ai_config_ok(cfg),
{
    cfg.ai_enabled && !is_blank_str(cfg.ai_base_url.as_str()) && !is_blank_str(
        cfg.ai_version.as_str(),
    ) && !is_blank_str(cfg.ai_task.as_str()) && !is_blank_str(cfg.ai_model.as_str())
}

/// The key vault configuration is usable: enabled, with no required value
/// blank.
pub open spec fn spec_akv_config_ok(cfg: &EnvParameters) -> bool {
    &&& cfg.akv_enabled
    &&& !is_blank(cfg.akv_base_url@)
    &&& !is_blank(cfg.akv_secret_ai@)
}

/// Checks the key vault configuration, exactly as `spec_akv_config_ok`.
pub fn akv_config_ok(cfg: &EnvParameters) -> (r: bool)
    ensures
        r == spec_akv_config_ok(cfg),
{
    cfg.akv_enabled && !is_blank_str(cfg.akv_base_url.as_str()) && !is_blank_str(
        cfg.akv_secret_ai.as_str(),
    )
}

} // verus!
