//! The definitions resolver: which backend serves the definitions lookup,
//! how its credentials are validated, and what text stands in for the
//! table when the lookup is disabled, empty, failing, or unimplemented.

use vstd::prelude::*;

use crate::config::EnvParameters;
use crate::markdown::{format_definitions_as_markdown_table, spec_markdown_table};
use crate::text::{is_blank, is_blank_str, trim_str, trimmed};

verus! {

/// Settings the primary (Fabric) definitions lookup runs with.
pub struct FabricDefinitionConfig {
    pub repo_root: String,
    pub akv_base_url: String,
    pub definition_fabric_database: String,
    pub akv_secret_definition_fabric_endpoint: String,
    pub akv_secret_definition_fabric_client_id: String,
    pub akv_secret_definition_fabric_password: String,
    pub odbc_batch_size: usize,
    pub odbc_max_byte_size: usize,
}

/// Settings the secondary (Azure) definitions lookup would run with.
pub struct AzureDefinitionConfig {
    pub repo_root: String,
    pub akv_base_url: String,
    pub definition_azure_database: String,
    pub akv_secret_definition_azure_endpoint: String,
    pub akv_secret_definition_azure_client_id: String,
    pub akv_secret_definition_azure_password: String,
    pub odbc_batch_size: usize,
    pub odbc_max_byte_size: usize,
}

/// Validated credentials for the primary backend.
#[derive(Debug)]
pub struct DefinitionFabricDbCredentials {
    pub fabric_sql_endpoint: String,
    pub fabric_service_principal_client_id: String,
    pub fabric_service_principal_password: String,
}

/// Validated credentials for the secondary backend.
#[derive(Debug)]
pub struct DefinitionAzureDbCredentials {
    pub azure_sql_endpoint: String,
    pub azure_service_principal_client_id: String,
    pub azure_service_principal_password: String,
}

/// Builds the primary backend's credential bundle from the three secret
/// values the caller retrieved. Succeeds exactly when none is blank; each
/// stored value is the trimmed secret. A blank secret yields the message
/// for the first one found blank, in endpoint, client id, password order.
pub fn get_fabric_definition_db_credentials(
    endpoint_secret: &str,
    client_id_secret: &str,
    password_secret: &str,
) -> (r: Result<DefinitionFabricDbCredentials, String>)
    ensures
        (match r {
            Ok(c) => {
                &&& !is_blank(endpoint_secret@)
                &&& !is_blank(client_id_secret@)
                &&& !is_blank(password_secret@)
                &&& c.fabric_sql_endpoint@ == trimmed(endpoint_secret@)
                &&& c.fabric_service_principal_client_id@ == trimmed(client_id_secret@)
                &&& c.fabric_service_principal_password@ == trimmed(password_secret@)
            },
            Err(m) => {
                if is_blank(endpoint_secret@) {
                    m@ == "[INF] - Fabric Definition DB endpoint secret was empty."@
                } else if is_blank(client_id_secret@) {
                    m@ == "[INF] - Fabric Definition DB client id secret was empty."@
                } else {
                    &&& is_blank(password_secret@)
                    &&& m@ == "[INF] - Fabric Definition DB password secret was empty."@
                }
            },
        }),
{
    if is_blank_str(endpoint_secret) {
        return Err(String::from_str("[INF] - Fabric Definition DB endpoint secret was empty."));
    }
    if is_blank_str(client_id_secret) {
        return Err(String::from_str("[INF] - Fabric Definition DB client id secret was empty."));
    }
    if is_blank_str(password_secret) {
        return Err(String::from_str("[INF] - Fabric Definition DB password secret was empty."));
    }
    Ok(DefinitionFabricDbCredentials {
        fabric_sql_endpoint: trim_str(endpoint_secret),
        fabric_service_principal_client_id: trim_str(client_id_secret),
        fabric_service_principal_password: trim_str(password_secret),
    })
}

/// Builds the secondary backend's credential bundle from the three secret
/// values the caller retrieved, with the same shape as the primary one.
pub fn get_azure_definition_db_credentials(
    endpoint_secret: &str,
    client_id_secret: &str,
    password_secret: &str,
) -> (r: Result<DefinitionAzureDbCredentials, String>)
    ensures
        (match r {
            Ok(c) => {
                &&& !is_blank(endpoint_secret@)
                &&& !is_blank(client_id_secret@)
                &&& !is_blank(password_secret@)
                &&& c.azure_sql_endpoint@ == trimmed(endpoint_secret@)
                &&& c.azure_service_principal_client_id@ == trimmed(client_id_secret@)
                &&& c.azure_service_principal_password@ == trimmed(password_secret@)
            },
            Err(m) => {
                if is_blank(endpoint_secret@) {
                    m@ == "[INF] - Azure Definition DB endpoint secret was empty."@
                } else if is_blank(client_id_secret@) {
                    m@ == "[INF] - Azure Definition DB client id secret was empty."@
                } else {
                    &&& is_blank(password_secret@)
                    &&& m@ == "[INF] - Azure Definition DB password secret was empty."@
                }
            },
        }),
{
    if is_blank_str(endpoint_secret) {
        return Err(String::from_str("[INF] - Azure Definition DB endpoint secret was empty."));
    }
    if is_blank_str(client_id_secret) {
        return Err(String::from_str("[INF] - Azure Definition DB client id secret was empty."));
    }
    if is_blank_str(password_secret) {
        return Err(String::from_str("[INF] - Azure Definition DB password secret was empty."));
    }
    Ok(DefinitionAzureDbCredentials {
        azure_sql_endpoint: trim_str(endpoint_secret),
        azure_service_principal_client_id: trim_str(client_id_secret),
        azure_service_principal_password: trim_str(password_secret),
    })
}

/// The secondary backend is a stub: every fetch fails with the fixed
/// message.
pub fn fetch_definitions_from_azure(_table_prefix: &str, _config: &AzureDefinitionConfig) -> (r:
    Result<(Vec<String>, Vec<Vec<String>>), String>)
    ensures
        (match r {
            Ok(_) => false,
            Err(m) => m@ == "[ERR] - Azure SQL definitions fetch is not implemented yet."@,
        }),
{
    Err(String::from_str("[ERR] - Azure SQL definitions fetch is not implemented yet."))
}

/// The connection string for the primary backend, from its endpoint,
/// database name and service principal; endpoint and principal values are
/// trimmed into place.
pub fn build_fabric_connection_string(
    endpoint: &str,
    database: &str,
    client_id: &str,
    password: &str,
) -> (r: String)
    ensures
        r@ == "Driver={ODBC Driver 18 for SQL Server};Server=tcp:"@ + trimmed(endpoint@)
            + ",1433;Database="@ + database@
            + ";Encrypt=yes;TrustServerCertificate=yes;Authentication=ActiveDirectoryServicePrincipal;UID="@
            + trimmed(client_id@) + ";PWD="@ + trimmed(password@) + ";"@,
{
    let mut r = String::from_str("Driver={ODBC Driver 18 for SQL Server};Server=tcp:");
    let endpoint_trimmed = trim_str(endpoint);
    r.append(endpoint_trimmed.as_str());
    r.append(",1433;Database=");
    r.append(database);
    r.append(";Encrypt=yes;TrustServerCertificate=yes;Authentication=ActiveDirectoryServicePrincipal;UID=");
    let client_id_trimmed = trim_str(client_id);
    r.append(client_id_trimmed.as_str());
    r.append(";PWD=");
    let password_trimmed = trim_str(password);
    r.append(password_trimmed.as_str());
    r.append(";");
    proof {
        assert(r@ =~= "Driver={ODBC Driver 18 for SQL Server};Server=tcp:"@ + trimmed(endpoint@)
            + ",1433;Database="@ + database@
            + ";Encrypt=yes;TrustServerCertificate=yes;Authentication=ActiveDirectoryServicePrincipal;UID="@
            + trimmed(client_id@) + ";PWD="@ + trimmed(password@) + ";"@);
    }
    r
}

/// The LIKE pattern for the definitions query: the output stem followed
/// by the wildcard.
pub fn build_like_pattern(table_prefix: &str) -> (r: String)
    ensures
        r@ == table_prefix@ + "%"@,
{
    let mut r = String::from_str(table_prefix);
    r.append("%");
    r
}

/// Which way the definitions block is produced for a run.
#[derive(Clone, Copy, Debug, PartialEq, Eq, Structural)]
pub enum DefinitionsPlan {
    /// The definitions database is disabled: a placeholder stands in.
    Disabled,
    /// The primary backend is enabled and fully configured: query it.
    QueryFabric,
    /// Only the secondary backend is enabled: its stub placeholder
    /// stands in.
    AzureStub,
    /// The database is enabled but no backend is usable: the run aborts.
    NoBackend,
}

/// A configuration failure that aborts the run.
#[derive(Clone, Copy, Debug, PartialEq, Eq, Structural)]
pub enum ConfigError {
    NoDefinitionBackend,
}

impl ConfigError {
    /// The message reported for this failure.
    pub fn message(&self) -> (r: String)
        ensures
            r@ == "[ERR] - No supported definition DB configured"@,
    {
        String::from_str("[ERR] - No supported definition DB configured")
    }
}

/// The primary backend is enabled with its database name and all three
/// secret names present.
pub open spec fn spec_fabric_config_ok(cfg: &EnvParameters) -> bool {
    &&& cfg.definition_fabric_database_enabled
    &&& !is_blank(cfg.akv_secret_definition_fabric_endpoint@)
    &&& !is_blank(cfg.akv_secret_definition_fabric_client_id@)
    &&& !is_blank(cfg.akv_secret_definition_fabric_password@)
    &&& !is_blank(cfg.definition_fabric_database@)
}

/// The fixed decision order: disabled wins, then the fully configured
/// primary backend, then the enabled secondary backend, else no backend.
pub open spec fn spec_definitions_plan(cfg: &EnvParameters) -> DefinitionsPlan {
    if !cfg.definition_database_enabled {
        DefinitionsPlan::Disabled
    } else if spec_fabric_config_ok(cfg) {
        DefinitionsPlan::QueryFabric
    } else if cfg.definition_azure_database_enabled {
        DefinitionsPlan::AzureStub
    } else {
        DefinitionsPlan::NoBackend
    }
}

/// Decides how the definitions block will be produced, exactly as
/// `spec_definitions_plan` orders the cases.
pub fn plan_definitions(cfg: &EnvParameters) -> (r: DefinitionsPlan)
    ensures
        r == spec_definitions_plan(cfg),
{
    if !cfg.definition_database_enabled {
        DefinitionsPlan::Disabled
    } else if cfg.definition_fabric_database_enabled && !is_blank_str(
        cfg.akv_secret_definition_fabric_endpoint.as_str(),
    ) && !is_blank_str(cfg.akv_secret_definition_fabric_client_id.as_str()) && !is_blank_str(
        cfg.akv_secret_definition_fabric_password.as_str(),
    ) && !is_blank_str(cfg.definition_fabric_database.as_str()) {
        DefinitionsPlan::QueryFabric
    } else if cfg.definition_azure_database_enabled {
        DefinitionsPlan::AzureStub
    } else {
        DefinitionsPlan::NoBackend
    }
}

/// The placeholder standing in when the definitions database is disabled.
pub open spec fn disabled_placeholder() -> Seq<char> {
    "[INF] - Definition database disabled."@
}

/// The placeholder standing in when the query returned no rows.
pub open spec fn no_rows_placeholder() -> Seq<char> {
    "[INF] - No definitions loaded (query returned no rows)."@
}

/// The placeholder standing in when the query failed.
pub open spec fn query_failed_placeholder() -> Seq<char> {
    "[INF] - No definitions loaded (query failed)."@
}

/// The placeholder standing in for the stubbed secondary backend.
pub open spec fn azure_stub_placeholder() -> Seq<char> {
    "[INF] - Azure SQL definitions not implemented yet."@
}

/// What the definitions block is once the primary query has run: the
/// rendered table when it produced columns and rows, the no-rows
/// placeholder when either is missing, the failure placeholder when the
/// query failed. Neither failure nor emptiness aborts the run.
pub fn definitions_block_from_fetch(fetched: &Result<(Vec<String>, Vec<Vec<String>>), String>) -> (
    r: String)
    ensures
        (match fetched {
            Ok(pair) => {
                if pair.0@.len() > 0 && pair.1@.len() > 0 {
                    r@ == spec_markdown_table(pair.0.deep_view(), pair.1.deep_view())
                } else {
                    r@ == no_rows_placeholder()
                }
            },
            Err(_) => r@ == query_failed_placeholder(),
        }),
{
    match fetched {
        Ok(pair) => {
            if pair.0.len() > 0 && pair.1.len() > 0 {
                format_definitions_as_markdown_table(pair.0.as_slice(), pair.1.as_slice())
            } else {
                String::from_str("[INF] - No definitions loaded (query returned no rows).")
            }
        },
        Err(_) => String::from_str("[INF] - No definitions loaded (query failed)."),
    }
}

/// The definitions block for a run, total over the configuration space.
/// The caller plans first and queries the primary backend only when the
/// plan says so, handing the outcome in; every other plan needs none.
/// Only an enabled database with no usable backend fails.
pub fn resolve_definitions_block(
    cfg: &EnvParameters,
    fabric_result: Option<&Result<(Vec<String>, Vec<Vec<String>>), String>>,
) -> (r: Result<String, ConfigError>)
    requires
        (spec_definitions_plan(cfg) == DefinitionsPlan::QueryFabric) <==> fabric_result is Some,
    ensures
        (match spec_definitions_plan(cfg) {
            DefinitionsPlan::Disabled => r matches Ok(b) && b@ == disabled_placeholder(),
            DefinitionsPlan::QueryFabric => r matches Ok(b) && (match fabric_result->0 {
                Ok(pair) => {
                    if pair.0@.len() > 0 && pair.1@.len() > 0 {
                        b@ == spec_markdown_table(pair.0.deep_view(), pair.1.deep_view())
                    } else {
                        b@ == no_rows_placeholder()
                    }
                },
                Err(_) => b@ == query_failed_placeholder(),
            }),
            DefinitionsPlan::AzureStub => r matches Ok(b) && b@ == azure_stub_placeholder(),
            DefinitionsPlan::NoBackend => r matches Err(e) && e == ConfigError::NoDefinitionBackend,
        }),
{
    let plan = plan_definitions(cfg);
    match plan {
        DefinitionsPlan::Disabled => Ok(String::from_str("[INF] - Definition database disabled.")),
        DefinitionsPlan::QueryFabric => {
            match fabric_result {
                Some(fetched) => Ok(definitions_block_from_fetch(fetched)),
                None => {
                    proof {
                        assert(false);
                    }
                    Err(ConfigError::NoDefinitionBackend)
                },
            }
        },
        DefinitionsPlan::AzureStub => Ok(
            String::from_str("[INF] - Azure SQL definitions not implemented yet."),
        ),
        DefinitionsPlan::NoBackend => Err(ConfigError::NoDefinitionBackend),
    }
}

} // verus!
