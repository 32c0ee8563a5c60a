//! The documentation-profile registry: the closed set of profiles, their
//! canonical names, CLI selector tokens and template filename stems.

use vstd::prelude::*;

verus! {

/// The supported documentation profiles. `Default` is selected when no
/// selector token is given on the command line.
#[derive(Clone, Copy, Debug, PartialEq, Eq, Structural)]
pub enum PromptProfile {
    Default,
    Fabric,
    Synapse,
    Databricks,
    PowerBi,
    Aws,
    DataFactory,
}

/// Canonical name of a profile, as shown in messages.
pub open spec fn spec_profile_name(p: PromptProfile) -> Seq<char> {
    match p {
        PromptProfile::Default => "default"@,
        PromptProfile::Fabric => "fabric"@,
        PromptProfile::Synapse => "synapse"@,
        PromptProfile::Databricks => "databricks"@,
        PromptProfile::PowerBi => "powerbi"@,
        PromptProfile::Aws => "aws"@,
        PromptProfile::DataFactory => "datafactory"@,
    }
}

/// Filename stem of the prompt template that a profile selects.
pub open spec fn spec_template_stem(p: PromptProfile) -> Seq<char> {
    spec_profile_name(p)
}

/// The selector tokens that pick a profile on the command line. `Default`
/// has none; every other profile has exactly one.
pub open spec fn spec_selector_flags(p: PromptProfile) -> Seq<Seq<char>> {
    match p {
        PromptProfile::Default => Seq::empty(),
        PromptProfile::Fabric => seq!["-fabric"@],
        PromptProfile::Synapse => seq!["-synapse"@],
        PromptProfile::Databricks => seq!["-databricks"@],
        PromptProfile::PowerBi => seq!["-powerbi"@],
        PromptProfile::Aws => seq!["-aws"@],
        PromptProfile::DataFactory => seq!["-datafactory"@],
    }
}

/// Which profile a raw CLI token selects, if any.
pub open spec fn spec_selector_to_profile(tok: Seq<char>) -> Option<PromptProfile> {
    if tok == "-fabric"@ {
        Some(PromptProfile::Fabric)
    } else if tok == "-synapse"@ {
        Some(PromptProfile::Synapse)
    } else if tok == "-databricks"@ {
        Some(PromptProfile::Databricks)
    } else if tok == "-powerbi"@ {
        Some(PromptProfile::PowerBi)
    } else if tok == "-aws"@ {
        Some(PromptProfile::Aws)
    } else if tok == "-datafactory"@ {
        Some(PromptProfile::DataFactory)
    } else {
        None
    }
}

/// The supported selectors rendered for display: the first selector token
/// of each profile that has one, comma-joined in registry order.
pub open spec fn spec_supported_selector_list() -> Seq<char> {
    "-fabric"@ + ", "@ + "-synapse"@ + ", "@ + "-databricks"@ + ", "@ + "-powerbi"@ + ", "@
        + "-aws"@ + ", "@ + "-datafactory"@
}

/// One registry entry: a profile together with its display metadata.
pub struct PromptProfileSpec {
    pub profile: PromptProfile,
    pub name: String,
    pub selector_flags: Vec<String>,
    pub template_stem: String,
}

/// Registry lookup by profile. Total: every profile has an entry.
pub fn prompt_profile_spec(profile: PromptProfile) -> (s: PromptProfileSpec)
    ensures
        s.profile == profile,
        s.name@ == spec_profile_name(profile),
        s.template_stem@ == spec_template_stem(profile),
        s.selector_flags.deep_view() == spec_selector_flags(profile),
{
    let name = profile_selector_name(profile);
    let template_stem = profile_selector_name(profile);
    let selector_flags: Vec<String> = match profile {
        PromptProfile::Default => Vec::new(),
        PromptProfile::Fabric => vec![String::from_str("-fabric")],
        PromptProfile::Synapse => vec![String::from_str("-synapse")],
        PromptProfile::Databricks => vec![String::from_str("-databricks")],
        PromptProfile::PowerBi => vec![String::from_str("-powerbi")],
        PromptProfile::Aws => vec![String::from_str("-aws")],
        PromptProfile::DataFactory => vec![String::from_str("-datafactory")],
    };
    proof {
        assert(selector_flags.deep_view() =~= spec_selector_flags(profile));
    }
    PromptProfileSpec { profile, name, selector_flags, template_stem }
}

/// Which profile a raw CLI token selects, if any.
pub fn parse_profile_selector(arg: &str) -> (r: Option<PromptProfile>)
    ensures
        r == spec_selector_to_profile(arg@),
{
    if crate::text::str_eq(arg, "-fabric") {
        Some(PromptProfile::Fabric)
    } else if crate::text::str_eq(arg, "-synapse") {
        Some(PromptProfile::Synapse)
    } else if crate::text::str_eq(arg, "-databricks") {
        Some(PromptProfile::Databricks)
    } else if crate::text::str_eq(arg, "-powerbi") {
        Some(PromptProfile::PowerBi)
    } else if crate::text::str_eq(arg, "-aws") {
        Some(PromptProfile::Aws)
    } else if crate::text::str_eq(arg, "-datafactory") {
        Some(PromptProfile::DataFactory)
    } else {
        None
    }
}

/// Canonical name of a profile.
pub fn profile_selector_name(profile: PromptProfile) -> (r: String)
    ensures
        r@ == spec_profile_name(profile),
{
    match profile {
        PromptProfile::Default => String::from_str("default"),
        PromptProfile::Fabric => String::from_str("fabric"),
        PromptProfile::Synapse => String::from_str("synapse"),
        PromptProfile::Databricks => String::from_str("databricks"),
        PromptProfile::PowerBi => String::from_str("powerbi"),
        PromptProfile::Aws => String::from_str("aws"),
        PromptProfile::DataFactory => String::from_str("datafactory"),
    }
}

/// The comma-joined display list of supported selectors.
pub fn supported_selector_list() -> (r: String)
    ensures
        r@ == spec_supported_selector_list(),
{
    let mut r = String::from_str("-fabric");
    r.append(", ");
    r.append("-synapse");
    r.append(", ");
    r.append("-databricks");
    r.append(", ");
    r.append("-powerbi");
    r.append(", ");
    r.append("-aws");
    r.append(", ");
    r.append("-datafactory");
    proof {
        assert(r@ =~= spec_supported_selector_list());
    }
    r
}

} // verus!
