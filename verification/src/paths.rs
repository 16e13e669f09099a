//! Where configuration and credentials live on disk: the per-OS base
//! directory comes from the platform, the layout under it is fixed here.

use vstd::prelude::*;

verus! {

/// Relies on `dirs::config_dir`: the per-OS user configuration directory,
/// if the platform reports one. The result depends on the environment, so
/// nothing more is promised of it.
#[verifier::external_body]
pub fn config_base_dir() -> (r: Option<String>)
{
    dirs::config_dir().map(|p| p.to_string_lossy().into_owned())
}

/// The application's directory under the configuration base.
pub open spec fn spec_app_dir(base: Seq<char>) -> Seq<char> {
    base + "/livenac"@
}

/// The configuration file path under the configuration base.
pub open spec fn spec_config_file_path(base: Seq<char>) -> Seq<char> {
    spec_app_dir(base) + "/config.json"@
}

/// The token file path for one profile under the configuration base.
pub open spec fn spec_token_file_path(base: Seq<char>, profile: Seq<char>) -> Seq<char> {
    spec_app_dir(base) + "/profiles/"@ + profile + "/token.json"@
}

/// The application's directory under the configuration base.
pub fn app_dir(base: &str) -> (r: String)
    ensures
        r@ == spec_app_dir(base@),
{
    String::from_str(base).concat("/livenac")
}

/// The configuration file path under the configuration base.
pub fn config_file_path(base: &str) -> (r: String)
    ensures
        r@ == spec_config_file_path(base@),
{
    let r = app_dir(base).concat("/config.json");
    proof {
        assert(r@ =~= spec_config_file_path(base@));
    }
    r
}

/// The token file path for one profile: each profile keeps its credential
/// in its own directory.
pub fn token_file_path(base: &str, profile: &str) -> (r: String)
    ensures
        r@ == spec_token_file_path(base@, profile@),
{
    let r = app_dir(base).concat("/profiles/").concat(profile).concat("/token.json");
    proof {
        assert(r@ =~= spec_token_file_path(base@, profile@));
    }
    r
}

} // verus!
