//! Project configuration: the benchmark application's identity and where
//! the gRPC project's settings come from.

use vstd::prelude::*;
use vstd::string::StringExecFns;
use crate::static_files::{join, join_path};

verus! {

/// The benchmark application.
pub struct BenchmarkConfig;

impl BenchmarkConfig {
    pub fn name(&self) -> (r: &'static str)
        ensures
            r@ == "benchmark"@,
    {
        "benchmark"
    }

    pub fn label(&self) -> (r: &'static str)
        ensures
            r@ == "benchmark"@,
    {
        "benchmark"
    }
}

/// The settings of the gRPC project (core and contact settings).
pub struct ProjectSettings;

/// A source of settings, in the order they are applied.
pub enum SettingsSource {
    /// The built-in defaults.
    Defaults,
    /// A TOML file at this path.
    TomlFile(String),
    /// Environment variables with this prefix, which override the others.
    Environment(String),
}

/// The settings profile and the sources that the gRPC project's settings
/// are read from.
pub struct SettingsPlan {
    pub profile: String,
    pub sources: Vec<SettingsSource>,
}

/// The profile is the value of `REINHARDT_ENV` (`local` where it is unset);
/// the sources are the defaults, `base.toml` and `<profile>.toml` in
/// `settings_dir` (joined as paths are), then the environment variables prefixed `REINHARDT_`.
pub fn settings_plan(profile_env: Option<String>, settings_dir: &str) -> (r: SettingsPlan)
    ensures
        r.profile@ == (match profile_env {
            Some(p) => p@,
            None => "local"@,
        }),
        r.sources@.len() == 4,
        r.sources@[0] is Defaults,
        r.sources@[1] matches SettingsSource::TomlFile(f) && f@ == join_path(settings_dir@, "base.toml"@),
        r.sources@[2] matches SettingsSource::TomlFile(f) && f@ == join_path(
            settings_dir@,
            r.profile@ + ".toml"@,
        ),
        r.sources@[3] matches SettingsSource::Environment(p) && p@ == "REINHARDT_"@,
{
    let profile = match profile_env {
        Some(p) => p,
        None => "local".to_owned(),
    };
    let base = join(settings_dir, "base.toml");
    let file_name = profile.clone().concat(".toml");
    let own = join(settings_dir, file_name.as_str());
    let mut sources: Vec<SettingsSource> = Vec::new();
    sources.push(SettingsSource::Defaults);
    sources.push(SettingsSource::TomlFile(base));
    sources.push(SettingsSource::TomlFile(own));
    sources.push(SettingsSource::Environment("REINHARDT_".to_owned()));
    SettingsPlan { profile, sources }
}

} // verus!
