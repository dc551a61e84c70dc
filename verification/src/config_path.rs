//! Where the config file is looked for when no path is given: the file
//! named by `KWYBARS_CONFIG`, else `kwybars/config.toml` under
//! `$XDG_CONFIG_HOME`, else `.config/kwybars/config.toml` under the home
//! directory, else `kwybars.toml` in the working directory.
use vstd::prelude::*;

verus! {

/// Which setting the default config path is built from.
#[derive(Debug, Clone, Copy, PartialEq, Eq, Structural)]
pub enum ConfigPathSource {
    /// The path named by `KWYBARS_CONFIG`, as it stands.
    ExplicitVariable,
    /// `$XDG_CONFIG_HOME/kwybars/config.toml`.
    XdgConfigHome,
    /// `~/.config/kwybars/config.toml`.
    HomeDirectory,
    /// `./kwybars.toml`.
    WorkingDirectory,
}

/// The first setting in the resolution order that is present.
pub open spec fn config_path_source_spec(
    has_kwybars_config: bool,
    has_xdg_config_home: bool,
    has_home: bool,
) -> ConfigPathSource {
    if has_kwybars_config {
        ConfigPathSource::ExplicitVariable
    } else if has_xdg_config_home {
        ConfigPathSource::XdgConfigHome
    } else if has_home {
        ConfigPathSource::HomeDirectory
    } else {
        ConfigPathSource::WorkingDirectory
    }
}

/// The resolution order: `KWYBARS_CONFIG` wins whenever it is set, then
/// `XDG_CONFIG_HOME`, then the home directory; the working directory only
/// when none of them is set. A later setting is used only when every earlier
/// one is missing.
pub proof fn lemma_config_path_order(has_kwybars_config: bool, has_xdg_config_home: bool, has_home: bool)
    ensures
        has_kwybars_config ==> config_path_source_spec(has_kwybars_config, has_xdg_config_home, has_home)
            == ConfigPathSource::ExplicitVariable,
        !has_kwybars_config && has_xdg_config_home ==> config_path_source_spec(
            has_kwybars_config,
            has_xdg_config_home,
            has_home,
        ) == ConfigPathSource::XdgConfigHome,
        !has_kwybars_config && !has_xdg_config_home && has_home ==> config_path_source_spec(
            has_kwybars_config,
            has_xdg_config_home,
            has_home,
        ) == ConfigPathSource::HomeDirectory,
        config_path_source_spec(has_kwybars_config, has_xdg_config_home, has_home)
            == ConfigPathSource::WorkingDirectory <==> !has_kwybars_config && !has_xdg_config_home
            && !has_home,
{
}

/// Which setting the default config path comes from, given which of
/// `KWYBARS_CONFIG`, `XDG_CONFIG_HOME` and the home directory are set.
pub fn config_path_source(has_kwybars_config: bool, has_xdg_config_home: bool, has_home: bool) -> (r:
    ConfigPathSource)
    ensures
        r == config_path_source_spec(has_kwybars_config, has_xdg_config_home, has_home),
        has_kwybars_config ==> r == ConfigPathSource::ExplicitVariable,
        !has_kwybars_config && has_xdg_config_home ==> r == ConfigPathSource::XdgConfigHome,
        !has_kwybars_config && !has_xdg_config_home && has_home ==> r
            == ConfigPathSource::HomeDirectory,
        !has_kwybars_config && !has_xdg_config_home && !has_home ==> r
            == ConfigPathSource::WorkingDirectory,
{
    if has_kwybars_config {
        ConfigPathSource::ExplicitVariable
    } else if has_xdg_config_home {
        ConfigPathSource::XdgConfigHome
    } else if has_home {
        ConfigPathSource::HomeDirectory
    } else {
        ConfigPathSource::WorkingDirectory
    }
}

/// The relative path under the directory that `source` names: the config
/// file's place below it.
pub fn config_path_suffix(source: ConfigPathSource) -> (r: &'static str)
    ensures
        r@ == match source {
            ConfigPathSource::ExplicitVariable => ""@,
            ConfigPathSource::XdgConfigHome => "kwybars/config.toml"@,
            ConfigPathSource::HomeDirectory => ".config/kwybars/config.toml"@,
            ConfigPathSource::WorkingDirectory => "kwybars.toml"@,
        },
{
    match source {
        ConfigPathSource::ExplicitVariable => "",
        ConfigPathSource::XdgConfigHome => "kwybars/config.toml",
        ConfigPathSource::HomeDirectory => ".config/kwybars/config.toml",
        ConfigPathSource::WorkingDirectory => "kwybars.toml",
    }
}

} // verus!
