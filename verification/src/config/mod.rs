//! The configuration: what each command stands for and how its parameters expand.

mod command;
mod default;
mod envset;
pub mod parameter;

pub use command::{param_views, params_nul_free, CommandConfig, CommandConfigs, CommandView};
pub use default::{DefaultConfig, DefaultView};
pub use envset::{env_value_append_separator_default, EnvSet, EnvValue, EnvValueWithShorthand};
use crate::util::name_map::NameMap;
use vstd::prelude::*;

verus! {

/// What a [`Config`] holds, as plain values.
pub struct ConfigView {
    pub default: DefaultView,
    pub command: Map<Seq<char>, CommandView>,
}

/// The whole configuration: the settings for all commands, and the commands by name.
#[derive(Debug)]
pub struct Config {
    pub default: DefaultConfig,
    pub command: CommandConfigs,
}

impl View for Config {
    type V = ConfigView;

    open spec fn view(&self) -> ConfigView {
        ConfigView {
            default: self.default@,
            command: self.command@.map_values(|command: CommandConfig| command@),
        }
    }
}

impl Default for Config {
    /// The default settings and no commands.
    fn default() -> (config: Self)
        ensures
            config@ == (ConfigView {
                default: DefaultView { passthrough_unknown_command: false, placeholder: "{}"@ },
                command: Map::empty(),
            }),
    {
        let config = Config { default: DefaultConfig::default(), command: NameMap::new() };
        assert(config@.command =~= Map::empty());
        config
    }
}

} // verus!
