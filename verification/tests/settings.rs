use shorthand::config::{CommandConfig, Config, DefaultConfig};
use shorthand::util::value::SingleOrVec;

#[test]
fn default_settings() {
    let settings = DefaultConfig::default();
    assert!(!settings.passthrough_unknown_command);
    assert_eq!(settings.placeholder, "{}");
}

#[test]
fn default_config_has_no_commands() {
    let config = Config::default();
    assert!(!config.default.passthrough_unknown_command);
    assert_eq!(config.default.placeholder, "{}");
    assert!(config.command.is_empty());
}

#[test]
fn empty_for_names_only_the_executable() {
    let command = CommandConfig::empty_for("htop");
    assert!(matches!(&command.base, SingleOrVec::Single(name) if name == "htop"));
    assert_eq!(command.base.as_slice(), ["htop".to_string()]);
    assert_eq!(command.placeholder, None);
    assert!(command.headparams.is_empty());
    assert!(command.middleparams.is_empty());
    assert!(command.tailparams.is_empty());
}
