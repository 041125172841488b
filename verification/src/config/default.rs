//! Settings that hold for every command unless the command says otherwise.

use vstd::prelude::*;

verus! {

/// What [`DefaultConfig`] holds, as plain values.
pub struct DefaultView {
    pub passthrough_unknown_command: bool,
    pub placeholder: Seq<char>,
}

/// The settings for all commands.
#[derive(Debug)]
pub struct DefaultConfig {
    /// Whether a command without a definition is run under its own name.
    pub passthrough_unknown_command: bool,
    /// The token in a template that marks where the value goes.
    pub placeholder: String,
}

impl View for DefaultConfig {
    type V = DefaultView;

    open spec fn view(&self) -> DefaultView {
        DefaultView {
            passthrough_unknown_command: self.passthrough_unknown_command,
            placeholder: self.placeholder@,
        }
    }
}

impl Default for DefaultConfig {
    /// Unknown commands are refused, and the placeholder is `{}`.
    fn default() -> (settings: Self)
        ensures
            settings@ == (DefaultView { passthrough_unknown_command: false, placeholder: "{}"@ }),
    {
        DefaultConfig { passthrough_unknown_command: false, placeholder: "{}".to_owned() }
    }
}

} // verus!
