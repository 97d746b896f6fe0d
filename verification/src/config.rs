//! The configuration of the assistant.

use vstd::prelude::*;

verus! {

/// What the assistant is configured with.
#[derive(Debug)]
pub struct Config {
    /// Whether the assistant answers at all.
    pub enabled: bool,
    /// The command phrases.
    pub commands: Vec<String>,
    /// The prefixes one of which a command has to start with; none is asked
    /// for where this is empty.
    pub prefixes: Vec<String>,
    /// Whether the command message is deleted once the images were sent.
    pub recall_command: bool,
}

/// The command phrases of the default configuration.
pub open spec fn default_commands() -> Seq<Seq<char>> {
    seq!["表情转图片"@, "收"@, "偷"@, "存表情"@]
}

impl Config {
    /// Whether this is the default configuration: enabled, with the default
    /// command phrases, without prefixes, and leaving command messages alone.
    pub open spec fn is_default(self) -> bool {
        &&& self.enabled
        &&& self.commands.deep_view() == default_commands()
        &&& self.prefixes@.len() == 0
        &&& !self.recall_command
    }

    /// The configuration to start with, given what reading the stored one
    /// gave: the stored configuration where it was read, the default one
    /// where reading it failed, whatever the failure.
    pub fn load<E>(stored: Result<Config, E>) -> (config: Config)
        ensures
            stored matches Ok(found) ==> config == found,
            stored is Err ==> config.is_default(),
    {
        match stored {
            Ok(found) => found,
            Err(_) => Config::default(),
        }
    }
}

impl Default for Config {
    /// The default configuration.
    fn default() -> (config: Config)
        ensures
            config.is_default(),
    {
        let mut commands: Vec<String> = Vec::new();
        commands.push("表情转图片".to_owned());
        commands.push("收".to_owned());
        commands.push("偷".to_owned());
        commands.push("存表情".to_owned());
        let config = Config {
            enabled: true,
            commands,
            prefixes: Vec::new(),
            recall_command: false,
        };
        assert(config.commands.deep_view() == default_commands());
        config
    }
}

} // verus!
