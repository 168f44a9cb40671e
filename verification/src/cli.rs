//! The command line: which operation to run, and its arguments.

use vstd::prelude::*;

verus! {

/// The parsed command line. `start`/`stop` act on whichever group is
/// currently selected (see `configure select`); the selection is sticky and
/// persisted, so no prompting happens outside of `configure`.
pub struct Cli {
    /// Which operation to run. If omitted, defaults to `start`.
    pub command: Option<Command>,
}

/// The operations.
pub enum Command {
    /// Add, remove, show or select configured profile/instance groups. Only
    /// configures; starts or stops no instance.
    Configure { action: ConfigureAction },
    /// Start the selected EC2 instance (waiting for it to reach `running`),
    /// optionally scheduling an OS-level shutdown inside it at a local
    /// `HH:MM` clock time.
    Start { schedule_shutdown: Option<String> },
    /// Stop the selected EC2 instance (waiting for it to reach `stopped`).
    Stop,
    /// Install a dedicated SSH key on the selected instance and write the
    /// managed `Host awsome` entry into `~/.ssh/config`.
    SetupSsh,
    /// Tunnel SSH to the selected instance over SSM (used as the SSH
    /// `ProxyCommand`).
    SshProxy { port: u16 },
}

/// The `configure` sub-operations.
pub enum ConfigureAction {
    /// Add a new profile/instance group, prompting for what is not given.
    Add { profile: Option<String>, instance_id: Option<String> },
    /// Remove a group by its 1-based index, or prompt for it.
    Remove { index: Option<usize> },
    /// Show the configured groups.
    Show,
    /// Select the group to use by its 1-based index, or prompt for it.
    Select { index: Option<usize> },
}

impl Cli {
    /// The operation to run, and whether it is the default one (`start`,
    /// chosen because none was given).
    pub fn command_or_default(self) -> (r: (Command, bool))
        ensures
            r.1 == (self.command is None),
            self.command is None ==> r.0 matches Command::Start { schedule_shutdown: None },
            self.command matches Some(c) ==> r.0 == c,
    {
        match self.command {
            Some(c) => (c, false),
            None => (Command::Start { schedule_shutdown: None }, true),
        }
    }
}

} // verus!
