//! Command-line surface of the daemon, as plain data.
//!
//! Argument parsing itself is I/O glue and lives outside this crate; these
//! types say which commands and options exist.

use vstd::prelude::*;

verus! {

/// The parsed command line.
pub struct Cli {
    /// The selected command.
    pub command: Command,
}

/// Top-level commands.
pub enum Command {
    /// Start the daemon.
    Start { with_gateway: bool, foreground: bool },
    /// Stop the daemon.
    Stop,
    /// Show daemon status and scheduled jobs.
    Status,
    /// Manage scheduled jobs.
    Job { action: JobAction },
    /// Manage the chat gateway.
    Gateway { action: GatewayAction },
    /// Install as a system service.
    Install { with_gateway: bool },
    /// Uninstall the system service.
    Uninstall,
    /// Initialize configuration and directories.
    Init { with_gateway: bool },
    /// Manage agent tasks.
    Task { action: TaskAction },
    /// View daemon logs.
    Logs { follow: bool, tail: Option<usize>, level: Option<String>, raw: bool },
}

/// Job subcommands.
pub enum JobAction {
    /// Add a new scheduled job.
    Add,
    /// List all jobs.
    List,
    /// Remove a job by its identifier.
    Remove { id: String },
    /// Run a job immediately.
    Run { id: String },
    /// Enable a disabled job.
    Enable { id: String },
    /// Disable a job.
    Disable { id: String },
}

/// Gateway subcommands.
pub enum GatewayAction {
    /// Start the gateway.
    Start,
    /// Stop the gateway.
    Stop,
    /// Show gateway status.
    Status,
}

/// Task subcommands.
pub enum TaskAction {
    /// Run a task by name with a message.
    Run { name: String, message: String },
    /// List configured tasks.
    List,
    /// List configured agents.
    ListAgents,
}

} // verus!
