//! The command-line surface of the agent, as plain data: the subcommands
//! and their parameters. Parsing terminal arguments into these values is
//! the front end's job; the library only defines their shape.

use vstd::prelude::*;

verus! {

/// Arguments of the `dump` subcommand: print the effective configuration
/// without running.
#[derive(Debug)]
pub struct DumpArgs {
    /// The directory containing the configuration file.
    pub directory: Option<String>,
    /// A container may override any path given on the command line.
    pub force_container_path: Option<String>,
}

/// Arguments of the `test` subcommand: run one monitor immediately and
/// show its status.
#[derive(Debug)]
pub struct TestArgs {
    /// The monitor to run.
    pub monitor: String,
    /// The directory containing the configuration file.
    pub directory: Option<String>,
    /// A container may override any path given on the command line.
    pub force_container_path: Option<String>,
    /// Run as a host service.
    pub service_mode: bool,
}

/// Arguments of the `init` subcommand: initialize a new configuration
/// directory.
#[derive(Debug)]
pub struct InitArgs {
    /// The directory to initialize.
    pub directory: Option<String>,
    /// A container may override any path given on the command line.
    pub force_container_path: Option<String>,
    /// Run as a host service.
    pub service_mode: bool,
}

/// Arguments of the `run` subcommand, the default.
#[derive(Debug)]
pub struct RunArgs {
    /// The directory containing the configuration file.
    pub config: Option<String>,
    /// Check the configuration without starting the server.
    pub dry_run: bool,
    /// A container may override the configured port.
    pub force_container_port: Option<u16>,
    /// A container may ask for the wildcard listen address.
    pub force_container_listen_addr: Option<String>,
    /// A container may override any path given on the command line.
    pub force_container_path: Option<String>,
    /// Run as a host service.
    pub service_mode: bool,
}

/// The host service-manager subcommands.
#[derive(Debug)]
pub enum ServiceCommands {
    /// Install the service, with an optional configuration path.
    Install { config: Option<String> },
    /// Uninstall the service.
    Uninstall,
    /// Start the service.
    Start,
    /// Stop the service.
    Stop,
    /// Run as the service process.
    Run,
}

/// Arguments of the `service` subcommand.
#[derive(Debug)]
pub struct ServiceArgs {
    pub command: ServiceCommands,
}

/// The agent's subcommands.
#[derive(Debug)]
pub enum Commands {
    Dump(DumpArgs),
    Test(TestArgs),
    Init(InitArgs),
    Run(RunArgs),
    Service(ServiceArgs),
}

/// The whole command line: global verbosity and one subcommand.
#[derive(Debug)]
pub struct Args {
    /// How often verbosity was raised.
    pub verbose: u8,
    pub command: Commands,
}

} // verus!
