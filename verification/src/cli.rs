//! Command-line surface: which command was asked for. Argument parsing
//! itself happens outside the library.

use vstd::prelude::*;

verus! {

/// The parsed command line.
#[derive(Debug)]
pub struct Cli {
    pub command: Commands,
}

/// The commands the program offers.
#[derive(Debug, Clone, Copy, PartialEq, Eq, Structural)]
pub enum Commands {
    Start,
    Login,
    Logout,
    ClearSession,
    Tools,
    Version,
}

/// The command chosen, as handed to the runner.
#[derive(Debug, Clone, Copy, PartialEq, Eq, Structural)]
pub enum CliCommand {
    Start,
    Login,
    Logout,
    ClearSession,
    Tools,
    Version,
}

/// The runner's command for a parsed command line.
pub fn command_of(cli: &Cli) -> (r: CliCommand)
    ensures
        cli.command == Commands::Start <==> r == CliCommand::Start,
        cli.command == Commands::Login <==> r == CliCommand::Login,
        cli.command == Commands::Logout <==> r == CliCommand::Logout,
        cli.command == Commands::ClearSession <==> r == CliCommand::ClearSession,
        cli.command == Commands::Tools <==> r == CliCommand::Tools,
        cli.command == Commands::Version <==> r == CliCommand::Version,
{
    match cli.command {
        Commands::Start => CliCommand::Start,
        Commands::Login => CliCommand::Login,
        Commands::Logout => CliCommand::Logout,
        Commands::ClearSession => CliCommand::ClearSession,
        Commands::Tools => CliCommand::Tools,
        Commands::Version => CliCommand::Version,
    }
}

} // verus!
