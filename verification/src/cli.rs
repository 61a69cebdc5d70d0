//! The command line of the program, as values.

use vstd::prelude::*;

verus! {

/// The program's command line: a command, and the options of every
/// command.
#[derive(Debug, Clone)]
pub struct Cli {
    pub command: Commands,
    /// Verbose logging
    pub verbose: bool,
    /// Configuration file path
    pub config: Option<String>,
}

/// The commands of the program.
#[derive(Debug, Clone)]
pub enum Commands {
    /// Run the node
    Daemon { tcp_port: u16, quic_port: u16, no_mdns: bool, bootstrap: Vec<String>, topic: Vec<String> },
    /// Show node information
    Info { endpoint: String },
    /// Deploy an application
    Deploy {
        manifest: String,
        assets: Option<String>,
        name: Option<String>,
        version: Option<String>,
        description: Option<String>,
        author: Option<String>,
    },
    /// Search modules by name
    Search { name: String, timeout: u64 },
    /// Run a module
    Run { module: String, function: Option<String>, max_memory: usize, max_time: u64, fuel: bool },
    /// Run the HTTP gateway
    Gateway {
        listen: String,
        https_listen: String,
        tls: bool,
        tls_cert: Option<String>,
        tls_key: Option<String>,
        tcp_port: u16,
        quic_port: u16,
        bootstrap: Vec<String>,
        cors: bool,
        timeout: u64,
    },
    /// Manage the configuration
    Config { action: ConfigAction },
    /// Build, deploy and inspect packages
    Package { action: PackageAction },
}

/// What to do with packages.
#[derive(Debug, Clone)]
pub enum PackageAction {
    /// Write a package manifest
    Init { directory: String, name: Option<String>, package_type: String, force: bool },
    /// Build a package from a manifest
    Build { manifest: String, output: Option<String>, key: Option<String> },
    /// Publish a package to the network
    Deploy { package: String, name: Option<String>, timeout: u64 },
    /// Check a package file
    Verify { package: String, verbose: bool },
    /// Write out the contents of a package
    Extract { package: String, output: String, key: Option<String> },
}

/// What to do with the configuration.
#[derive(Debug, Clone)]
pub enum ConfigAction {
    /// Write an example configuration file
    Init { output: String, format: String, force: bool },
    /// Check a configuration file
    Validate { config_file: String },
    /// Show the configuration in force
    Show { json: bool },
}

} // verus!
