//! Definition of the command line arguments.
//!
//! These types say what a command line holds once it has been read. Reading
//! it is left to the program.

use std::path::PathBuf;
use vstd::prelude::*;

verus! {

/// A path of the file system; nothing is read from it here.
#[verifier::external_type_specification]
#[verifier::external_body]
pub struct ExPathBuf(PathBuf);

/// Processor architecture that a layer is baked for.
#[derive(Clone, Copy, Debug, PartialEq, Eq, Hash, Structural)]
pub enum Architecture {
    /// 64-bit x86.
    Amd64,
    /// 64-bit ARMv8.
    Arm64,
    /// 32-bit ARMv7.
    Armv7,
    /// 32-bit ARMv6 with hardware floating point.
    Armhf,
    /// 32-bit ARMv6.
    Arm,
}

/// Options for baking a bundle.
#[derive(Clone, Copy, Debug, PartialEq, Eq, Structural)]
pub struct BundleOpts {
    /// Disable compression of the bundle.
    pub without_compression: bool,
}

/// Command line arguments.
#[derive(Debug)]
pub struct Args {
    /// Path to the `rugix-bakery.toml` configuration file.
    pub config: Option<PathBuf>,
    /// The command to execute.
    pub cmd: Command,
}

/// Commands of the CLI.
#[derive(Debug)]
pub enum Command {
    /// Bake an image or a layer.
    Bake(BakeCommand),
    /// Run integration tests.
    Test(TestCommand),
    /// Run an image in a VM.
    Run(RunCommand),
    /// List images, recipes, and layers.
    List(ListCommand),
    /// Pull in external repositories.
    Pull,
    /// Initialize the project from a template.
    Init(InitCommand),
    /// Spawn a shell in the Rugix Bakery Docker container.
    Shell,
    /// Run Rugix Bundler.
    Bundler(BundlerCommand),
}

/// The `list` command.
#[derive(Debug)]
pub enum ListCommand {
    /// List available images.
    Systems,
}

/// The `bake` command.
#[derive(Debug)]
pub enum BakeCommand {
    /// Bake a system
    Image {
        /// The name of the system to bake.
        system: String,
        /// The output path for the resulting files.
        output: Option<PathBuf>,
    },
    /// Bake a layer.
    Layer {
        /// The architecture to bake the layer for.
        arch: Architecture,
        /// The name of the layer to bake.
        layer: String,
    },
    /// Bake a bundle.
    Bundle {
        /// The name of the system to bundle.
        system: String,
        /// The output path for the resulting files.
        output: Option<PathBuf>,
        /// Options for the bundle.
        opts: BundleOpts,
    },
}

/// The `test` command.
#[derive(Debug)]
pub struct TestCommand {
    /// The workflows to run.
    pub workflows: Vec<String>,
}

/// The `run` command.
#[derive(Debug)]
pub struct RunCommand {
    /// The system to run.
    pub system: String,
}

/// Commands that the builder runs on itself.
#[derive(Debug)]
pub enum InternalCommand {
    /// Make an image from a directory of system files.
    MakeImage { config: PathBuf, source: PathBuf, image: PathBuf },
}

/// The `init` command.
#[derive(Debug)]
pub struct InitCommand {
    /// Template to use.
    pub template: Option<String>,
}

/// The `bundler` command.
#[derive(Debug)]
pub struct BundlerCommand {
    /// Arguments handed on to the bundler as they are.
    pub args: Vec<String>,
}

} // verus!
