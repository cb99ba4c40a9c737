//! Fixture model and resolution rules for snapshot tests of command-line programs.

pub mod args;
pub mod bin;
pub mod env;
pub mod file;
pub mod fs;
pub mod run;
pub mod runner;
pub mod script;
pub mod status;
pub mod text;
pub mod vars;

pub use args::{Args, JoinedArgs};
pub use bin::Bin;
pub use env::Env;
pub use file::File;
pub use fs::{Filesystem, FixtureKind, Sibling};
pub use run::{Invocation, OneShot, Run, Timeout, TryCmd};
pub use runner::{Capture, Event, ExitClass, Outcome, State};
pub use status::CommandStatus;
pub use vars::EnvVars;
