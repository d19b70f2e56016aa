//! Reading the user's configuration: where it lives, which environment
//! variables feed it, and how a configured command line is taken apart.

pub mod command_args;
pub mod user_config;
