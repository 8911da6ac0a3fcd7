//! Verified core of the ycallr command-line runner.
pub mod catalog;
pub mod cli;
pub mod discovery;
pub mod env_secrets;
pub mod help;
pub mod error;
pub mod os_keyring;
pub mod output;
pub mod plan;
pub mod secret_cmd;
pub mod secrets;
pub mod strmap;
pub mod suggest;
pub mod text;
