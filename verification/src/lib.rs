//! The logic of a command-line client for an escrow contract on Stellar:
//! the CLI invocations it makes, the reports it prints, the `.env` file it
//! keeps the contract's id in, and the steps of a deployment.
pub mod deploy;
pub mod env_file;
pub mod escrows;
pub mod invocation;
pub mod json;
pub mod text;
