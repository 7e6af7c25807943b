use vstd::prelude::*;

verus! {

#[verifier::external_type_specification]
#[verifier::external_body]
pub struct ExIoError(std::io::Error);

#[verifier::external_type_specification]
#[verifier::external_body]
pub struct ExJsonError(serde_json::Error);

/// Every way an operation of the manager can fail.
#[derive(Debug)]
pub enum SshManagerError {
    ServerNotFound(String),
    ServerAlreadyExists(String),
    KeyFileNotFound(String),
    InvalidConfig(String),
    IoError(std::io::Error),
    JsonError(serde_json::Error),
    KeyringError(String),
    TerminalNotFound,
    SshLaunchFailed(String),
    ConfigDirError(String),
    EmptyUsername,
    EmptyHost,
    EmptyServerName,
    InvalidServerName,
    InvalidPort,
    PasswordNotInKeyring(String),
    SshpassNotInstalled,
    AskspassSetupFailed(String),
}

} // verus!
