//! The command line as data: the commands and options that the program
//! accepts, once parsed.

use vstd::prelude::*;
use crate::ids::{AccountId, BalanceId, IdError, Resource, ResourceType, TransactionId, encode_id, encode_id_spec};
use crate::text::{i64_text, signed_decimal};
use crate::output::OutputFormat;
use crate::time::TimeFrameArgs;

verus! {

/// `--bank`: a configured bank's key; needed only when several banks are
/// configured.
pub struct BankArg {
    pub bank: Option<String>,
}

/// `--jsonl` and `--lines`: how records are printed.
pub struct OutputArg {
    pub jsonl: bool,
    pub lines: bool,
}

impl OutputArg {
    /// The output format that the flags ask for: JSON lines before plain
    /// lines, a table when neither is set.
    pub fn format(&self) -> (res: OutputFormat)
        ensures
            res == (if self.jsonl {
                OutputFormat::Jsonl
            } else if self.lines {
                OutputFormat::Lines
            } else {
                OutputFormat::Table
            }),
    {
        if self.jsonl {
            OutputFormat::Jsonl
        } else if self.lines {
            OutputFormat::Lines
        } else {
            OutputFormat::Table
        }
    }
}

/// `--app`: a configured application's key; needed only when several
/// applications are configured.
pub struct AppArg {
    pub app: Option<String>,
}

/// The whole command line: `--config` and the command.
pub struct Cli {
    pub config: Option<String>,
    pub command: Commands,
}

/// The commands.
#[allow(inconsistent_fields)]
pub enum Commands {
    /// Log in to a bank, log out, or show the stored sessions.
    Auth { app: AppArg, action: AuthAction },
    /// List the banks available to the application.
    Bank { country: Option<String>, search: Option<String> },
    /// Fetch the data of all sessions' accounts into the local database.
    Sync { bank: Option<Vec<String>>, time_frame_args: Option<TimeFrameArgs> },
    /// Work with accounts.
    Account { action: AccountAction },
    /// Work with balances.
    Balance { action: BalanceAction },
    /// Work with transactions.
    Transaction { action: TransactionAction },
    /// Encode or decode record ids.
    Id { action: IdAction },
    /// Print the command tree or list, or manage the systemd timer.
    CliSelf { action: SelfFormat },
}

/// `auth` subcommands.
pub enum AuthAction {
    /// Start an authorization at a bank and store the session.
    Login { target: BankArg, valid_days: i64, no_browser: bool },
    /// Revoke a session and remove it.
    Logout { target: BankArg },
    /// Show the stored sessions.
    Status,
}

/// `id` subcommands.
pub enum IdAction {
    /// The public id of a row number of a record kind.
    Encode { kind: ResourceType, id: i64 },
    /// The row number of a public id.
    Decode { resource: Resource },
}

/// `account` subcommands.
pub enum AccountAction {
    /// Fetch an account's details from the API.
    Fetch { app: AppArg, output: OutputArg, account_id: String },
    /// List the stored accounts.
    List { bank: BankArg, output: OutputArg },
    /// Manage account metadata.
    Metadata { action: MetadataAction<AccountId> },
}

/// `balance` subcommands.
pub enum BalanceAction {
    /// Fetch an account's balances from the API.
    Fetch { app: AppArg, output: OutputArg, account_id: String },
    /// List the stored balances.
    List { bank: BankArg, output: OutputArg },
    /// Show the latest stored balance of each account and type.
    Current { bank: BankArg, output: OutputArg },
    /// Manage balance metadata.
    Metadata { action: MetadataAction<BalanceId> },
}

/// `transaction` subcommands.
pub enum TransactionAction {
    /// Fetch an account's transactions from the API.
    Fetch { app: AppArg, output: OutputArg, account_id: String, time_frame_args: TimeFrameArgs },
    /// List the stored transactions.
    List { bank: BankArg, output: OutputArg },
    /// Manage transaction metadata.
    Metadata { action: MetadataAction<TransactionId> },
}

/// `metadata` subcommands of a record kind whose ids are `T`.
pub enum MetadataAction<T> {
    /// Manage the JSON Schema that metadata must follow.
    Schema { action: SchemaAction },
    /// Attach metadata to a record (`set`).
    Attach { id: T, metadata: Option<String>, yes: bool },
    /// Show a record's metadata.
    Get { id: T },
    /// Delete a record's metadata.
    Delete { id: T, yes: bool },
}

/// `metadata schema` subcommands.
pub enum SchemaAction {
    /// Store a JSON Schema (`set`).
    Save { schema: Option<String>, yes: bool },
    /// Show the stored JSON Schema.
    Get,
    /// Delete the stored JSON Schema.
    Delete { yes: bool },
}

/// `self` subcommands.
pub enum SelfFormat {
    /// The command tree.
    Tree,
    /// The commands as a flat list of paths.
    List,
    /// Manage the systemd timer that syncs periodically.
    Systemd { action: SystemdAction },
}

/// `self systemd` subcommands.
#[derive(Clone, Copy, Debug, PartialEq, Eq, Structural)]
pub enum SystemdAction {
    /// Install and enable the service and timer.
    Install,
    /// Disable and remove them.
    Uninstall,
}

/// What `id encode` and `id decode` print: the public id of a row number
/// (`None` where sqids cannot encode it), the row number of a public id, or
/// why a row number is refused.
pub fn id_command_output(action: &IdAction) -> (res: Result<Option<String>, String>)
    ensures
        match action {
            IdAction::Encode { kind, id } => if *id <= 0 {
                res matches Err(m) && m@ == IdError::NotPositive.message_spec()
            } else {
                res matches Ok(o) && match o {
                    Some(t) => encode_id_spec(*kind, *id) == Some(t@),
                    None => encode_id_spec(*kind, *id) is None,
                }
            },
            IdAction::Decode { resource } => res matches Ok(Some(t)) && t@ == signed_decimal(resource@.1 as int),
        },
{
    match action {
        IdAction::Encode { kind, id } => {
            if *id <= 0 {
                Err(IdError::NotPositive.message().to_owned())
            } else {
                Ok(encode_id(*kind, *id))
            }
        },
        IdAction::Decode { resource } => Ok(Some(i64_text(resource.raw()))),
    }
}

} // verus!
