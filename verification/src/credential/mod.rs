//! Where credential references are resolved to secrets.
//!
//! Commands are run, and databases opened, outside: a `ResolveAction` says what is to be done, and
//! what came of it is handed back.
pub mod bitwarden;
pub mod keepass_provider;
pub mod onepassword;

use vstd::prelude::*;
use vstd::string::*;
use crate::config::CredentialProviderConfig;
use crate::credential::bitwarden::{BitwardenProvider, BitwardenStage};
use crate::credential::keepass_provider::KeePassProvider;
use crate::credential::onepassword::OnePasswordProvider;
use crate::name_map::NameMap;
use crate::settings;

verus! {

/// Why a credential reference could not be resolved.
#[derive(Debug)]
pub enum CredentialError {
    OpReference { reference: String },
    OpNotExecuted,
    OpNotSignedIn { stderr: String },
    OpFailed { stderr: String },
    OpNotUtf8,
    BwNotExecuted,
    BwLoginNotExecuted,
    BwLoginFailed { stderr: String },
    BwNotAuthenticated,
    BwUnlockNotExecuted,
    BwUnlockNotUtf8,
    BwLocked,
    BwGetPasswordNotExecuted,
    BwGetPasswordFailed { stderr: String },
    BwNotUtf8,
    BwGetItemNotExecuted,
    BwGetItemFailed { stderr: String },
    BwItemUnparsable,
    BwNoField { field: String, item: String },
    BwNoPassword { item: String },
    KpNoPassword { variable: String },
    KpDatabaseNotOpened { path: String },
    KpKeyFileNotOpened { path: String },
    KpKeyFileNotRead,
    KpNotUnlocked,
    KpPanicked,
    KpNoGroup { group: String },
    KpNoField { entry: String, field: String },
    KpNoEntry { entry: String },
}

impl CredentialError {
    /// The words for this error.
    pub open spec fn words(self) -> Seq<char> {
        match self {
            CredentialError::OpReference { reference } => {
                "1Password reference must start with 'op://', got: "@ + reference@
            },
            CredentialError::OpNotExecuted => {
                "failed to execute `op` CLI — is 1Password CLI installed?"@
            },
            CredentialError::OpNotSignedIn { stderr } => {
                "1Password: not signed in. Run `op signin` or set OP_SERVICE_ACCOUNT_TOKEN. Error: "@
                    + stderr@
            },
            CredentialError::OpFailed { stderr } => "1Password `op read` failed: "@ + stderr@,
            CredentialError::OpNotUtf8 => "1Password returned non-UTF-8 output"@,
            CredentialError::BwNotExecuted => {
                "failed to execute `bw` CLI — is Bitwarden CLI installed?"@
            },
            CredentialError::BwLoginNotExecuted => "bw login --apikey failed"@,
            CredentialError::BwLoginFailed { stderr } => {
                "Bitwarden API key login failed: "@ + stderr@
            },
            CredentialError::BwNotAuthenticated => {
                "Bitwarden vault is not authenticated. Run `bw login` or set BW_CLIENTID + BW_CLIENTSECRET"@
            },
            CredentialError::BwUnlockNotExecuted => "bw unlock failed"@,
            CredentialError::BwUnlockNotUtf8 => "bw unlock returned non-UTF-8"@,
            CredentialError::BwLocked => {
                "Bitwarden vault is locked. Set BW_PASSWORD env var or run `bw unlock`"@
            },
            CredentialError::BwGetPasswordNotExecuted => "failed to execute `bw get password`"@,
            CredentialError::BwGetPasswordFailed { stderr } => {
                "Bitwarden `bw get password` failed: "@ + stderr@
            },
            CredentialError::BwNotUtf8 => "Bitwarden returned non-UTF-8 output"@,
            CredentialError::BwGetItemNotExecuted => "failed to execute `bw get item`"@,
            CredentialError::BwGetItemFailed { stderr } => {
                "Bitwarden `bw get item` failed: "@ + stderr@
            },
            CredentialError::BwItemUnparsable => "failed to parse Bitwarden item JSON"@,
            CredentialError::BwNoField { field, item } => {
                "Bitwarden: field '"@ + field@ + "' not found in item '"@ + item@ + "'"@
            },
            CredentialError::BwNoPassword { item } => {
                "Bitwarden: no password field in item '"@ + item@ + "'"@
            },
            CredentialError::KpNoPassword { variable } => {
                "KeePass master password env var '"@ + variable@ + "' not set"@
            },
            CredentialError::KpDatabaseNotOpened { path } => {
                "failed to open KeePass database: "@ + path@
            },
            CredentialError::KpKeyFileNotOpened { path } => {
                "failed to open KeePass key file: "@ + path@
            },
            CredentialError::KpKeyFileNotRead => "failed to read KeePass key file"@,
            CredentialError::KpNotUnlocked => "failed to unlock KeePass database"@,
            CredentialError::KpPanicked => "KeePass task panicked"@,
            CredentialError::KpNoGroup { group } => "KeePass group '"@ + group@ + "' not found"@,
            CredentialError::KpNoField { entry, field } => {
                "KeePass entry '"@ + entry@ + "' has no field '"@ + field@ + "'"@
            },
            CredentialError::KpNoEntry { entry } => "KeePass entry '"@ + entry@ + "' not found"@,
        }
    }

    /// The words for this error.
    pub fn message(&self) -> (r: String)
        ensures
            r@ == self.words(),
    {
        match self {
            CredentialError::OpReference { reference } => {
                "1Password reference must start with 'op://', got: ".to_owned()
                    .concat(reference.as_str())
            },
            CredentialError::OpNotExecuted => {
                "failed to execute `op` CLI — is 1Password CLI installed?".to_owned()
            },
            CredentialError::OpNotSignedIn { stderr } => {
                "1Password: not signed in. Run `op signin` or set OP_SERVICE_ACCOUNT_TOKEN. Error: ".to_owned()
                    .concat(stderr.as_str())
            },
            CredentialError::OpFailed { stderr } => {
                "1Password `op read` failed: ".to_owned().concat(stderr.as_str())
            },
            CredentialError::OpNotUtf8 => "1Password returned non-UTF-8 output".to_owned(),
            CredentialError::BwNotExecuted => {
                "failed to execute `bw` CLI — is Bitwarden CLI installed?".to_owned()
            },
            CredentialError::BwLoginNotExecuted => "bw login --apikey failed".to_owned(),
            CredentialError::BwLoginFailed { stderr } => {
                "Bitwarden API key login failed: ".to_owned().concat(stderr.as_str())
            },
            CredentialError::BwNotAuthenticated => {
                "Bitwarden vault is not authenticated. Run `bw login` or set BW_CLIENTID + BW_CLIENTSECRET".to_owned()
            },
            CredentialError::BwUnlockNotExecuted => "bw unlock failed".to_owned(),
            CredentialError::BwUnlockNotUtf8 => "bw unlock returned non-UTF-8".to_owned(),
            CredentialError::BwLocked => {
                "Bitwarden vault is locked. Set BW_PASSWORD env var or run `bw unlock`".to_owned()
            },
            CredentialError::BwGetPasswordNotExecuted => {
                "failed to execute `bw get password`".to_owned()
            },
            CredentialError::BwGetPasswordFailed { stderr } => {
                "Bitwarden `bw get password` failed: ".to_owned().concat(stderr.as_str())
            },
            CredentialError::BwNotUtf8 => "Bitwarden returned non-UTF-8 output".to_owned(),
            CredentialError::BwGetItemNotExecuted => "failed to execute `bw get item`".to_owned(),
            CredentialError::BwGetItemFailed { stderr } => {
                "Bitwarden `bw get item` failed: ".to_owned().concat(stderr.as_str())
            },
            CredentialError::BwItemUnparsable => "failed to parse Bitwarden item JSON".to_owned(),
            CredentialError::BwNoField { field, item } => {
                "Bitwarden: field '".to_owned().concat(field.as_str())
                    .concat("' not found in item '").concat(item.as_str()).concat("'")
            },
            CredentialError::BwNoPassword { item } => {
                "Bitwarden: no password field in item '".to_owned().concat(item.as_str())
                    .concat("'")
            },
            CredentialError::KpNoPassword { variable } => {
                "KeePass master password env var '".to_owned().concat(variable.as_str())
                    .concat("' not set")
            },
            CredentialError::KpDatabaseNotOpened { path } => {
                "failed to open KeePass database: ".to_owned().concat(path.as_str())
            },
            CredentialError::KpKeyFileNotOpened { path } => {
                "failed to open KeePass key file: ".to_owned().concat(path.as_str())
            },
            CredentialError::KpKeyFileNotRead => "failed to read KeePass key file".to_owned(),
            CredentialError::KpNotUnlocked => "failed to unlock KeePass database".to_owned(),
            CredentialError::KpPanicked => "KeePass task panicked".to_owned(),
            CredentialError::KpNoGroup { group } => {
                "KeePass group '".to_owned().concat(group.as_str()).concat("' not found")
            },
            CredentialError::KpNoField { entry, field } => {
                "KeePass entry '".to_owned().concat(entry.as_str()).concat("' has no field '")
                    .concat(field.as_str()).concat("'")
            },
            CredentialError::KpNoEntry { entry } => {
                "KeePass entry '".to_owned().concat(entry.as_str()).concat("' not found")
            },
        }
    }
}

/// What came of a command.
#[derive(Debug)]
pub enum CommandOutput {
    /// It could not be run.
    NotExecuted,
    Finished { success: bool, stdout: Vec<u8>, stderr: Vec<u8> },
}

/// A command whose output is waited for.
#[derive(Debug)]
pub enum CommandStage {
    OpRead,
    Bitwarden(BitwardenStage),
}

/// What is to be done for a secret.
#[derive(Debug)]
pub enum ResolveAction {
    /// Nothing: this is the secret.
    Done { secret: String },
    Fail(CredentialError),
    /// Run the command with the arguments, and go on with `command_finished`.
    Run { program: String, args: Vec<String>, stage: CommandStage },
    /// Open the KeePass database, and go on with `keepass_provider::resolve_keepass`.
    OpenKeePass {
        database_path: String,
        master_password: String,
        key_file: Option<String>,
        reference: String,
    },
}

/// The command `program` is run with the arguments `args`.
pub open spec fn runs(action: ResolveAction, program: Seq<char>, args: Seq<Seq<char>>) -> bool {
    action matches ResolveAction::Run { program: p, args: a, .. } && p@ == program && a.deep_view()
        == args
}

/// Resolving credential references to actual secret values. The environment variables are handed
/// in by name.
pub trait CredentialProvider {
    /// `action` is the first thing to do for the secret of `reference`.
    spec fn begins(
        &self,
        reference: Seq<char>,
        environment: Map<Seq<char>, Seq<char>>,
        action: ResolveAction,
    ) -> bool;

    /// The first thing to do to resolve a credential reference string to its secret value.
    fn resolve(&self, reference: &str, environment: &NameMap<String>) -> (r: ResolveAction)
        ensures
            self.begins(reference@, environment@, r),
    ;
}

/// The credential provider that the configuration names.
#[derive(Debug)]
pub enum Provider {
    OnePassword(OnePasswordProvider),
    Bitwarden(BitwardenProvider),
    KeePass(KeePassProvider),
}

/// `provider` is the one that `config` names.
pub open spec fn provided(config: CredentialProviderConfig, provider: Provider) -> bool {
    match config {
        CredentialProviderConfig::OnePassword {  } => provider is OnePassword,
        CredentialProviderConfig::Bitwarden {  } => provider is Bitwarden,
        CredentialProviderConfig::KeePass { database_path, password_env, key_file } => provider
            == Provider::KeePass(KeePassProvider { database_path, password_env, key_file }),
    }
}

/// Create a credential provider from configuration.
pub fn create_provider(config: &CredentialProviderConfig) -> (r: Provider)
    ensures
        provided(*config, r),
{
    match config {
        CredentialProviderConfig::OnePassword {  } => Provider::OnePassword(
            OnePasswordProvider::new(),
        ),
        CredentialProviderConfig::Bitwarden {  } => Provider::Bitwarden(BitwardenProvider::new()),
        CredentialProviderConfig::KeePass { database_path, password_env, key_file } =>
        Provider::KeePass(
            KeePassProvider::new(
                database_path.clone(),
                password_env.clone(),
                settings::duplicate_option(key_file),
            ),
        ),
    }
}

impl CredentialProvider for Provider {
    open spec fn begins(
        &self,
        reference: Seq<char>,
        environment: Map<Seq<char>, Seq<char>>,
        action: ResolveAction,
    ) -> bool {
        match self {
            Provider::OnePassword(p) => p.begins(reference, environment, action),
            Provider::Bitwarden(p) => p.begins(reference, environment, action),
            Provider::KeePass(p) => p.begins(reference, environment, action),
        }
    }

    fn resolve(&self, reference: &str, environment: &NameMap<String>) -> (r: ResolveAction) {
        match self {
            Provider::OnePassword(p) => p.resolve(reference, environment),
            Provider::Bitwarden(p) => p.resolve(reference, environment),
            Provider::KeePass(p) => p.resolve(reference, environment),
        }
    }
}

/// What comes after the command of `stage`.
pub open spec fn after_command(
    stage: CommandStage,
    output: CommandOutput,
    environment: Map<Seq<char>, Seq<char>>,
    action: ResolveAction,
) -> bool {
    match stage {
        CommandStage::OpRead => onepassword::after_read(output, action),
        CommandStage::Bitwarden(stage) => bitwarden::after_stage(stage, output, environment, action),
    }
}

/// Goes on after a command.
pub fn command_finished(
    stage: CommandStage,
    output: CommandOutput,
    environment: &NameMap<String>,
) -> (r: ResolveAction)
    ensures
        after_command(stage, output, environment@, r),
{
    match stage {
        CommandStage::OpRead => onepassword::read_finished(output),
        CommandStage::Bitwarden(stage) => bitwarden::stage_finished(stage, output, environment),
    }
}

/// The provider is of the kind that the configuration names, and does what that provider does.
pub proof fn law_provider_of_its_kind(
    config: CredentialProviderConfig,
    provider: Provider,
    reference: Seq<char>,
    environment: Map<Seq<char>, Seq<char>>,
    action: ResolveAction,
)
    requires
        provided(config, provider),
        provider.begins(reference, environment, action),
    ensures
        config is OnePassword ==> OnePasswordProvider.begins(reference, environment, action),
        config is Bitwarden ==> BitwardenProvider.begins(reference, environment, action),
        config matches CredentialProviderConfig::KeePass { database_path, password_env, key_file }
            ==> (KeePassProvider { database_path, password_env, key_file }).begins(
            reference,
            environment,
            action,
        ),
{
}

/// The output of a command goes to the provider that it was run for.
pub proof fn law_output_reaches_its_provider(
    stage: CommandStage,
    output: CommandOutput,
    environment: Map<Seq<char>, Seq<char>>,
    action: ResolveAction,
)
    requires
        after_command(stage, output, environment, action),
    ensures
        stage is OpRead ==> onepassword::after_read(output, action),
        stage matches CommandStage::Bitwarden(s) ==> bitwarden::after_stage(
            s,
            output,
            environment,
            action,
        ),
{
}

} // verus!
