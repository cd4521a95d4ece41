use mcp_auth_proxy::config::CredentialProviderConfig;
use mcp_auth_proxy::credential::bitwarden::{
    get_session, password_refused, take_secret, unlock, BitwardenProvider, BitwardenStage,
};
use mcp_auth_proxy::credential::keepass_provider::{
    find_group, resolve_keepass, KeePassProvider, VaultEntry, VaultGroup, VaultNode, VaultOutcome,
};
use mcp_auth_proxy::credential::onepassword::{read_refused, OnePasswordProvider};
use mcp_auth_proxy::credential::{
    command_finished, create_provider, CommandOutput, CommandStage, CredentialError,
    CredentialProvider, Provider, ResolveAction,
};
use mcp_auth_proxy::json::parse_json;
use mcp_auth_proxy::name_map::NameMap;

fn env(vars: &[(&str, &str)]) -> NameMap<String> {
    let mut m: NameMap<String> = NameMap::new();
    for (k, v) in vars {
        m.insert(k.to_string(), v.to_string());
    }
    m
}

fn output(success: bool, stdout: &str, stderr: &str) -> CommandOutput {
    CommandOutput::Finished {
        success,
        stdout: stdout.as_bytes().to_vec(),
        stderr: stderr.as_bytes().to_vec(),
    }
}

fn command(action: ResolveAction) -> (String, Vec<String>, CommandStage) {
    match action {
        ResolveAction::Run { program, args, stage } => (program, args, stage),
        other => panic!("{:?}", other),
    }
}

fn secret(action: ResolveAction) -> String {
    match action {
        ResolveAction::Done { secret } => secret,
        other => panic!("{:?}", other),
    }
}

fn failure(action: ResolveAction) -> String {
    match action {
        ResolveAction::Fail(e) => e.message(),
        other => panic!("{:?}", other),
    }
}

#[test]
fn onepassword_reads_references() {
    let p = OnePasswordProvider::new();
    let (program, args, stage) = command(p.resolve("op://v/i/f", &env(&[])));
    assert_eq!(program, "op");
    assert_eq!(args, vec!["read", "op://v/i/f", "--no-newline"]);
    assert_eq!(secret(command_finished(stage, output(true, " s3cret \n", ""), &env(&[]))), " s3cret");
}

#[test]
fn onepassword_failures() {
    let p = OnePasswordProvider::new();
    assert_eq!(
        failure(p.resolve("vault/item", &env(&[]))),
        "1Password reference must start with 'op://', got: vault/item"
    );
    let end = |o: CommandOutput| failure(command_finished(CommandStage::OpRead, o, &env(&[])));
    assert_eq!(
        end(CommandOutput::NotExecuted),
        "failed to execute `op` CLI — is 1Password CLI installed?"
    );
    assert_eq!(
        end(output(false, "", "[ERROR] not signed in\n")),
        "1Password: not signed in. Run `op signin` or set OP_SERVICE_ACCOUNT_TOKEN. Error: [ERROR] not signed in"
    );
    assert!(end(output(false, "", "session expired")).starts_with("1Password: not signed in."));
    assert_eq!(end(output(false, "", " no item ")), "1Password `op read` failed: no item");
    let garbage = CommandOutput::Finished { success: true, stdout: vec![0xff], stderr: Vec::new() };
    assert_eq!(end(garbage), "1Password returned non-UTF-8 output");
}

#[test]
fn words_of_refusals_decide() {
    assert!(matches!(
        read_refused("you are not signed in"),
        ResolveAction::Fail(CredentialError::OpNotSignedIn { .. })
    ));
    assert!(matches!(
        read_refused("isn't an item"),
        ResolveAction::Fail(CredentialError::OpFailed { .. })
    ));
    assert!(matches!(password_refused("Not found.", "r", &None), ResolveAction::Run { .. }));
    assert!(matches!(
        password_refused("not found", "r", &None),
        ResolveAction::Fail(CredentialError::BwGetPasswordFailed { .. })
    ));
    let (_, args, _) = command(get_session("ok".to_string(), "r".to_string(), &env(&[])));
    assert_eq!(args, vec!["get", "password", "r"]);
    assert!(matches!(
        unlock("\"locked\"", "r".to_string(), &env(&[])),
        ResolveAction::Fail(CredentialError::BwLocked)
    ));
}

#[test]
fn bitwarden_uses_a_named_session() {
    let p = BitwardenProvider::new();
    let (program, args, stage) = command(p.resolve("item", &env(&[("BW_SESSION", "tok")])));
    assert_eq!(program, "bw");
    assert_eq!(args, vec!["get", "password", "item", "--session", "tok"]);
    assert_eq!(secret(command_finished(stage, output(true, "pw\n", ""), &env(&[]))), "pw");
    let (_, args, _) = command(p.resolve("item", &env(&[("BW_SESSION", "")])));
    assert_eq!(args, vec!["status"]);
}

#[test]
fn bitwarden_logs_in_and_unlocks() {
    let p = BitwardenProvider::new();
    let vars = env(&[("BW_CLIENTID", "a"), ("BW_CLIENTSECRET", "b"), ("BW_PASSWORD", "c")]);
    let (_, args, stage) = command(p.resolve("item", &vars));
    assert_eq!(args, vec!["status"]);
    let status = "{\"status\":\"unauthenticated\",\"x\":\"locked\"}";
    let (_, args, stage) = command(command_finished(stage, output(false, status, ""), &vars));
    assert_eq!(args, vec!["login", "--apikey"]);
    let (_, args, stage) = command(command_finished(stage, output(true, "", ""), &vars));
    assert_eq!(args, vec!["unlock", "--passwordenv", "BW_PASSWORD", "--raw"]);
    let (_, args, _) = command(command_finished(stage, output(true, " session \n", ""), &vars));
    assert_eq!(args, vec!["get", "password", "item", "--session", "session"]);
    let (_, _, stage) = command(p.resolve("item", &vars));
    let status = "{\"status\":\"unlocked\"}";
    let (_, args, _) = command(command_finished(stage, output(true, status, ""), &vars));
    assert_eq!(args, vec!["get", "password", "item"]);
}

#[test]
fn bitwarden_session_failures() {
    let none = env(&[]);
    let status = || CommandStage::Bitwarden(BitwardenStage::Status { reference: "r".to_string() });
    let login = || {
        CommandStage::Bitwarden(BitwardenStage::Login {
            reference: "r".to_string(),
            status: "".to_string(),
        })
    };
    let unlock = || CommandStage::Bitwarden(BitwardenStage::Unlock { reference: "r".to_string() });
    let end = |s: CommandStage, o: CommandOutput| failure(command_finished(s, o, &none));
    assert_eq!(
        end(status(), CommandOutput::NotExecuted),
        "failed to execute `bw` CLI — is Bitwarden CLI installed?"
    );
    assert_eq!(
        end(status(), output(true, "\"unauthenticated\"", "")),
        "Bitwarden vault is not authenticated. Run `bw login` or set BW_CLIENTID + BW_CLIENTSECRET"
    );
    let locked = "Bitwarden vault is locked. Set BW_PASSWORD env var or run `bw unlock`";
    assert_eq!(end(status(), output(true, "\"locked\"", "")), locked);
    assert_eq!(end(login(), CommandOutput::NotExecuted), "bw login --apikey failed");
    assert_eq!(
        end(login(), output(false, "", "wrong key\n")),
        "Bitwarden API key login failed: wrong key"
    );
    assert_eq!(end(unlock(), CommandOutput::NotExecuted), "bw unlock failed");
    assert_eq!(end(unlock(), output(false, "x", "")), locked);
    assert_eq!(end(unlock(), output(true, " \n", "")), locked);
    let garbage = CommandOutput::Finished { success: true, stdout: vec![0xff], stderr: Vec::new() };
    assert_eq!(end(unlock(), garbage), "bw unlock returned non-UTF-8");
}

#[test]
fn bitwarden_falls_back_to_the_item() {
    let none = env(&[]);
    let stage = CommandStage::Bitwarden(BitwardenStage::GetPassword {
        reference: "work/mail/api key".to_string(),
        session: Some("s".to_string()),
    });
    let (_, args, stage) = command(command_finished(stage, output(false, "", "Not found."), &none));
    assert_eq!(args, vec!["get", "item", "work/mail", "--session", "s"]);
    let item = "{\"fields\":[{\"name\":\"api key\",\"value\":null},{\"name\":\"api key\",\"value\":\"k1\"},{\"name\":\"api key\",\"value\":\"k2\"}]}";
    assert_eq!(secret(command_finished(stage, output(true, item, ""), &none)), "k1");
}

#[test]
fn bitwarden_items_hold_secrets() {
    let item = parse_json(b"{\"fields\":[{\"name\":\"a\",\"value\":\"custom\"}],\"login\":{\"password\":\"pw\",\"username\":\"me\",\"a\":\"login\"}}").unwrap();
    let take = |field: Option<&str>| {
        take_secret(&item, "it".to_string(), field.map(|f| f.to_string()))
    };
    assert_eq!(secret(take(None)), "pw");
    assert_eq!(secret(take(Some("a"))), "custom");
    assert_eq!(secret(take(Some("username"))), "me");
    assert_eq!(failure(take(Some("b"))), "Bitwarden: field 'b' not found in item 'it'");
    let empty = parse_json(b"{\"login\":{}}").unwrap();
    assert_eq!(
        failure(take_secret(&empty, "it".to_string(), None)),
        "Bitwarden: no password field in item 'it'"
    );
}

#[test]
fn bitwarden_command_failures() {
    let none = env(&[]);
    let password = || {
        CommandStage::Bitwarden(BitwardenStage::GetPassword {
            reference: "r".to_string(),
            session: None,
        })
    };
    let item = || {
        CommandStage::Bitwarden(BitwardenStage::GetItem { item: "r".to_string(), field: None })
    };
    let end = |s: CommandStage, o: CommandOutput| failure(command_finished(s, o, &none));
    assert_eq!(end(password(), CommandOutput::NotExecuted), "failed to execute `bw get password`");
    assert_eq!(
        end(password(), output(false, "", "More than one result")),
        "Bitwarden `bw get password` failed: More than one result"
    );
    let garbage = CommandOutput::Finished { success: true, stdout: vec![0xff], stderr: Vec::new() };
    assert_eq!(end(password(), garbage), "Bitwarden returned non-UTF-8 output");
    assert_eq!(end(item(), CommandOutput::NotExecuted), "failed to execute `bw get item`");
    assert_eq!(end(item(), output(false, "", "Not found.")), "Bitwarden `bw get item` failed: Not found.");
    assert_eq!(end(item(), output(true, "oops", "")), "failed to parse Bitwarden item JSON");
}

fn entry(fields: &[(&str, &str)]) -> VaultNode {
    VaultNode::Entry(VaultEntry { fields: env(fields) })
}

fn group(name: &str, children: Vec<VaultNode>) -> VaultGroup {
    VaultGroup { name: name.to_string(), children }
}

fn vault() -> VaultGroup {
    group(
        "Root",
        vec![
            entry(&[("Title", "top"), ("Password", "p0"), ("UserName", "u0")]),
            VaultNode::Group(group(
                "work",
                vec![
                    entry(&[("Title", "mail"), ("Password", "p1"), ("UserName", "u1"), ("URL", "h")]),
                    VaultNode::Group(group(
                        "deep",
                        vec![entry(&[("Title", "mail"), ("Password", "p2"), ("pin", "42")])],
                    )),
                ],
            )),
            VaultNode::Group(group("work", vec![entry(&[("Title", "other"), ("Password", "p3")])])),
        ],
    )
}

#[test]
fn keepass_references() {
    let root = VaultOutcome::Opened(vault());
    assert_eq!(secret(resolve_keepass(&root, "top")), "p0");
    assert_eq!(secret(resolve_keepass(&root, "work/mail")), "p1");
    assert_eq!(secret(resolve_keepass(&root, "work/mail/Username")), "u1");
    assert_eq!(secret(resolve_keepass(&root, "work/mail/UserName")), "u1");
    assert_eq!(secret(resolve_keepass(&root, "work/mail/URL")), "h");
    assert_eq!(secret(resolve_keepass(&root, "work/deep/mail/pin")), "42");
}

#[test]
fn keepass_failures() {
    let root = VaultOutcome::Opened(vault());
    assert_eq!(failure(resolve_keepass(&root, "nope")), "KeePass entry 'nope' not found");
    assert_eq!(failure(resolve_keepass(&root, "work/other")), "KeePass entry 'other' not found");
    assert_eq!(failure(resolve_keepass(&root, "home/x")), "KeePass group 'home' not found");
    assert_eq!(
        failure(resolve_keepass(&root, "work/none/x/pin")),
        "KeePass group 'work/none' not found"
    );
    assert_eq!(
        failure(resolve_keepass(&root, "work/mail/pin")),
        "KeePass entry 'mail' has no field 'pin'"
    );
    let path = || "db".to_string();
    assert_eq!(
        failure(resolve_keepass(&VaultOutcome::DatabaseNotOpened { path: path() }, "x")),
        "failed to open KeePass database: db"
    );
    assert_eq!(
        failure(resolve_keepass(&VaultOutcome::KeyFileNotOpened { path: path() }, "x")),
        "failed to open KeePass key file: db"
    );
    assert_eq!(
        failure(resolve_keepass(&VaultOutcome::KeyFileNotRead, "x")),
        "failed to read KeePass key file"
    );
    assert_eq!(
        failure(resolve_keepass(&VaultOutcome::NotUnlocked, "x")),
        "failed to unlock KeePass database"
    );
    assert_eq!(failure(resolve_keepass(&VaultOutcome::Panicked, "x")), "KeePass task panicked");
}

#[test]
fn keepass_groups_nest() {
    let root = vault();
    let path: Vec<String> = vec!["work".to_string(), "deep".to_string()];
    assert_eq!(find_group(&root, &path).unwrap().name, "deep");
    assert_eq!(find_group(&root, &path[..1]).unwrap().children.len(), 2);
    assert_eq!(find_group(&root, &[]).unwrap().name, "Root");
    assert!(find_group(&root, &path[1..]).is_none());
}

#[test]
fn keepass_opens_its_database() {
    let p = KeePassProvider::new("db.kdbx".to_string(), "KP".to_string(), Some("key".to_string()));
    match p.resolve("work/mail", &env(&[("KP", "master")])) {
        ResolveAction::OpenKeePass { database_path, master_password, key_file, reference } => {
            assert_eq!(database_path, "db.kdbx");
            assert_eq!(master_password, "master");
            assert_eq!(key_file.as_deref(), Some("key"));
            assert_eq!(reference, "work/mail");
        }
        other => panic!("{:?}", other),
    }
    assert_eq!(
        failure(p.resolve("x", &env(&[]))),
        "KeePass master password env var 'KP' not set"
    );
}

#[test]
fn providers_follow_the_configuration() {
    assert!(matches!(create_provider(&CredentialProviderConfig::OnePassword {}), Provider::OnePassword(_)));
    assert!(matches!(create_provider(&CredentialProviderConfig::Bitwarden {}), Provider::Bitwarden(_)));
    let p = create_provider(&CredentialProviderConfig::KeePass {
        database_path: "d".to_string(),
        password_env: "E".to_string(),
        key_file: None,
    });
    assert!(matches!(&p, Provider::KeePass(k) if k.database_path == "d" && k.password_env == "E"));
    assert!(matches!(
        p.resolve("r", &env(&[])),
        ResolveAction::Fail(CredentialError::KpNoPassword { .. })
    ));
    let op = create_provider(&CredentialProviderConfig::OnePassword {});
    assert!(matches!(op.resolve("op://x", &env(&[])), ResolveAction::Run { .. }));
}
