//! Bitwarden credential provider using the `bw` CLI.
use vstd::prelude::*;
use vstd::string::*;
use crate::credential;
use crate::credential::{
    CommandOutput, CommandStage, CredentialError, CredentialProvider, ResolveAction,
};
use crate::json;
use crate::json::{Json, JsonTree};
use crate::name_map::NameMap;
use crate::text;

verus! {

/// Bitwarden credential provider using the `bw` CLI.
///
/// Supports:
/// - API key login via `BW_CLIENTID` + `BW_CLIENTSECRET` env vars
/// - Session token via `BW_SESSION` env var
/// - Interactive unlock
///
/// References are item search terms (name, ID, or URI).
#[derive(Debug)]
pub struct BitwardenProvider;

/// A `bw` command whose output is waited for.
#[derive(Debug)]
pub enum BitwardenStage {
    Status { reference: String },
    Login { reference: String, status: String },
    Unlock { reference: String },
    GetPassword { reference: String, session: Option<String> },
    GetItem { item: String, field: Option<String> },
}

impl BitwardenProvider {
    /// The provider.
    pub fn new() -> (r: BitwardenProvider)
        ensures
            r == BitwardenProvider,
    {
        BitwardenProvider
    }
}

/// The arguments `args`, and with a session those that hand it over.
pub open spec fn with_session(args: Seq<Seq<char>>, session: Option<Seq<char>>) -> Seq<Seq<char>> {
    match session {
        Some(token) => args.push("--session"@).push(token),
        None => args,
    }
}

/// The password of `reference` is asked for.
pub open spec fn gets_password(
    reference: Seq<char>,
    session: Option<Seq<char>>,
    action: ResolveAction,
) -> bool {
    &&& credential::runs(
        action,
        "bw"@,
        with_session(seq!["get"@, "password"@, reference], session),
    )
    &&& action->stage matches CommandStage::Bitwarden(
        BitwardenStage::GetPassword { reference: kept, session: open },
    )
    &&& kept@ == reference
    &&& open.deep_view() == session
}

/// Ensures the vault is unlocked, from what its status says.
pub open spec fn unlocks(
    status: Seq<char>,
    reference: Seq<char>,
    environment: Map<Seq<char>, Seq<char>>,
    action: ResolveAction,
) -> bool {
    if text::occurs(status, "\"locked\""@) {
        if environment.contains_key("BW_PASSWORD"@) {
            &&& credential::runs(
                action,
                "bw"@,
                seq!["unlock"@, "--passwordenv"@, "BW_PASSWORD"@, "--raw"@],
            )
            &&& action->stage matches CommandStage::Bitwarden(
                BitwardenStage::Unlock { reference: kept },
            )
            &&& kept@ == reference
        } else {
            action == ResolveAction::Fail(CredentialError::BwLocked)
        }
    } else {
        gets_password(reference, None, action)
    }
}

/// Ensures that the user is logged in and the vault is unlocked, from what its status says.
pub open spec fn logs_in(
    status: Seq<char>,
    reference: Seq<char>,
    environment: Map<Seq<char>, Seq<char>>,
    action: ResolveAction,
) -> bool {
    if text::occurs(status, "\"unauthenticated\""@) {
        if environment.contains_key("BW_CLIENTID"@) && environment.contains_key(
            "BW_CLIENTSECRET"@,
        ) {
            &&& credential::runs(action, "bw"@, seq!["login"@, "--apikey"@])
            &&& action->stage matches CommandStage::Bitwarden(
                BitwardenStage::Login { reference: kept, status: said },
            )
            &&& kept@ == reference
            &&& said@ == status
        } else {
            action == ResolveAction::Fail(CredentialError::BwNotAuthenticated)
        }
    } else {
        unlocks(status, reference, environment, action)
    }
}

/// The session that the environment names.
pub open spec fn named_session(environment: Map<Seq<char>, Seq<char>>) -> Option<Seq<char>> {
    if environment.contains_key("BW_SESSION"@) && environment["BW_SESSION"@].len() > 0 {
        Some(environment["BW_SESSION"@])
    } else {
        None
    }
}

impl CredentialProvider for BitwardenProvider {
    open spec fn begins(
        &self,
        reference: Seq<char>,
        environment: Map<Seq<char>, Seq<char>>,
        action: ResolveAction,
    ) -> bool {
        match named_session(environment) {
            Some(session) => gets_password(reference, Some(session), action),
            None => {
                &&& credential::runs(action, "bw"@, seq!["status"@])
                &&& action->stage matches CommandStage::Bitwarden(
                    BitwardenStage::Status { reference: kept },
                )
                &&& kept@ == reference
            },
        }
    }

    fn resolve(&self, reference: &str, environment: &NameMap<String>) -> (r: ResolveAction) {
        if let Some(session) = environment.get("BW_SESSION") {
            if !session.as_str().is_empty() {
                return get_password(reference.to_owned(), Some(session.clone()));
            }
        }
        let mut args: Vec<String> = Vec::new();
        args.push("status".to_owned());
        assert(args.deep_view() =~= seq!["status"@]);
        ResolveAction::Run {
            program: "bw".to_owned(),
            args,
            stage: CommandStage::Bitwarden(
                BitwardenStage::Status { reference: reference.to_owned() },
            ),
        }
    }
}

/// The arguments of `bw get`.
fn get_args(what: &str, name: &str, session: &Option<String>) -> (r: Vec<String>)
    ensures
        r.deep_view() == with_session(seq!["get"@, what@, name@], session.deep_view()),
{
    let mut args: Vec<String> = Vec::new();
    args.push("get".to_owned());
    args.push(what.to_owned());
    args.push(name.to_owned());
    assert(args.deep_view() =~= seq!["get"@, what@, name@]);
    if let Some(token) = session {
        args.push("--session".to_owned());
        args.push(token.clone());
        assert(args.deep_view() =~= seq!["get"@, what@, name@].push("--session"@).push(token@));
    }
    args
}

/// Asks for the password of `reference`.
fn get_password(reference: String, session: Option<String>) -> (r: ResolveAction)
    ensures
        gets_password(reference@, session.deep_view(), r),
{
    let args = get_args("password", reference.as_str(), &session);
    ResolveAction::Run {
        program: "bw".to_owned(),
        args,
        stage: CommandStage::Bitwarden(BitwardenStage::GetPassword { reference, session }),
    }
}

/// Goes on from the status of the vault, where the user is logged in.
pub fn unlock(status: &str, reference: String, environment: &NameMap<String>) -> (r: ResolveAction)
    ensures
        unlocks(status@, reference@, environment@, r),
{
    if text::contains(status, "\"locked\"") {
        if !environment.contains_key("BW_PASSWORD") {
            return ResolveAction::Fail(CredentialError::BwLocked);
        }
        let mut args: Vec<String> = Vec::new();
        args.push("unlock".to_owned());
        args.push("--passwordenv".to_owned());
        args.push("BW_PASSWORD".to_owned());
        args.push("--raw".to_owned());
        assert(args.deep_view() =~= seq!["unlock"@, "--passwordenv"@, "BW_PASSWORD"@, "--raw"@]);
        return ResolveAction::Run {
            program: "bw".to_owned(),
            args,
            stage: CommandStage::Bitwarden(BitwardenStage::Unlock { reference }),
        };
    }
    get_password(reference, None)
}

/// Goes on from the status of the vault.
pub fn get_session(status: String, reference: String, environment: &NameMap<String>) -> (r:
    ResolveAction)
    ensures
        logs_in(status@, reference@, environment@, r),
{
    if text::contains(status.as_str(), "\"unauthenticated\"") {
        if environment.contains_key("BW_CLIENTID") && environment.contains_key("BW_CLIENTSECRET") {
            let mut args: Vec<String> = Vec::new();
            args.push("login".to_owned());
            args.push("--apikey".to_owned());
            assert(args.deep_view() =~= seq!["login"@, "--apikey"@]);
            return ResolveAction::Run {
                program: "bw".to_owned(),
                args,
                stage: CommandStage::Bitwarden(BitwardenStage::Login { reference, status }),
            };
        }
        return ResolveAction::Fail(CredentialError::BwNotAuthenticated);
    }
    unlock(status.as_str(), reference, environment)
}

/// The item that a reference names, and the field: "item-name" or "item-name/field-name".
pub open spec fn item_and_field(reference: Seq<char>) -> (Seq<char>, Option<Seq<char>>) {
    let at = text::last_index(reference, '/');
    if at < 0 {
        (reference, None)
    } else {
        (reference.take(at), Some(reference.skip(at + 1)))
    }
}

/// The full item of `reference` is asked for.
pub open spec fn gets_item(
    reference: Seq<char>,
    session: Option<Seq<char>>,
    action: ResolveAction,
) -> bool {
    let (item, field) = item_and_field(reference);
    &&& credential::runs(action, "bw"@, with_session(seq!["get"@, "item"@, item], session))
    &&& action->stage matches CommandStage::Bitwarden(
        BitwardenStage::GetItem { item: kept, field: wanted },
    )
    &&& kept@ == item
    &&& wanted.deep_view() == field
}

/// The text under the name `name` in an object.
pub open spec fn text_field(object: JsonTree, name: Seq<char>) -> Option<Seq<char>> {
    match object.field(name) {
        Some(value) => value.text(),
        None => None,
    }
}

/// The value of the first custom field of the name `name` that has a text for a value.
pub open spec fn custom_field(fields: Seq<JsonTree>, name: Seq<char>) -> Option<Seq<char>>
    decreases fields.len(),
{
    if fields.len() == 0 {
        None
    } else if text_field(fields[0], "name"@) == Some(name) && text_field(
        fields[0],
        "value"@,
    ) is Some {
        text_field(fields[0], "value"@)
    } else {
        custom_field(fields.drop_first(), name)
    }
}

/// The text under the name `name` in the login of an item.
pub open spec fn login_field(item: JsonTree, name: Seq<char>) -> Option<Seq<char>> {
    match item.field("login"@) {
        Some(login) => text_field(login, name),
        None => None,
    }
}

/// The secret that an item holds: a custom field or a login field of the name `field`, or the
/// password of the login where no field is named.
pub open spec fn item_secret(item: JsonTree, field: Option<Seq<char>>) -> Option<Seq<char>> {
    match field {
        None => login_field(item, "password"@),
        Some(name) => {
            let custom = match item.field("fields"@) {
                Some(fields) => match fields.items() {
                    Some(fields) => custom_field(fields, name),
                    None => None,
                },
                None => None,
            };
            if custom is Some {
                custom
            } else {
                login_field(item, name)
            }
        },
    }
}

/// The outcome where `item` is the item that was asked for.
pub open spec fn takes_secret(
    item: JsonTree,
    item_name: Seq<char>,
    field: Option<Seq<char>>,
    action: ResolveAction,
) -> bool {
    match item_secret(item, field) {
        Some(secret) => action matches ResolveAction::Done { secret: got } && got@ == secret,
        None => match field {
            Some(name) => action matches ResolveAction::Fail(
                CredentialError::BwNoField { field: missing, item: from },
            ) && missing@ == name && from@ == item_name,
            None => action matches ResolveAction::Fail(
                CredentialError::BwNoPassword { item: from },
            ) && from@ == item_name,
        },
    }
}

/// What comes after a `bw get password` that failed with the words `errors`.
pub open spec fn after_refusal(
    errors: Seq<char>,
    reference: Seq<char>,
    session: Option<Seq<char>>,
    action: ResolveAction,
) -> bool {
    if text::occurs(errors, "Not found"@) {
        gets_item(reference, session, action)
    } else {
        action matches ResolveAction::Fail(CredentialError::BwGetPasswordFailed { stderr })
            && stderr@ == text::trimmed(errors)
    }
}

/// What comes after the `bw` command of `stage`.
pub open spec fn after_stage(
    stage: BitwardenStage,
    output: CommandOutput,
    environment: Map<Seq<char>, Seq<char>>,
    action: ResolveAction,
) -> bool {
    match output {
        CommandOutput::NotExecuted => action == ResolveAction::Fail(
            match stage {
                BitwardenStage::Status { .. } => CredentialError::BwNotExecuted,
                BitwardenStage::Login { .. } => CredentialError::BwLoginNotExecuted,
                BitwardenStage::Unlock { .. } => CredentialError::BwUnlockNotExecuted,
                BitwardenStage::GetPassword { .. } => CredentialError::BwGetPasswordNotExecuted,
                BitwardenStage::GetItem { .. } => CredentialError::BwGetItemNotExecuted,
            },
        ),
        CommandOutput::Finished { success, stdout, stderr } => {
            let errors = text::utf8_lossy(stderr@);
            match stage {
                BitwardenStage::Status { reference } => logs_in(
                    text::utf8_lossy(stdout@),
                    reference@,
                    environment,
                    action,
                ),
                BitwardenStage::Login { reference, status } => if success {
                    unlocks(status@, reference@, environment, action)
                } else {
                    action matches ResolveAction::Fail(
                        CredentialError::BwLoginFailed { stderr: words },
                    ) && words@ == text::trimmed(errors)
                },
                BitwardenStage::Unlock { reference } => if !success {
                    action == ResolveAction::Fail(CredentialError::BwLocked)
                } else if !vstd::utf8::valid_utf8(stdout@) {
                    action == ResolveAction::Fail(CredentialError::BwUnlockNotUtf8)
                } else {
                    let session = text::trimmed(vstd::utf8::decode_utf8(stdout@));
                    if session.len() > 0 {
                        gets_password(reference@, Some(session), action)
                    } else {
                        action == ResolveAction::Fail(CredentialError::BwLocked)
                    }
                },
                BitwardenStage::GetPassword { reference, session } => if success {
                    if vstd::utf8::valid_utf8(stdout@) {
                        action matches ResolveAction::Done { secret } && secret@
                            == text::trimmed_end(vstd::utf8::decode_utf8(stdout@))
                    } else {
                        action == ResolveAction::Fail(CredentialError::BwNotUtf8)
                    }
                } else {
                    after_refusal(errors, reference@, session.deep_view(), action)
                },
                BitwardenStage::GetItem { item, field } => if success {
                    match json::json_parsed(stdout@) {
                        None => action == ResolveAction::Fail(CredentialError::BwItemUnparsable),
                        Some(found) => takes_secret(found, item@, field.deep_view(), action),
                    }
                } else {
                    action matches ResolveAction::Fail(
                        CredentialError::BwGetItemFailed { stderr: words },
                    ) && words@ == text::trimmed(errors)
                },
            }
        },
    }
}

/// The item that a reference names, and the field.
fn split_reference(reference: &str) -> (r: (String, Option<String>))
    ensures
        (r.0@, r.1.deep_view()) == item_and_field(reference@),
{
    proof {
        text::lemma_last_index(reference@, '/');
    }
    match text::rfind(reference, '/') {
        Some(at) => {
            let chars = text::chars_of(reference);
            let total: usize = chars.len();
            let item = reference.substring_char(0, at).to_owned();
            let field = reference.substring_char(at + 1, total).to_owned();
            assert(reference@.contains('/'));
            assert(item@ =~= reference@.take(at as int));
            assert(field@ =~= reference@.skip(at + 1));
            (item, Some(field))
        },
        None => (reference.to_owned(), None),
    }
}

/// Fallback: get the full item JSON and extract the password or a custom field.
/// Reference format: "item-name" or "item-name/field-name"
pub fn resolve_item_field(reference: &str, session: &Option<String>) -> (r: ResolveAction)
    ensures
        gets_item(reference@, session.deep_view(), r),
{
    let (item, field) = split_reference(reference);
    let args = get_args("item", item.as_str(), session);
    ResolveAction::Run {
        program: "bw".to_owned(),
        args,
        stage: CommandStage::Bitwarden(BitwardenStage::GetItem { item, field }),
    }
}

/// Goes on after a `bw get password` that failed with the words `errors`.
pub fn password_refused(errors: &str, reference: &str, session: &Option<String>) -> (r:
    ResolveAction)
    ensures
        after_refusal(errors@, reference@, session.deep_view(), r),
{
    if text::contains(errors, "Not found") {
        resolve_item_field(reference, session)
    } else {
        ResolveAction::Fail(
            CredentialError::BwGetPasswordFailed { stderr: text::trim(errors).to_owned() },
        )
    }
}

/// The text under the name `name` in an object.
fn get_text<'a>(object: &'a Json, name: &str) -> (r: Option<&'a str>)
    ensures
        match r {
            Some(s) => text_field(object.tree(), name@) == Some(s@),
            None => text_field(object.tree(), name@) is None,
        },
{
    match object.get(name) {
        Some(value) => value.as_str(),
        None => None,
    }
}

/// The value of the first custom field of the name `name` that has a text for a value.
fn find_custom_field<'a>(fields: &'a Vec<Json>, name: &str) -> (r: Option<&'a str>)
    ensures
        match r {
            Some(s) => custom_field(json::trees(fields@), name@) == Some(s@),
            None => custom_field(json::trees(fields@), name@) is None,
        },
{
    let ghost all = json::trees(fields@);
    let mut i: usize = 0;
    proof {
        json::lemma_trees(fields@);
        assert(all.skip(0) =~= all);
    }
    while i < fields.len()
        invariant
            i <= fields@.len(),
            all == json::trees(fields@),
            all.len() == fields@.len(),
            forall|j: int| 0 <= j < fields@.len() ==> #[trigger] all[j] == fields@[j].tree(),
            custom_field(all, name@) == custom_field(all.skip(i as int), name@),
        decreases fields@.len() - i,
    {
        proof {
            assert(all.skip(i as int)[0] == all[i as int]);
            assert(all.skip(i as int).drop_first() =~= all.skip(i + 1));
        }
        if let Some(found) = get_text(&fields[i], "name") {
            if text::same_text(found, name) {
                if let Some(value) = get_text(&fields[i], "value") {
                    return Some(value);
                }
            }
        }
        i += 1;
    }
    None
}

/// The text under the name `name` in the login of an item.
fn get_login<'a>(item: &'a Json, name: &str) -> (r: Option<&'a str>)
    ensures
        match r {
            Some(s) => login_field(item.tree(), name@) == Some(s@),
            None => login_field(item.tree(), name@) is None,
        },
{
    match item.get("login") {
        Some(login) => get_text(login, name),
        None => None,
    }
}

/// Takes the secret out of an item.
pub fn take_secret(item: &Json, item_name: String, field: Option<String>) -> (r: ResolveAction)
    ensures
        takes_secret(item.tree(), item_name@, field.deep_view(), r),
{
    match field {
        None => match get_login(item, "password") {
            Some(secret) => ResolveAction::Done { secret: secret.to_owned() },
            None => ResolveAction::Fail(CredentialError::BwNoPassword { item: item_name }),
        },
        Some(name) => {
            if let Some(fields) = item.get("fields") {
                if let Some(fields) = fields.as_array() {
                    if let Some(secret) = find_custom_field(fields, name.as_str()) {
                        return ResolveAction::Done { secret: secret.to_owned() };
                    }
                }
            }
            match get_login(item, name.as_str()) {
                Some(secret) => ResolveAction::Done { secret: secret.to_owned() },
                None => ResolveAction::Fail(
                    CredentialError::BwNoField { field: name, item: item_name },
                ),
            }
        },
    }
}

/// Goes on after a `bw` command.
pub fn stage_finished(
    stage: BitwardenStage,
    output: CommandOutput,
    environment: &NameMap<String>,
) -> (r: ResolveAction)
    ensures
        after_stage(stage, output, environment@, r),
{
    match output {
        CommandOutput::NotExecuted => ResolveAction::Fail(
            match stage {
                BitwardenStage::Status { .. } => CredentialError::BwNotExecuted,
                BitwardenStage::Login { .. } => CredentialError::BwLoginNotExecuted,
                BitwardenStage::Unlock { .. } => CredentialError::BwUnlockNotExecuted,
                BitwardenStage::GetPassword { .. } => CredentialError::BwGetPasswordNotExecuted,
                BitwardenStage::GetItem { .. } => CredentialError::BwGetItemNotExecuted,
            },
        ),
        CommandOutput::Finished { success, stdout, stderr } => {
            let errors = text::lossy_text(stderr.as_slice());
            let words = text::trim(errors.as_str()).to_owned();
            match stage {
                BitwardenStage::Status { reference } => get_session(
                    text::lossy_text(stdout.as_slice()),
                    reference,
                    environment,
                ),
                BitwardenStage::Login { reference, status } => {
                    if success {
                        unlock(status.as_str(), reference, environment)
                    } else {
                        ResolveAction::Fail(CredentialError::BwLoginFailed { stderr: words })
                    }
                },
                BitwardenStage::Unlock { reference } => {
                    if !success {
                        return ResolveAction::Fail(CredentialError::BwLocked);
                    }
                    match text::utf8_text(stdout) {
                        None => ResolveAction::Fail(CredentialError::BwUnlockNotUtf8),
                        Some(session) => {
                            let session = text::trim(session.as_str());
                            if session.is_empty() {
                                ResolveAction::Fail(CredentialError::BwLocked)
                            } else {
                                get_password(reference, Some(session.to_owned()))
                            }
                        },
                    }
                },
                BitwardenStage::GetPassword { reference, session } => {
                    if success {
                        return match text::utf8_text(stdout) {
                            Some(secret) => ResolveAction::Done {
                                secret: text::trim_end(secret.as_str()).to_owned(),
                            },
                            None => ResolveAction::Fail(CredentialError::BwNotUtf8),
                        };
                    }
                    password_refused(errors.as_str(), reference.as_str(), &session)
                },
                BitwardenStage::GetItem { item, field } => {
                    if !success {
                        return ResolveAction::Fail(
                            CredentialError::BwGetItemFailed { stderr: words },
                        );
                    }
                    match json::parse_json(stdout.as_slice()) {
                        None => ResolveAction::Fail(CredentialError::BwItemUnparsable),
                        Some(found) => take_secret(&found, item, field),
                    }
                },
            }
        },
    }
}

/// The two forms of a reference to an item: "item-name" and "item-name/field-name".
pub proof fn law_item_reference_forms(item: Seq<char>, field: Seq<char>)
    requires
        !field.contains('/'),
    ensures
        !item.contains('/') ==> item_and_field(item) == (item, None::<Seq<char>>),
        item_and_field(item.push('/') + field) == (item, Some(field)),
{
    text::lemma_last_index(item, '/');
    let reference = item.push('/') + field;
    text::lemma_last_index(reference, '/');
    let at = item.len() as int;
    assert(reference[at] == '/');
    assert forall|j: int| at < j < reference.len() implies reference[j] != '/' by {
        assert(reference[j] == field[j - at - 1]);
    }
    assert(text::is_last_index(reference, '/', at));
    assert(reference.take(at) =~= item);
    assert(reference.skip(at + 1) =~= field);
}

/// A bound on the number of `bw` commands that follow the one of `stage`.
pub open spec fn stages_left(stage: BitwardenStage) -> nat {
    match stage {
        BitwardenStage::Status { .. } => 4,
        BitwardenStage::Login { .. } => 3,
        BitwardenStage::Unlock { .. } => 2,
        BitwardenStage::GetPassword { .. } => 1,
        BitwardenStage::GetItem { .. } => 0,
    }
}

/// Every resolution ends: a command that follows another is always nearer to the end, whatever the
/// commands print.
pub proof fn law_commands_end(
    stage: BitwardenStage,
    output: CommandOutput,
    environment: Map<Seq<char>, Seq<char>>,
    action: ResolveAction,
)
    requires
        after_stage(stage, output, environment, action),
        action is Run,
    ensures
        action->stage matches CommandStage::Bitwarden(next) && stages_left(next) < stages_left(
            stage,
        ),
{
}

/// The password is asked for with the session that the environment names, where it names one that
/// is not empty, and otherwise the status of the vault is asked for first.
pub proof fn law_bw_begins(
    provider: BitwardenProvider,
    reference: Seq<char>,
    environment: Map<Seq<char>, Seq<char>>,
    action: ResolveAction,
)
    requires
        provider.begins(reference, environment, action),
    ensures
        environment.contains_key("BW_SESSION"@) && environment["BW_SESSION"@].len() > 0 ==> (
        action matches ResolveAction::Run { program, args, stage } && program@ == "bw"@
            && args.deep_view() == seq![
            "get"@,
            "password"@,
            reference,
            "--session"@,
            environment["BW_SESSION"@],
        ] && (stage matches CommandStage::Bitwarden(
            BitwardenStage::GetPassword { reference: kept, session },
        ) && kept@ == reference && session.deep_view() == Some(environment["BW_SESSION"@]))),
        !(environment.contains_key("BW_SESSION"@) && environment["BW_SESSION"@].len() > 0) ==> (
        action matches ResolveAction::Run { program, args, stage } && program@ == "bw"@
            && args.deep_view() == seq!["status"@] && (stage matches CommandStage::Bitwarden(
            BitwardenStage::Status { reference: kept },
        ) && kept@ == reference)),
{
    if environment.contains_key("BW_SESSION"@) {
        let session = environment["BW_SESSION"@];
        assert(seq!["get"@, "password"@, reference].push("--session"@).push(session) =~= seq![
            "get"@,
            "password"@,
            reference,
            "--session"@,
            session,
        ]);
    }
}

/// From the status of the vault: a user that is not logged in is, with the key of the environment
/// if both its parts are there; a vault that is locked is unlocked, with the password of the
/// environment if that is there; and otherwise the password is asked for, without a session.
pub proof fn law_bw_status(
    reference: String,
    stdout: Vec<u8>,
    stderr: Vec<u8>,
    success: bool,
    status: Seq<char>,
    environment: Map<Seq<char>, Seq<char>>,
    action: ResolveAction,
)
    requires
        text::utf8_lossy(stdout@) == status,
        after_stage(
            BitwardenStage::Status { reference },
            CommandOutput::Finished { success, stdout, stderr },
            environment,
            action,
        ),
    ensures
        text::occurs(status, "\"unauthenticated\""@) && environment.contains_key("BW_CLIENTID"@)
            && environment.contains_key("BW_CLIENTSECRET"@) ==> (action matches ResolveAction::Run {
            program,
            args,
            stage,
        } && program@ == "bw"@ && args.deep_view() == seq!["login"@, "--apikey"@] && (
        stage matches CommandStage::Bitwarden(BitwardenStage::Login { reference: kept, status: said })
            && kept@ == reference@ && said@ == status)),
        text::occurs(status, "\"unauthenticated\""@) && !(environment.contains_key("BW_CLIENTID"@)
            && environment.contains_key("BW_CLIENTSECRET"@)) ==> action == ResolveAction::Fail(
            CredentialError::BwNotAuthenticated,
        ),
        !text::occurs(status, "\"unauthenticated\""@) && text::occurs(status, "\"locked\""@)
            && environment.contains_key("BW_PASSWORD"@) ==> (action matches ResolveAction::Run {
            program,
            args,
            stage,
        } && program@ == "bw"@ && args.deep_view() == seq![
            "unlock"@,
            "--passwordenv"@,
            "BW_PASSWORD"@,
            "--raw"@,
        ] && (stage matches CommandStage::Bitwarden(BitwardenStage::Unlock { reference: kept })
            && kept@ == reference@)),
        !text::occurs(status, "\"unauthenticated\""@) && text::occurs(status, "\"locked\""@)
            && !environment.contains_key("BW_PASSWORD"@) ==> action == ResolveAction::Fail(
            CredentialError::BwLocked,
        ),
        !text::occurs(status, "\"unauthenticated\""@) && !text::occurs(status, "\"locked\""@) ==> (
        action matches ResolveAction::Run { program, args, stage } && program@ == "bw"@
            && args.deep_view() == seq!["get"@, "password"@, reference@] && (
        stage matches CommandStage::Bitwarden(
            BitwardenStage::GetPassword { reference: kept, session },
        ) && kept@ == reference@ && session is None)),
{
    law_bw_unlock(status, reference@, environment, action);
}

/// A vault that is locked is unlocked with the password of the environment, if that is there, and
/// otherwise the password is asked for, without a session.
pub proof fn law_bw_unlock(
    status: Seq<char>,
    reference: Seq<char>,
    environment: Map<Seq<char>, Seq<char>>,
    action: ResolveAction,
)
    ensures
        unlocks(status, reference, environment, action) && text::occurs(status, "\"locked\""@)
            && environment.contains_key("BW_PASSWORD"@) ==> (action matches ResolveAction::Run {
            program,
            args,
            stage,
        } && program@ == "bw"@ && args.deep_view() == seq![
            "unlock"@,
            "--passwordenv"@,
            "BW_PASSWORD"@,
            "--raw"@,
        ] && (stage matches CommandStage::Bitwarden(BitwardenStage::Unlock { reference: kept })
            && kept@ == reference)),
        unlocks(status, reference, environment, action) && text::occurs(status, "\"locked\""@)
            && !environment.contains_key("BW_PASSWORD"@) ==> action == ResolveAction::Fail(
            CredentialError::BwLocked,
        ),
        unlocks(status, reference, environment, action) && !text::occurs(status, "\"locked\""@)
            ==> (action matches ResolveAction::Run { program, args, stage } && program@ == "bw"@
            && args.deep_view() == seq!["get"@, "password"@, reference] && (
        stage matches CommandStage::Bitwarden(
            BitwardenStage::GetPassword { reference: kept, session },
        ) && kept@ == reference && session is None)),
{
}

/// After a login that succeeded it goes on from the status that was asked for before; one that
/// failed is told with what was printed.
pub proof fn law_bw_login(
    reference: String,
    status: String,
    stdout: Vec<u8>,
    stderr: Vec<u8>,
    success: bool,
    environment: Map<Seq<char>, Seq<char>>,
    action: ResolveAction,
)
    requires
        after_stage(
            BitwardenStage::Login { reference, status },
            CommandOutput::Finished { success, stdout, stderr },
            environment,
            action,
        ),
    ensures
        success ==> unlocks(status@, reference@, environment, action),
        !success ==> (action matches ResolveAction::Fail(e) && e.words()
            == "Bitwarden API key login failed: "@ + text::trimmed(text::utf8_lossy(stderr@))),
{
}

/// The session that an unlocking printed, without the white space around it, is used to ask for
/// the password; without one the vault is locked.
pub proof fn law_bw_unlocked(
    reference: String,
    stdout: Vec<u8>,
    stderr: Vec<u8>,
    success: bool,
    before: Seq<char>,
    session: Seq<char>,
    after: Seq<char>,
    environment: Map<Seq<char>, Seq<char>>,
    action: ResolveAction,
)
    requires
        stdout@ == vstd::utf8::encode_utf8(before + session + after),
        forall|i: int| 0 <= i < before.len() ==> text::whitespace(#[trigger] before[i]),
        forall|i: int| 0 <= i < after.len() ==> text::whitespace(#[trigger] after[i]),
        session.len() > 0 ==> !text::whitespace(session.first()) && !text::whitespace(
            session.last(),
        ),
        after_stage(
            BitwardenStage::Unlock { reference },
            CommandOutput::Finished { success, stdout, stderr },
            environment,
            action,
        ),
    ensures
        success && session.len() > 0 ==> (action matches ResolveAction::Run { program, args, stage }
            && program@ == "bw"@ && args.deep_view() == seq![
            "get"@,
            "password"@,
            reference@,
            "--session"@,
            session,
        ] && (stage matches CommandStage::Bitwarden(
            BitwardenStage::GetPassword { reference: kept, session: open },
        ) && kept@ == reference@ && open.deep_view() == Some(session))),
        !(success && session.len() > 0) ==> action == ResolveAction::Fail(
            CredentialError::BwLocked,
        ),
{
    let printed = before + session + after;
    vstd::utf8::encode_utf8_valid_utf8(printed);
    vstd::utf8::encode_utf8_decode_utf8(printed);
    text::law_trim(before, session, after);
    assert(seq!["get"@, "password"@, reference@].push("--session"@).push(session) =~= seq![
        "get"@,
        "password"@,
        reference@,
        "--session"@,
        session,
    ]);
}

/// The secret is what `bw get password` printed, but for the white space at its end.
pub proof fn law_bw_password(
    reference: String,
    session: Option<String>,
    stdout: Vec<u8>,
    stderr: Vec<u8>,
    secret: Seq<char>,
    white: Seq<char>,
    environment: Map<Seq<char>, Seq<char>>,
    action: ResolveAction,
)
    requires
        stdout@ == vstd::utf8::encode_utf8(secret + white),
        secret.len() == 0 || !text::whitespace(secret.last()),
        forall|i: int| 0 <= i < white.len() ==> text::whitespace(#[trigger] white[i]),
        after_stage(
            BitwardenStage::GetPassword { reference, session },
            CommandOutput::Finished { success: true, stdout, stderr },
            environment,
            action,
        ),
    ensures
        action matches ResolveAction::Done { secret: got } && got@ == secret,
{
    vstd::utf8::encode_utf8_valid_utf8(secret + white);
    vstd::utf8::encode_utf8_decode_utf8(secret + white);
    text::law_trim_end(secret, white);
}

/// Where no item has the reference for its name, the item is asked for that the reference names
/// before its last slash, within the same session, and the field after that slash is wanted of it;
/// any other failure is told with what was printed.
pub proof fn law_bw_password_refused(
    reference: String,
    session: Option<String>,
    stdout: Vec<u8>,
    stderr: Vec<u8>,
    item: Seq<char>,
    field: Seq<char>,
    environment: Map<Seq<char>, Seq<char>>,
    action: ResolveAction,
)
    requires
        !field.contains('/'),
        reference@ == item.push('/') + field,
        after_stage(
            BitwardenStage::GetPassword { reference, session },
            CommandOutput::Finished { success: false, stdout, stderr },
            environment,
            action,
        ),
    ensures
        text::occurs(text::utf8_lossy(stderr@), "Not found"@) ==> (
        action matches ResolveAction::Run { program, args, stage } && program@ == "bw"@
            && args.deep_view() == (seq!["get"@, "item"@, item] + match session {
            Some(token) => seq!["--session"@, token@],
            None => Seq::<Seq<char>>::empty(),
        }) && (stage matches CommandStage::Bitwarden(
            BitwardenStage::GetItem { item: kept, field: wanted },
        ) && kept@ == item && wanted.deep_view() == Some(field))),
        !text::occurs(text::utf8_lossy(stderr@), "Not found"@) ==> (
        action matches ResolveAction::Fail(e) && e.words()
            == "Bitwarden `bw get password` failed: "@ + text::trimmed(
            text::utf8_lossy(stderr@),
        )),
{
    law_item_reference_forms(item, field);
    let asked = seq!["get"@, "item"@, item];
    match session {
        Some(token) => {
            assert(asked.push("--session"@).push(token@) =~= asked + seq!["--session"@, token@]);
        },
        None => {
            assert(asked + Seq::<Seq<char>>::empty() =~= asked);
        },
    }
}

/// A reference without a slash names an item, of which the password is wanted.
pub proof fn law_bw_item_without_field(
    reference: Seq<char>,
    session: Option<Seq<char>>,
    action: ResolveAction,
)
    requires
        !reference.contains('/'),
        gets_item(reference, session, action),
    ensures
        action matches ResolveAction::Run { program, args, stage } && program@ == "bw"@
            && args.deep_view() == (seq!["get"@, "item"@, reference] + match session {
            Some(token) => seq!["--session"@, token],
            None => Seq::<Seq<char>>::empty(),
        }) && (stage matches CommandStage::Bitwarden(
            BitwardenStage::GetItem { item, field },
        ) && item@ == reference && field is None),
{
    law_item_reference_forms(reference, Seq::empty());
    let asked = seq!["get"@, "item"@, reference];
    match session {
        Some(token) => {
            assert(asked.push("--session"@).push(token) =~= asked + seq!["--session"@, token]);
        },
        None => {
            assert(asked + Seq::<Seq<char>>::empty() =~= asked);
        },
    }
}

/// A custom field: its name, and its value where that is a text.
pub open spec fn is_custom_field(field: JsonTree, name: Seq<char>, value: Seq<char>) -> bool {
    field matches JsonTree::Object(m) && m.contains_key("name"@) && m["name"@] == JsonTree::Text(
        name,
    ) && m.contains_key("value"@) && m["value"@] == JsonTree::Text(value)
}

/// Of the custom fields with one name the first one that has a text for a value counts, wherever it
/// stands, and a value is found only when there is one.
pub proof fn law_first_custom_field(
    fields: Seq<JsonTree>,
    name: Seq<char>,
    value: Seq<char>,
    i: int,
)
    ensures
        0 <= i < fields.len() && is_custom_field(fields[i], name, value) && (forall|
            j: int,
            v: Seq<char>,
        |
            0 <= j < i ==> !(#[trigger] is_custom_field(fields[j], name, v))) ==> custom_field(
            fields,
            name,
        ) == Some(value),
        custom_field(fields, name) == Some(value) ==> exists|j: int|
            0 <= j < fields.len() && #[trigger] is_custom_field(fields[j], name, value),
    decreases fields.len(),
{
    if fields.len() > 0 {
        let rest = fields.drop_first();
        law_first_custom_field(rest, name, value, i - 1);
        assert forall|j: int| 0 <= j < rest.len() implies #[trigger] rest[j] == fields[j + 1] by {
        }
        if custom_field(fields, name) == Some(value) {
            if text_field(fields[0], "name"@) == Some(name) && text_field(
                fields[0],
                "value"@,
            ) is Some {
                assert(is_custom_field(fields[0], name, value));
            } else {
                let k = choose|k: int|
                    0 <= k < rest.len() && #[trigger] is_custom_field(rest[k], name, value);
                assert(is_custom_field(fields[k + 1], name, value));
            }
        }
        if 0 < i < fields.len() && is_custom_field(fields[i], name, value) && (forall|
            j: int,
            v: Seq<char>,
        |
            0 <= j < i ==> !(#[trigger] is_custom_field(fields[j], name, v))) {
            assert(rest[i - 1] == fields[i]);
            assert forall|j: int, v: Seq<char>| 0 <= j < i - 1 implies !(
            #[trigger] is_custom_field(rest[j], name, v)) by {
                assert(!is_custom_field(fields[j + 1], name, v));
            }
            if text_field(fields[0], "name"@) == Some(name) && text_field(
                fields[0],
                "value"@,
            ) is Some {
                let v = text_field(fields[0], "value"@)->0;
                assert(is_custom_field(fields[0], name, v));
            }
        }
    }
}

/// The secret of an item: without a field the password of its login; with one a custom field of
/// that name, and where there is none, what the login holds under the name.
pub proof fn law_item_secret(item: Map<Seq<char>, JsonTree>, name: Seq<char>, custom: Seq<JsonTree>)
    ensures
        item_secret(JsonTree::Object(item), None) == (if item.contains_key("login"@) && (
        item["login"@] matches JsonTree::Object(login) && login.contains_key("password"@) && (
        login["password"@] is Text)) {
            Some(item["login"@]->Object_0["password"@]->Text_0)
        } else {
            None
        }),
        item.contains_key("fields"@) && item["fields"@] == JsonTree::Array(custom) && custom_field(
            custom,
            name,
        ) is Some ==> item_secret(JsonTree::Object(item), Some(name)) == custom_field(custom, name),
        !(item.contains_key("fields"@) && item["fields"@] is Array) || custom_field(
            item["fields"@]->Array_0,
            name,
        ) is None ==> item_secret(JsonTree::Object(item), Some(name)) == (if item.contains_key(
            "login"@,
        ) && (item["login"@] matches JsonTree::Object(login) && login.contains_key(name)
            && login[name] is Text) {
            Some(item["login"@]->Object_0[name]->Text_0)
        } else {
            None
        }),
{
}

/// The secret of an item that was found is taken from it exactly where it holds one; what is
/// missing is told.
pub proof fn law_bw_item(
    item: String,
    field: Option<String>,
    stdout: Vec<u8>,
    stderr: Vec<u8>,
    success: bool,
    environment: Map<Seq<char>, Seq<char>>,
    action: ResolveAction,
)
    requires
        after_stage(
            BitwardenStage::GetItem { item, field },
            CommandOutput::Finished { success, stdout, stderr },
            environment,
            action,
        ),
    ensures
        action is Done <==> success && json::json_parsed(stdout@) is Some && item_secret(
            json::json_parsed(stdout@)->0,
            field.deep_view(),
        ) is Some,
        action matches ResolveAction::Done { secret } ==> item_secret(
            json::json_parsed(stdout@)->0,
            field.deep_view(),
        ) == Some(secret@),
        !success ==> (action matches ResolveAction::Fail(e) && e.words()
            == "Bitwarden `bw get item` failed: "@ + text::trimmed(text::utf8_lossy(stderr@))),
        success && json::json_parsed(stdout@) is None ==> action == ResolveAction::Fail(
            CredentialError::BwItemUnparsable,
        ),
        success && json::json_parsed(stdout@) is Some && !(action is Done) && field is Some ==> (
        action matches ResolveAction::Fail(e) && e.words() == "Bitwarden: field '"@ + field->0@
            + "' not found in item '"@ + item@ + "'"@),
        success && json::json_parsed(stdout@) is Some && !(action is Done) && field is None ==> (
        action matches ResolveAction::Fail(e) && e.words()
            == "Bitwarden: no password field in item '"@ + item@ + "'"@),
{
}

/// What could not be run is told by what it was to do, and no secret comes of what is not text.
pub proof fn law_bw_not_run(
    stage: BitwardenStage,
    stdout: Vec<u8>,
    stderr: Vec<u8>,
    environment: Map<Seq<char>, Seq<char>>,
    action: ResolveAction,
)
    ensures
        after_stage(stage, CommandOutput::NotExecuted, environment, action) ==> action is Fail && (
        action->Fail_0.words() == match stage {
            BitwardenStage::Status { .. } =>
            "failed to execute `bw` CLI — is Bitwarden CLI installed?"@,
            BitwardenStage::Login { .. } => "bw login --apikey failed"@,
            BitwardenStage::Unlock { .. } => "bw unlock failed"@,
            BitwardenStage::GetPassword { .. } => "failed to execute `bw get password`"@,
            BitwardenStage::GetItem { .. } => "failed to execute `bw get item`"@,
        }),
        !vstd::utf8::valid_utf8(stdout@) && after_stage(
            stage,
            CommandOutput::Finished { success: true, stdout, stderr },
            environment,
            action,
        ) ==> (stage is GetPassword ==> action == ResolveAction::Fail(CredentialError::BwNotUtf8))
            && (stage is Unlock ==> action == ResolveAction::Fail(
            CredentialError::BwUnlockNotUtf8,
        )),
{
}

} // verus!
