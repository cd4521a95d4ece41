//! 1Password credential provider using the `op` CLI.
use vstd::prelude::*;
use vstd::string::*;
use crate::credential;
use crate::credential::{
    CommandOutput, CommandStage, CredentialError, CredentialProvider, ResolveAction,
};
use crate::name_map::NameMap;
use crate::text;

verus! {

/// 1Password credential provider using the `op` CLI.
///
/// Supports:
/// - Service accounts via `OP_SERVICE_ACCOUNT_TOKEN` env var (zero interaction)
/// - Interactive `op` CLI with biometric unlock
///
/// References use the `op://` format: `op://vault/item/field`
#[derive(Debug)]
pub struct OnePasswordProvider;

impl OnePasswordProvider {
    /// The provider.
    pub fn new() -> (r: OnePasswordProvider)
        ensures
            r == OnePasswordProvider,
    {
        OnePasswordProvider
    }
}

impl CredentialProvider for OnePasswordProvider {
    open spec fn begins(
        &self,
        reference: Seq<char>,
        environment: Map<Seq<char>, Seq<char>>,
        action: ResolveAction,
    ) -> bool {
        if "op://"@.is_prefix_of(reference) {
            &&& credential::runs(action, "op"@, seq!["read"@, reference, "--no-newline"@])
            &&& action->stage == CommandStage::OpRead
        } else {
            action matches ResolveAction::Fail(CredentialError::OpReference { reference: got })
                && got@ == reference
        }
    }

    fn resolve(&self, reference: &str, environment: &NameMap<String>) -> (r: ResolveAction) {
        if !text::starts_with(reference, "op://") {
            return ResolveAction::Fail(
                CredentialError::OpReference { reference: reference.to_owned() },
            );
        }
        let mut args: Vec<String> = Vec::new();
        args.push("read".to_owned());
        args.push(reference.to_owned());
        args.push("--no-newline".to_owned());
        assert(args.deep_view() =~= seq!["read"@, reference@, "--no-newline"@]);
        ResolveAction::Run { program: "op".to_owned(), args, stage: CommandStage::OpRead }
    }
}

/// What comes after an `op read` that failed with the words `errors`.
pub open spec fn after_refusal(errors: Seq<char>, action: ResolveAction) -> bool {
    if text::occurs(errors, "not signed in"@) || text::occurs(errors, "session expired"@) {
        action matches ResolveAction::Fail(CredentialError::OpNotSignedIn { stderr }) && stderr@
            == text::trimmed(errors)
    } else {
        action matches ResolveAction::Fail(CredentialError::OpFailed { stderr }) && stderr@
            == text::trimmed(errors)
    }
}

/// What comes after `op read`.
pub open spec fn after_read(output: CommandOutput, action: ResolveAction) -> bool {
    match output {
        CommandOutput::NotExecuted => action == ResolveAction::Fail(CredentialError::OpNotExecuted),
        CommandOutput::Finished { success, stdout, stderr } => if success {
            if vstd::utf8::valid_utf8(stdout@) {
                action matches ResolveAction::Done { secret } && secret@ == text::trimmed_end(
                    vstd::utf8::decode_utf8(stdout@),
                )
            } else {
                action == ResolveAction::Fail(CredentialError::OpNotUtf8)
            }
        } else {
            after_refusal(text::utf8_lossy(stderr@), action)
        },
    }
}

/// Goes on after an `op read` that failed with the words `errors`.
pub fn read_refused(errors: &str) -> (r: ResolveAction)
    ensures
        after_refusal(errors@, r),
{
    let stderr = text::trim(errors).to_owned();
    if text::contains(errors, "not signed in") || text::contains(errors, "session expired") {
        ResolveAction::Fail(CredentialError::OpNotSignedIn { stderr })
    } else {
        ResolveAction::Fail(CredentialError::OpFailed { stderr })
    }
}

/// Goes on after `op read`.
pub fn read_finished(output: CommandOutput) -> (r: ResolveAction)
    ensures
        after_read(output, r),
{
    match output {
        CommandOutput::NotExecuted => ResolveAction::Fail(CredentialError::OpNotExecuted),
        CommandOutput::Finished { success, stdout, stderr } => {
            if success {
                return match text::utf8_text(stdout) {
                    Some(secret) => ResolveAction::Done {
                        secret: text::trim_end(secret.as_str()).to_owned(),
                    },
                    None => ResolveAction::Fail(CredentialError::OpNotUtf8),
                };
            }
            read_refused(text::lossy_text(stderr.as_slice()).as_str())
        },
    }
}

/// A reference that starts with `op://` is read as it is; any other is refused.
pub proof fn law_op_reference(
    provider: OnePasswordProvider,
    rest: Seq<char>,
    reference: Seq<char>,
    environment: Map<Seq<char>, Seq<char>>,
    action: ResolveAction,
)
    ensures
        provider.begins("op://"@ + rest, environment, action) ==> (
        action matches ResolveAction::Run { program, args, stage } && program@ == "op"@
            && args@.len() == 3 && args@[0]@ == "read"@ && args@[1]@ == "op://"@ + rest
            && args@[2]@ == "--no-newline"@ && stage is OpRead),
        provider.begins(reference, environment, action) && !"op://"@.is_prefix_of(reference) ==> (
        action matches ResolveAction::Fail(e) && e.words()
            == "1Password reference must start with 'op://', got: "@ + reference),
{
    let named = "op://"@ + rest;
    assert(named.take("op://"@.len() as int) =~= "op://"@);
    if provider.begins(named, environment, action) {
        if let ResolveAction::Run { program, args, stage } = action {
            let list = args.deep_view();
            assert(list.len() == args@.len());
            assert(list[0] == args@[0]@ && list[1] == args@[1]@ && list[2] == args@[2]@);
        }
    }
}

/// The secret is what `op read` printed, but for the white space at its end.
pub proof fn law_op_secret(
    stdout: Vec<u8>,
    stderr: Vec<u8>,
    secret: Seq<char>,
    white: Seq<char>,
    action: ResolveAction,
)
    requires
        stdout@ == vstd::utf8::encode_utf8(secret + white),
        secret.len() == 0 || !text::whitespace(secret.last()),
        forall|i: int| 0 <= i < white.len() ==> text::whitespace(#[trigger] white[i]),
        after_read(CommandOutput::Finished { success: true, stdout, stderr }, action),
    ensures
        action matches ResolveAction::Done { secret: got } && got@ == secret,
{
    vstd::utf8::encode_utf8_valid_utf8(secret + white);
    vstd::utf8::encode_utf8_decode_utf8(secret + white);
    text::law_trim_end(secret, white);
}

/// A secret comes only from a command that succeeded and printed text. A refusal is told with what
/// was printed, without the white space around it, and as a missing sign-in where it speaks of one.
pub proof fn law_op_refused(
    stdout: Vec<u8>,
    stderr: Vec<u8>,
    success: bool,
    action: ResolveAction,
)
    requires
        after_read(CommandOutput::Finished { success, stdout, stderr }, action),
    ensures
        action is Done <==> success && vstd::utf8::valid_utf8(stdout@),
        success && !vstd::utf8::valid_utf8(stdout@) ==> action == ResolveAction::Fail(
            CredentialError::OpNotUtf8,
        ),
        !success && (text::occurs(text::utf8_lossy(stderr@), "not signed in"@) || text::occurs(
            text::utf8_lossy(stderr@),
            "session expired"@,
        )) ==> (action matches ResolveAction::Fail(e) && e is OpNotSignedIn && e.words()
            == "1Password: not signed in. Run `op signin` or set OP_SERVICE_ACCOUNT_TOKEN. Error: "@
            + text::trimmed(text::utf8_lossy(stderr@))),
        !success && !(text::occurs(text::utf8_lossy(stderr@), "not signed in"@) || text::occurs(
            text::utf8_lossy(stderr@),
            "session expired"@,
        )) ==> (action matches ResolveAction::Fail(e) && e is OpFailed && e.words()
            == "1Password `op read` failed: "@ + text::trimmed(text::utf8_lossy(stderr@))),
{
}

/// A command that could not be run is told as such.
pub proof fn law_op_not_run(action: ResolveAction)
    requires
        after_read(CommandOutput::NotExecuted, action),
    ensures
        action == ResolveAction::Fail(CredentialError::OpNotExecuted),
{
}

} // verus!
