//! Choosing a mechanism and gathering a credential for it, apart from the terminal.

use vstd::prelude::*;
use crate::auth_mechanism::AuthMechanism;
use crate::error::SmtpError;
use crate::smtp_credential::{auth_payload, challenge_of, Challenge, SmtpCredential};
use crate::text::{chars_of, parse_usize, parse_usize_chars, string_of, trim, trim_chars};

verus! {

/// The kind of credential that a mechanism takes.
#[derive(Debug, PartialEq, Eq, Structural)]
pub enum CredentialForm {
    /// An email address and a password.
    EmailPassword,
    /// An email address and an OAuth token.
    EmailToken,
    /// A bearer token alone.
    BearerToken,
}

/// The kind of credential that `mechanism` takes; nothing for an unknown mechanism.
pub open spec fn credential_form(mechanism: AuthMechanism) -> Option<CredentialForm> {
    match mechanism {
        AuthMechanism::Plain | AuthMechanism::PlainClientToken | AuthMechanism::Login => Some(
            CredentialForm::EmailPassword,
        ),
        AuthMechanism::XOAuth | AuthMechanism::XOAuth2 => Some(CredentialForm::EmailToken),
        AuthMechanism::OAuthBearer => Some(CredentialForm::BearerToken),
        AuthMechanism::Unknown(_) => None,
    }
}

/// The kind of credential that `credential` is.
pub open spec fn form_of(credential: SmtpCredential) -> CredentialForm {
    match credential {
        SmtpCredential::EmailPassword { .. } => CredentialForm::EmailPassword,
        SmtpCredential::OAuth { .. } => CredentialForm::EmailToken,
        SmtpCredential::OAuthBearer { .. } => CredentialForm::BearerToken,
    }
}

/// The label `Email`.
pub open spec fn email_label() -> Seq<char> {
    seq!['E', 'm', 'a', 'i', 'l']
}

/// The label `Password`.
pub open spec fn password_label() -> Seq<char> {
    seq!['P', 'a', 's', 's', 'w', 'o', 'r', 'd']
}

/// The label `OAuth Token`.
pub open spec fn oauth_token_label() -> Seq<char> {
    seq!['O', 'A', 'u', 't', 'h', ' ', 'T', 'o', 'k', 'e', 'n']
}

/// The label `Bearer Token`.
pub open spec fn bearer_token_label() -> Seq<char> {
    seq!['B', 'e', 'a', 'r', 'e', 'r', ' ', 'T', 'o', 'k', 'e', 'n']
}

/// The labels of the answers that a credential of kind `form` is made of, in the
/// order in which they are asked.
pub open spec fn prompt_labels(form: CredentialForm) -> Seq<Seq<char>> {
    match form {
        CredentialForm::EmailPassword => seq![email_label(), password_label()],
        CredentialForm::EmailToken => seq![email_label(), oauth_token_label()],
        CredentialForm::BearerToken => seq![bearer_token_label()],
    }
}

/// The number of answers that a credential for `mechanism` is made of.
pub open spec fn answer_count(mechanism: AuthMechanism) -> nat {
    match credential_form(mechanism) {
        Some(form) => prompt_labels(form).len(),
        None => 0,
    }
}

/// The labels under which the answers for a credential for `auth_mechanism` are asked,
/// in order; none for an unknown mechanism.
pub fn credential_prompts(auth_mechanism: &AuthMechanism) -> (labels: Vec<String>)
    ensures
        labels@.len() == answer_count(*auth_mechanism),
        credential_form(*auth_mechanism) matches Some(form) ==> forall|k: int|
            0 <= k < labels@.len() ==> #[trigger] labels@[k]@ == prompt_labels(form)[k],
{
    let mut labels: Vec<String> = Vec::new();
    proof {
        reveal_strlit("Email");
        reveal_strlit("Password");
        reveal_strlit("OAuth Token");
        reveal_strlit("Bearer Token");
    }
    match auth_mechanism {
        AuthMechanism::Plain | AuthMechanism::PlainClientToken | AuthMechanism::Login => {
            labels.push(String::from_str("Email"));
            labels.push(String::from_str("Password"));
            assert(labels@[0]@ =~= email_label());
            assert(labels@[1]@ =~= password_label());
        },
        AuthMechanism::XOAuth | AuthMechanism::XOAuth2 => {
            labels.push(String::from_str("Email"));
            labels.push(String::from_str("OAuth Token"));
            assert(labels@[0]@ =~= email_label());
            assert(labels@[1]@ =~= oauth_token_label());
        },
        AuthMechanism::OAuthBearer => {
            labels.push(String::from_str("Bearer Token"));
            assert(labels@[0]@ =~= bearer_token_label());
        },
        AuthMechanism::Unknown(_) => {},
    }
    labels
}

/// The credential for `auth_mechanism` made of `answers`, given in the order of
/// `credential_prompts`; for an unknown mechanism, an error that holds its name.
pub fn cli_auth_credentials(auth_mechanism: &AuthMechanism, answers: Vec<String>) -> (r: Result<
    SmtpCredential,
    SmtpError,
>)
    requires
        answers@.len() == answer_count(*auth_mechanism),
    ensures
        r is Ok <==> credential_form(*auth_mechanism) is Some,
        r matches Err(e) ==> (e matches SmtpError::UnknownMechanism(name) && name@
            == auth_mechanism.name()),
        r matches Ok(c) ==> form_of(c) == credential_form(*auth_mechanism).unwrap(),
        r matches Ok(c) ==> match c {
            SmtpCredential::EmailPassword { email, password } => email == answers@[0]
                && password == answers@[1],
            SmtpCredential::OAuth { email, access_token } => email == answers@[0]
                && access_token == answers@[1],
            SmtpCredential::OAuthBearer { bearer_token } => bearer_token == answers@[0],
        },
{
    let mut answers = answers;
    let ghost given = answers@;
    match auth_mechanism {
        AuthMechanism::Plain | AuthMechanism::PlainClientToken | AuthMechanism::Login => {
            let password = answers.remove(1);
            let email = answers.remove(0);
            Ok(SmtpCredential::new_email_password(email, password))
        },
        AuthMechanism::XOAuth | AuthMechanism::XOAuth2 => {
            let token = answers.remove(1);
            let email = answers.remove(0);
            Ok(SmtpCredential::new_oauth(email, token))
        },
        AuthMechanism::OAuthBearer => {
            let token = answers.remove(0);
            Ok(SmtpCredential::new_oauth_bearer(token))
        },
        AuthMechanism::Unknown(s) => Err(SmtpError::UnknownMechanism(s.clone())),
    }
}

/// The mechanism that the line `input`, typed when asked for a number, picks from
/// `auth_mechs`: the one at the index that the trimmed line writes in decimal.
pub fn cli_auth_smtp(auth_mechs: Vec<AuthMechanism>, input: &str) -> (r: Result<
    AuthMechanism,
    SmtpError,
>)
    ensures
        auth_mechs@.len() == 0 ==> r matches Err(SmtpError::NoAuthMechanism),
        auth_mechs@.len() > 0 ==> match parse_usize(trim(input@)) {
            None => (r matches Err(SmtpError::InvalidChoice(typed)) && typed@ == trim(input@)),
            Some(n) => if n < auth_mechs@.len() {
                (r matches Ok(m) && m == auth_mechs@[n])
            } else {
                (r matches Err(SmtpError::ChoiceOutOfRange(last)) && last == auth_mechs@.len()
                    - 1)
            },
        },
{
    if auth_mechs.len() == 0 {
        return Err(SmtpError::NoAuthMechanism);
    }
    let chars = chars_of(input);
    let typed = trim_chars(&chars);
    match parse_usize_chars(&typed) {
        None => Err(SmtpError::InvalidChoice(string_of(&typed))),
        Some(choice) => {
            if choice >= auth_mechs.len() {
                Err(SmtpError::ChoiceOutOfRange(auth_mechs.len() - 1))
            } else {
                let mut auth_mechs = auth_mechs;
                Ok(auth_mechs.remove(choice))
            }
        },
    }
}

/// A credential can be encoded for a mechanism exactly when it is of the kind that the
/// mechanism takes; so the credential gathered for a mechanism always encodes for it.
pub proof fn lemma_gathered_credential_encodes(credential: SmtpCredential, mechanism: AuthMechanism)
    ensures
        auth_payload(credential, mechanism) is Some <==> credential_form(mechanism) == Some(
            form_of(credential),
        ),
{
}

/// A mechanism for which a credential can be gathered is exactly one that is not
/// reported as unsupported, and `LOGIN` alone exchanges it in several rounds.
pub proof fn lemma_form_matches_challenge(mechanism: AuthMechanism)
    ensures
        credential_form(mechanism) is Some <==> challenge_of(mechanism) != Challenge::NotSupported,
        challenge_of(mechanism) == Challenge::Challenging <==> mechanism is Login,
{
}

/// The answers are asked under these labels, in this order: `Email` then `Password`
/// for an email-and-password credential, `Email` then `OAuth Token` for an OAuth one,
/// and `Bearer Token` alone for a bearer token.
pub proof fn lemma_prompt_labels()
    ensures
        prompt_labels(CredentialForm::EmailPassword) == seq![
            seq!['E', 'm', 'a', 'i', 'l'],
            seq!['P', 'a', 's', 's', 'w', 'o', 'r', 'd'],
        ],
        prompt_labels(CredentialForm::EmailToken) == seq![
            seq!['E', 'm', 'a', 'i', 'l'],
            seq!['O', 'A', 'u', 't', 'h', ' ', 'T', 'o', 'k', 'e', 'n'],
        ],
        prompt_labels(CredentialForm::BearerToken) == seq![
            seq!['B', 'e', 'a', 'r', 'e', 'r', ' ', 'T', 'o', 'k', 'e', 'n'],
        ],
{
}

} // verus!
