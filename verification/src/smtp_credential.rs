//! Credentials for SMTP authentication and their encodings on the wire.

use vstd::prelude::*;
use base64::{Engine, engine::general_purpose};
use crate::auth_mechanism::AuthMechanism;
use crate::error::SmtpError;
use crate::text::push_char;

verus! {

/// Whether a mechanism exchanges its credential in several rounds.
#[derive(Debug, PartialEq, Eq, Structural)]
pub enum Challenge {
    Challenging,
    NonChallenging,
    NotSupported,
}

/// A credential for one of the supported mechanisms.
#[derive(Debug, PartialEq, Eq)]
pub enum SmtpCredential {
    EmailPassword { email: String, password: String },
    OAuth { email: String, access_token: String },
    OAuthBearer { bearer_token: String },
}

/// What the base64 crate's `STANDARD` engine (RFC 4648 alphabet, with `=` padding)
/// encodes the UTF-8 bytes of `text` to.
pub uninterp spec fn base64_standard(text: Seq<char>) -> Seq<char>;

/// `c` can stand in standard base64 text: a letter, a digit, `+`, `/` or the padding `=`.
pub open spec fn is_base64_char(c: char) -> bool {
    ||| 'A' <= c <= 'Z'
    ||| 'a' <= c <= 'z'
    ||| '0' <= c <= '9'
    ||| c == '+'
    ||| c == '/'
    ||| c == '='
}

/// The start of an OAUTHBEARER client response: `n,,`, then `\x01auth=Bearer `.
pub open spec fn bearer_prefix() -> Seq<char> {
    seq!['n', ',', ',', '\x01', 'a', 'u', 't', 'h', '=', 'B', 'e', 'a', 'r', 'e', 'r', ' ']
}

/// The end of an OAUTHBEARER client response: two `\x01`.
pub open spec fn bearer_suffix() -> Seq<char> {
    seq!['\x01', '\x01']
}

/// The SASL PLAIN message for an identity and a secret: NUL, identity, NUL, secret.
pub open spec fn plain_message(identity: Seq<char>, secret: Seq<char>) -> Seq<char> {
    seq!['\0'] + identity + seq!['\0'] + secret
}

/// How a credential answers `mechanism`: the base64 text that is sent, or, for
/// `LOGIN`, the two base64 texts joined by a comma; nothing where the credential
/// does not suit the mechanism.
pub open spec fn auth_payload(credential: SmtpCredential, mechanism: AuthMechanism) -> Option<
    Seq<char>,
> {
    match credential {
        SmtpCredential::EmailPassword { email, password } => match mechanism {
            AuthMechanism::Plain | AuthMechanism::PlainClientToken => Some(
                base64_standard(plain_message(email@, password@)),
            ),
            AuthMechanism::Login => Some(
                base64_standard(email@) + seq![','] + base64_standard(password@),
            ),
            _ => None,
        },
        SmtpCredential::OAuth { email, access_token } => match mechanism {
            AuthMechanism::XOAuth | AuthMechanism::XOAuth2 => Some(
                base64_standard(plain_message(email@, access_token@)),
            ),
            _ => None,
        },
        SmtpCredential::OAuthBearer { bearer_token } => match mechanism {
            AuthMechanism::OAuthBearer => Some(
                base64_standard(bearer_prefix() + bearer_token@ + bearer_suffix()),
            ),
            _ => None,
        },
    }
}

/// Whether `mechanism` exchanges its credential in several rounds.
pub open spec fn challenge_of(mechanism: AuthMechanism) -> Challenge {
    match mechanism {
        AuthMechanism::Login => Challenge::Challenging,
        AuthMechanism::Unknown(_) => Challenge::NotSupported,
        _ => Challenge::NonChallenging,
    }
}

impl SmtpCredential {
    /// An email address and its password.
    pub fn new_email_password(email: String, password: String) -> (c: Self)
        ensures
            c == (SmtpCredential::EmailPassword { email, password }),
    {
        SmtpCredential::EmailPassword { email, password }
    }

    /// An email address and an OAuth access token.
    pub fn new_oauth(email: String, access_token: String) -> (c: Self)
        ensures
            c == (SmtpCredential::OAuth { email, access_token }),
    {
        SmtpCredential::OAuth { email, access_token }
    }

    /// An OAuth 2.0 bearer token.
    pub fn new_oauth_bearer(bearer_token: String) -> (c: Self)
        ensures
            c == (SmtpCredential::OAuthBearer { bearer_token }),
    {
        SmtpCredential::OAuthBearer { bearer_token }
    }

    /// Calls `Engine::encode` of the base64 crate's `general_purpose::STANDARD` engine
    /// on the UTF-8 bytes of `plain`. Claimed: the result is the name `base64_standard`
    /// applied to `plain`, and each of its characters is one of the standard alphabet
    /// (`A`-`Z`, `a`-`z`, `0`-`9`, `+`, `/`) or the padding `=`. The encoder panics only
    /// when the encoded length overflows `usize`, which no `String` can reach, as a
    /// `String` holds at most `isize::MAX` bytes.
    #[verifier::external_body]
    pub fn encode(plain: &String) -> (encoded: String)
        ensures
            encoded@ == base64_standard(plain@),
            forall|i: int| 0 <= i < encoded@.len() ==> is_base64_char(#[trigger] encoded@[i]),
    {
        general_purpose::STANDARD.encode(plain)
    }

    /// The text that answers `mechanism` with this credential.
    pub fn encode_auth(&self, mechanism: &AuthMechanism) -> (r: Result<String, SmtpError>)
        ensures
            r is Ok <==> auth_payload(*self, *mechanism) is Some,
            r matches Ok(s) ==> s@ == auth_payload(*self, *mechanism).unwrap(),
            r is Err ==> r matches Err(SmtpError::UnsupportedAuth),
            r matches Ok(s) ==> forall|i: int, j: int|
                0 <= i < s@.len() && 0 <= j < s@.len() && s@[i] == ',' && s@[j] == ',' ==> i
                    == j,
    {
        match self {
            SmtpCredential::EmailPassword { email, password } => match mechanism {
                AuthMechanism::Plain | AuthMechanism::PlainClientToken => Ok(
                    Self::encode(&Self::plain_text(email, password)),
                ),
                AuthMechanism::Login => {
                    let mut text = Self::encode(email);
                    push_char(&mut text, ',');
                    let pass = Self::encode(password);
                    text.append(pass.as_str());
                    Ok(text)
                },
                _ => Err(SmtpError::UnsupportedAuth),
            },
            SmtpCredential::OAuth { email, access_token } => match mechanism {
                AuthMechanism::XOAuth | AuthMechanism::XOAuth2 => Ok(
                    Self::encode(&Self::plain_text(email, access_token)),
                ),
                _ => Err(SmtpError::UnsupportedAuth),
            },
            SmtpCredential::OAuthBearer { bearer_token } => match mechanism {
                AuthMechanism::OAuthBearer => {
                    let mut text = String::from_str("n,,\x01auth=Bearer ");
                    text.append(bearer_token.as_str());
                    text.append("\x01\x01");
                    proof {
                        reveal_strlit("n,,\x01auth=Bearer ");
                        reveal_strlit("\x01\x01");
                        assert(text@ =~= bearer_prefix() + bearer_token@ + bearer_suffix());
                    }
                    Ok(Self::encode(&text))
                },
                _ => Err(SmtpError::UnsupportedAuth),
            },
        }
    }

    /// The SASL PLAIN message NUL, `identity`, NUL, `secret`.
    fn plain_text(identity: &String, secret: &String) -> (text: String)
        ensures
            text@ == plain_message(identity@, secret@),
    {
        let mut text = String::new();
        push_char(&mut text, '\0');
        text.append(identity.as_str());
        push_char(&mut text, '\0');
        text.append(secret.as_str());
        assert(text@ =~= plain_message(identity@, secret@));
        text
    }

    /// Whether `mechanism` exchanges the credential in several rounds; the credential
    /// itself does not matter.
    pub fn check_challenging_mechanism(&self, mechanism: &AuthMechanism) -> (c: Challenge)
        ensures
            c == challenge_of(*mechanism),
    {
        match mechanism {
            AuthMechanism::Plain
            | AuthMechanism::PlainClientToken
            | AuthMechanism::XOAuth
            | AuthMechanism::XOAuth2
            | AuthMechanism::OAuthBearer => Challenge::NonChallenging,
            AuthMechanism::Login => Challenge::Challenging,
            _ => Challenge::NotSupported,
        }
    }
}

/// What each credential sends for each mechanism. PLAIN (and PLAIN-CLIENTTOKEN) send
/// the base64 of NUL, email, NUL, password; XOAUTH and XOAUTH2 the same with the access
/// token; LOGIN the base64 email and the base64 password, joined by a comma;
/// OAUTHBEARER the base64 of `n,,`, `\x01auth=Bearer `, the whole token, and two
/// `\x01`: the encoded text holds the token entire, whatever its length. Every other
/// pairing sends nothing.
pub proof fn lemma_payload_texts(credential: SmtpCredential, mechanism: AuthMechanism)
    ensures
        ({
            let nul = seq!['\0'];
            match credential {
                SmtpCredential::EmailPassword { email, password } => {
                    &&& (mechanism is Plain || mechanism is PlainClientToken) ==> auth_payload(
                        credential,
                        mechanism,
                    ) == Some(base64_standard(nul + email@ + nul + password@))
                    &&& mechanism is Login ==> auth_payload(credential, mechanism) == Some(
                        base64_standard(email@) + seq![','] + base64_standard(password@),
                    )
                    &&& !(mechanism is Plain || mechanism is PlainClientToken
                        || mechanism is Login) ==> auth_payload(credential, mechanism) is None
                },
                SmtpCredential::OAuth { email, access_token } => {
                    &&& (mechanism is XOAuth || mechanism is XOAuth2) ==> auth_payload(
                        credential,
                        mechanism,
                    ) == Some(base64_standard(nul + email@ + nul + access_token@))
                    &&& !(mechanism is XOAuth || mechanism is XOAuth2) ==> auth_payload(
                        credential,
                        mechanism,
                    ) is None
                },
                SmtpCredential::OAuthBearer { bearer_token } => {
                    &&& mechanism is OAuthBearer ==> exists|text: Seq<char>|
                        {
                            &&& auth_payload(credential, mechanism) == Some(base64_standard(text))
                            &&& text.len() == 16 + bearer_token@.len() + 2
                            &&& text.take(16) == seq![
                                'n',
                                ',',
                                ',',
                                '\x01',
                                'a',
                                'u',
                                't',
                                'h',
                                '=',
                                'B',
                                'e',
                                'a',
                                'r',
                                'e',
                                'r',
                                ' ',
                            ]
                            &&& text.subrange(16, 16 + bearer_token@.len() as int) == bearer_token@
                            &&& text.skip(16 + bearer_token@.len() as int) == seq!['\x01', '\x01']
                        }
                    &&& !(mechanism is OAuthBearer) ==> auth_payload(credential, mechanism) is None
                },
            }
        }),
{
    if let SmtpCredential::OAuthBearer { bearer_token } = credential {
        if mechanism is OAuthBearer {
            let text = bearer_prefix() + bearer_token@ + bearer_suffix();
            assert(text.take(16) =~= bearer_prefix());
            assert(text.subrange(16, 16 + bearer_token@.len() as int) =~= bearer_token@);
            assert(text.skip(16 + bearer_token@.len() as int) =~= bearer_suffix());
        }
    }
}

} // verus!
