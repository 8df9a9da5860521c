//! The SASL mechanisms that an SMTP server offers for `AUTH`.

use vstd::prelude::*;
use crate::text::{chars_equal, chars_of, string_of};

verus! {

/// An authentication mechanism, named as the server advertises it.
#[derive(Debug, PartialEq, Eq)]
pub enum AuthMechanism {
    Unknown(String),
    Plain,
    Login,
    XOAuth,
    XOAuth2,
    OAuthBearer,
    PlainClientToken,
}

/// The name `PLAIN`.
pub open spec fn plain_name() -> Seq<char> {
    seq!['P', 'L', 'A', 'I', 'N']
}

/// The name `LOGIN`.
pub open spec fn login_name() -> Seq<char> {
    seq!['L', 'O', 'G', 'I', 'N']
}

/// The name `XOAUTH`.
pub open spec fn xoauth_name() -> Seq<char> {
    seq!['X', 'O', 'A', 'U', 'T', 'H']
}

/// The name `XOAUTH2`.
pub open spec fn xoauth2_name() -> Seq<char> {
    seq!['X', 'O', 'A', 'U', 'T', 'H', '2']
}

/// The name `OAUTHBEARER`.
pub open spec fn oauthbearer_name() -> Seq<char> {
    seq!['O', 'A', 'U', 'T', 'H', 'B', 'E', 'A', 'R', 'E', 'R']
}

/// The name `PLAIN-CLIENTTOKEN`.
pub open spec fn plain_client_token_name() -> Seq<char> {
    seq!['P', 'L', 'A', 'I', 'N', '-', 'C', 'L', 'I', 'E', 'N', 'T', 'T', 'O', 'K', 'E', 'N']
}

/// The start of every `AUTH` command: `AUTH` and a space.
pub open spec fn auth_prefix() -> Seq<char> {
    seq!['A', 'U', 'T', 'H', ' ']
}

/// `name` is the name of one of the mechanisms that this library knows.
pub open spec fn is_known_name(name: Seq<char>) -> bool {
    ||| name == plain_name()
    ||| name == login_name()
    ||| name == xoauth_name()
    ||| name == xoauth2_name()
    ||| name == oauthbearer_name()
    ||| name == plain_client_token_name()
}

impl AuthMechanism {
    /// The name under which the mechanism is advertised.
    pub open spec fn name(&self) -> Seq<char> {
        match self {
            AuthMechanism::Unknown(s) => s@,
            AuthMechanism::Plain => plain_name(),
            AuthMechanism::Login => login_name(),
            AuthMechanism::XOAuth => xoauth_name(),
            AuthMechanism::XOAuth2 => xoauth2_name(),
            AuthMechanism::OAuthBearer => oauthbearer_name(),
            AuthMechanism::PlainClientToken => plain_client_token_name(),
        }
    }

    /// The mechanism is the one that the advertised name `name` stands for: a known
    /// mechanism for a known name, and `Unknown` holding the name otherwise.
    pub open spec fn denotes(&self, name: Seq<char>) -> bool {
        &&& self.name() == name
        &&& (self is Unknown <==> !is_known_name(name))
    }

    /// The mechanism that the advertised name `mech` stands for.
    pub fn new(mech: &str) -> (m: Self)
        ensures
            m.denotes(mech@),
    {
        let chars = chars_of(mech);
        Self::from_chars(&chars)
    }

    /// The mechanism that the advertised name `name` stands for.
    pub fn from_chars(name: &[char]) -> (m: Self)
        ensures
            m.denotes(name@),
    {
        let plain = chars_of("PLAIN");
        let login = chars_of("LOGIN");
        let xoauth = chars_of("XOAUTH");
        let xoauth2 = chars_of("XOAUTH2");
        let bearer = chars_of("OAUTHBEARER");
        let client_token = chars_of("PLAIN-CLIENTTOKEN");
        proof {
            reveal_strlit("PLAIN");
            reveal_strlit("LOGIN");
            reveal_strlit("XOAUTH");
            reveal_strlit("XOAUTH2");
            reveal_strlit("OAUTHBEARER");
            reveal_strlit("PLAIN-CLIENTTOKEN");
            assert(plain@ =~= plain_name());
            assert(login@ =~= login_name());
            assert(xoauth@ =~= xoauth_name());
            assert(xoauth2@ =~= xoauth2_name());
            assert(bearer@ =~= oauthbearer_name());
            assert(client_token@ =~= plain_client_token_name());
        }
        if chars_equal(name, &plain) {
            AuthMechanism::Plain
        } else if chars_equal(name, &login) {
            AuthMechanism::Login
        } else if chars_equal(name, &xoauth) {
            AuthMechanism::XOAuth
        } else if chars_equal(name, &xoauth2) {
            AuthMechanism::XOAuth2
        } else if chars_equal(name, &bearer) {
            AuthMechanism::OAuthBearer
        } else if chars_equal(name, &client_token) {
            AuthMechanism::PlainClientToken
        } else {
            AuthMechanism::Unknown(string_of(name))
        }
    }

    /// The text of the `AUTH` command that starts this mechanism: `AUTH ` and the name,
    /// for the mechanisms that this library knows.
    pub open spec fn auth_command_text(&self) -> Option<Seq<char>> {
        if self is Unknown {
            None
        } else {
            Some(auth_prefix() + self.name())
        }
    }

    /// The name under which the mechanism is advertised.
    pub fn name_chars(&self) -> (name: Vec<char>)
        ensures
            name@ == self.name(),
    {
        let (text, known) = match self {
            AuthMechanism::Unknown(s) => (s.as_str(), false),
            AuthMechanism::Plain => ("PLAIN", true),
            AuthMechanism::Login => ("LOGIN", true),
            AuthMechanism::XOAuth => ("XOAUTH", true),
            AuthMechanism::XOAuth2 => ("XOAUTH2", true),
            AuthMechanism::OAuthBearer => ("OAUTHBEARER", true),
            AuthMechanism::PlainClientToken => ("PLAIN-CLIENTTOKEN", true),
        };
        proof {
            reveal_strlit("PLAIN");
            reveal_strlit("LOGIN");
            reveal_strlit("XOAUTH");
            reveal_strlit("XOAUTH2");
            reveal_strlit("OAUTHBEARER");
            reveal_strlit("PLAIN-CLIENTTOKEN");
        }
        let name = chars_of(text);
        assert(name@ =~= self.name());
        name
    }

    /// The `AUTH` command that starts this mechanism, for the mechanisms that this
    /// library knows; nothing for an unknown one.
    pub fn auth_command(&self) -> (cmd: Option<String>)
        ensures
            cmd is Some <==> self.auth_command_text() is Some,
            cmd matches Some(c) ==> c@ == self.auth_command_text().unwrap(),
    {
        if let AuthMechanism::Unknown(_) = self {
            return None;
        }
        let mut text = chars_of("AUTH ");
        proof {
            reveal_strlit("AUTH ");
            assert(text@ =~= auth_prefix());
        }
        let mut name = self.name_chars();
        text.append(&mut name);
        Some(string_of(&text))
    }
}

/// An advertised name stands for one mechanism only: two mechanisms that a name
/// denotes have the same name, and are the same when the name is known.
pub proof fn lemma_denotes_unique(first: AuthMechanism, second: AuthMechanism, name: Seq<char>)
    requires
        first.denotes(name),
        second.denotes(name),
    ensures
        first.name() == second.name(),
        first is Unknown <==> second is Unknown,
        !(first is Unknown) ==> first == second,
{
    assert(plain_name() != plain_client_token_name()) by {
        assert(plain_name().len() != plain_client_token_name().len());
    }
    assert(plain_name() != login_name()) by {
        assert(plain_name()[0] != login_name()[0]);
    }
    assert(xoauth_name() != xoauth2_name()) by {
        assert(xoauth_name().len() != xoauth2_name().len());
    }
}

/// The command that starts a known mechanism is `AUTH `, a space, and the very name
/// under which the server advertised it, the name that `new` reads it from; an
/// unknown mechanism has none.
pub proof fn lemma_auth_command_names_mechanism(m: AuthMechanism, advertised: Seq<char>)
    requires
        m.denotes(advertised),
    ensures
        is_known_name(advertised) ==> m.auth_command_text() == Some(
            seq!['A', 'U', 'T', 'H', ' '] + advertised,
        ),
        !is_known_name(advertised) ==> m.auth_command_text() is None,
{
}

/// Each known mechanism is advertised under its registered SASL name.
pub proof fn lemma_registered_names()
    ensures
        AuthMechanism::Plain.name() == seq!['P', 'L', 'A', 'I', 'N'],
        AuthMechanism::Login.name() == seq!['L', 'O', 'G', 'I', 'N'],
        AuthMechanism::XOAuth.name() == seq!['X', 'O', 'A', 'U', 'T', 'H'],
        AuthMechanism::XOAuth2.name() == seq!['X', 'O', 'A', 'U', 'T', 'H', '2'],
        AuthMechanism::OAuthBearer.name() == seq![
            'O',
            'A',
            'U',
            'T',
            'H',
            'B',
            'E',
            'A',
            'R',
            'E',
            'R',
        ],
        AuthMechanism::PlainClientToken.name() == seq![
            'P',
            'L',
            'A',
            'I',
            'N',
            '-',
            'C',
            'L',
            'I',
            'E',
            'N',
            'T',
            'T',
            'O',
            'K',
            'E',
            'N',
        ],
{
}

} // verus!
