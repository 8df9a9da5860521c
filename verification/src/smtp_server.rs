//! The decisions of an SMTP client session: what the server offers, what to send to
//! authenticate, and how to read the server's answers.

use vstd::prelude::*;
use crate::auth_mechanism::AuthMechanism;
use crate::error::SmtpError;
use crate::smtp_credential::{auth_payload, base64_standard, SmtpCredential};
use crate::text::{
    chars_of, copy_range, find_char, split_words, starts_with, starts_with_chars, string_of, trim,
    trim_chars, words,
};

verus! {

/// A connection to an SMTP server over the stream `stream`.
#[derive(Debug)]
pub struct LiveSmtp<T> {
    pub stream: T,
    pub server_name: String,
}

/// The start of a reply line that lists the mechanisms: `250-AUTH` and a space.
pub open spec fn auth_line_prefix() -> Seq<char> {
    seq!['2', '5', '0', '-', 'A', 'U', 'T', 'H', ' ']
}

/// The mechanism names that one reply line advertises: the words after `250-AUTH `
/// in the trimmed line, or none when the trimmed line does not start so.
pub open spec fn advertised_in_line(line: Seq<char>) -> Seq<Seq<char>> {
    let t = trim(line);
    if starts_with(t, auth_line_prefix()) {
        words(t.skip(auth_line_prefix().len() as int))
    } else {
        seq![]
    }
}

/// The mechanism names that the reply lines `lines` advertise, line after line.
pub open spec fn advertised_names(lines: Seq<Seq<char>>) -> Seq<Seq<char>>
    decreases lines.len(),
{
    if lines.len() == 0 {
        seq![]
    } else {
        advertised_names(lines.drop_last()) + advertised_in_line(lines.last())
    }
}

/// The texts of the lines `lines`.
pub open spec fn line_texts(lines: Seq<String>) -> Seq<Seq<char>> {
    lines.map_values(|l: String| l@)
}

impl<T> LiveSmtp<T> {
    /// The mechanisms that the EHLO reply lines `bucket_response` advertise, in order.
    pub fn parse_auth(bucket_response: &Vec<String>) -> (v: Vec<AuthMechanism>)
        ensures
            v@.len() == advertised_names(line_texts(bucket_response@)).len(),
            forall|k: int|
                0 <= k < v@.len() ==> #[trigger] v@[k].denotes(
                    advertised_names(line_texts(bucket_response@))[k],
                ),
    {
        let ghost lines = line_texts(bucket_response@);
        let prefix = chars_of("250-AUTH ");
        proof {
            reveal_strlit("250-AUTH ");
            assert(prefix@ =~= auth_line_prefix());
        }
        let mut v: Vec<AuthMechanism> = Vec::new();
        let mut i: usize = 0;
        while i < bucket_response.len()
            invariant
                i <= bucket_response@.len(),
                lines == line_texts(bucket_response@),
                prefix@ == auth_line_prefix(),
                v@.len() == advertised_names(lines.take(i as int)).len(),
                forall|k: int|
                    0 <= k < v@.len() ==> #[trigger] v@[k].denotes(
                        advertised_names(lines.take(i as int))[k],
                    ),
            decreases bucket_response@.len() - i,
        {
            let ghost before = advertised_names(lines.take(i as int));
            assert(lines.take(i + 1).drop_last() == lines.take(i as int));
            assert(lines.take(i + 1).last() == bucket_response@[i as int]@);
            let line = chars_of(bucket_response[i].as_str());
            let t = trim_chars(&line);
            let ghost found = advertised_in_line(bucket_response@[i as int]@);
            if starts_with_chars(&t, &prefix) {
                let rest = copy_range(&t, prefix.len(), t.len());
                let names = split_words(&rest);
                assert(rest@ == t@.skip(auth_line_prefix().len() as int));
                let mut j: usize = 0;
                while j < names.len()
                    invariant
                        j <= names@.len(),
                        names@.len() == found.len(),
                        forall|k: int| 0 <= k < names@.len() ==> #[trigger] names@[k]@ == found[k],
                        v@.len() == before.len() + j,
                        forall|k: int|
                            0 <= k < v@.len() ==> #[trigger] v@[k].denotes(
                                (before + found.take(j as int))[k],
                            ),
                    decreases names@.len() - j,
                {
                    let m = AuthMechanism::from_chars(&names[j]);
                    v.push(m);
                    assert((before + found.take(j + 1)) =~= (before + found.take(j as int)).push(
                        found[j as int],
                    ));
                    j = j + 1;
                }
                assert(found.take(names@.len() as int) == found);
            } else {
                assert(found.len() == 0);
                assert(before + found =~= before);
            }
            i = i + 1;
        }
        assert(lines.take(bucket_response@.len() as int) == lines);
        v
    }
}

/// The end of every line sent: carriage return and line feed.
pub open spec fn crlf() -> Seq<char> {
    seq!['\r', '\n']
}

/// `STARTTLS` as the server lists it among continued lines: `250-STARTTLS`.
pub open spec fn starttls_continued() -> Seq<char> {
    seq!['2', '5', '0', '-', 'S', 'T', 'A', 'R', 'T', 'T', 'L', 'S']
}

/// `STARTTLS` as the server lists it on its last line: `250 STARTTLS`.
pub open spec fn starttls_last() -> Seq<char> {
    seq!['2', '5', '0', ' ', 'S', 'T', 'A', 'R', 'T', 'T', 'L', 'S']
}

/// The reply code 220, with which the server accepts to start TLS.
pub open spec fn ready_code() -> Seq<char> {
    seq!['2', '2', '0']
}

/// The reply code 535, with which the server rejects credentials.
pub open spec fn rejected_code() -> Seq<char> {
    seq!['5', '3', '5']
}

/// The reply code 235, with which the server accepts credentials.
pub open spec fn accepted_code() -> Seq<char> {
    seq!['2', '3', '5']
}

/// Some reply line in `lines` offers `STARTTLS`.
pub open spec fn starttls_in(lines: Seq<Seq<char>>) -> bool {
    exists|k: int|
        0 <= k < lines.len() && (starts_with(#[trigger] lines[k], starttls_continued())
            || starts_with(lines[k], starttls_last()))
}

/// The first verdict in the reply lines `lines`, each trimmed: rejected (`Some(false)`)
/// at the first line that starts with 535, accepted (`Some(true)`) at the first line
/// that starts with 235, whichever comes first; nothing when no line says either.
pub open spec fn login_verdict(lines: Seq<Seq<char>>) -> Option<bool>
    decreases lines.len(),
{
    if lines.len() == 0 {
        None
    } else if starts_with(trim(lines[0]), rejected_code()) {
        Some(false)
    } else if starts_with(trim(lines[0]), accepted_code()) {
        Some(true)
    } else {
        login_verdict(lines.drop_first())
    }
}

/// The reply line `line` ends its reply: it is not a line `XYZ-...` that another line
/// of the same reply follows.
pub open spec fn ends_reply(line: Seq<char>) -> bool {
    line.len() < 4 || line[3] != '-'
}

/// Whether the reply lines `responses` offer `STARTTLS`.
pub fn starttls_offered(responses: &Vec<String>) -> (offered: bool)
    ensures
        offered == starttls_in(line_texts(responses@)),
{
    let ghost lines = line_texts(responses@);
    let continued = chars_of("250-STARTTLS");
    let last = chars_of("250 STARTTLS");
    proof {
        reveal_strlit("250-STARTTLS");
        reveal_strlit("250 STARTTLS");
        assert(continued@ =~= starttls_continued());
        assert(last@ =~= starttls_last());
    }
    let mut i: usize = 0;
    while i < responses.len()
        invariant
            i <= responses@.len(),
            lines == line_texts(responses@),
            continued@ == starttls_continued(),
            last@ == starttls_last(),
            forall|k: int|
                0 <= k < i ==> !starts_with(#[trigger] lines[k], starttls_continued())
                    && !starts_with(lines[k], starttls_last()),
        decreases responses@.len() - i,
    {
        let line = chars_of(responses[i].as_str());
        assert(lines[i as int] == line@);
        if starts_with_chars(&line, &continued) || starts_with_chars(&line, &last) {
            return true;
        }
        i = i + 1;
    }
    false
}

/// Whether the last of the reply lines `responses` starts with the reply code 220.
pub fn tls_ready(responses: &Vec<String>) -> (ready: bool)
    requires
        responses@.len() > 0,
    ensures
        ready == starts_with(responses@.last()@, ready_code()),
{
    let line = chars_of(responses[responses.len() - 1].as_str());
    let code = chars_of("220");
    proof {
        reveal_strlit("220");
        assert(code@ =~= ready_code());
    }
    starts_with_chars(&line, &code)
}

/// Whether the reply line `line` ends its reply.
pub fn reply_is_final(line: &str) -> (last: bool)
    ensures
        last == ends_reply(line@),
{
    let chars = chars_of(line);
    chars.len() < 4 || chars[3] != '-'
}

/// How the server answered the credentials, read from the reply lines `responses`:
/// an error when a line says 535 before any line says 235; otherwise whether a line
/// says 235.
pub fn login_result(responses: &Vec<String>) -> (r: Result<bool, SmtpError>)
    ensures
        r is Err <==> login_verdict(line_texts(responses@)) == Some(false),
        r is Err ==> r matches Err(SmtpError::FailedCredentials),
        r matches Ok(accepted) ==> accepted == (login_verdict(line_texts(responses@)) == Some(
            true,
        )),
{
    let ghost lines = line_texts(responses@);
    let rejected = chars_of("535");
    let accepted = chars_of("235");
    proof {
        reveal_strlit("535");
        reveal_strlit("235");
        assert(rejected@ =~= rejected_code());
        assert(accepted@ =~= accepted_code());
        assert(lines.skip(0) == lines);
    }
    let mut i: usize = 0;
    while i < responses.len()
        invariant
            i <= responses@.len(),
            lines == line_texts(responses@),
            rejected@ == rejected_code(),
            accepted@ == accepted_code(),
            login_verdict(lines) == login_verdict(lines.skip(i as int)),
        decreases responses@.len() - i,
    {
        let line = chars_of(responses[i].as_str());
        let t = trim_chars(&line);
        assert(lines.skip(i as int)[0] == line@);
        assert(lines.skip(i as int).drop_first() == lines.skip(i + 1));
        if starts_with_chars(&t, &rejected) {
            return Err(SmtpError::FailedCredentials);
        }
        if starts_with_chars(&t, &accepted) {
            return Ok(true);
        }
        i = i + 1;
    }
    Ok(false)
}

/// One step of authenticating.
#[derive(Debug, PartialEq, Eq)]
pub enum LoginStep {
    /// Send `line` and read the reply; when `required`, a failure of that exchange ends
    /// the login with the failure.
    Send { line: String, required: bool },
    /// End the login with this error.
    Fail(SmtpError),
}

/// `step` sends `text`, required or not as `required` says.
pub open spec fn sends(step: LoginStep, text: Seq<char>, required: bool) -> bool {
    step matches LoginStep::Send { line, required: r } && line@ == text && r == required
}

/// `step` ends the login because the credential does not suit the mechanism.
pub open spec fn fails_unsupported(step: LoginStep) -> bool {
    step matches LoginStep::Fail(SmtpError::UnsupportedAuth)
}

/// The steps that authenticate with `credential` by `mechanism`, once the greeting is
/// done. `LOGIN` sends its command, then the base64 email and the base64 password on
/// lines of their own, whose replies do not stop the login; every other mechanism
/// sends its command and the encoded credential on one line.
pub fn login_plan(credential: &SmtpCredential, mechanism: &AuthMechanism) -> (steps: Vec<
    LoginStep,
>)
    ensures
        *mechanism is Login ==> {
            &&& steps@.len() == if *credential is EmailPassword {
                3int
            } else {
                2int
            }
            &&& sends(steps@[0], mechanism.auth_command_text().unwrap() + seq!['\r', '\n'], true)
            &&& *credential matches SmtpCredential::EmailPassword { email, password } ==> {
                &&& sends(steps@[1], base64_standard(email@) + seq!['\r', '\n'], false)
                &&& sends(steps@[2], base64_standard(password@) + seq!['\r', '\n'], false)
            }
            &&& !(*credential is EmailPassword) ==> fails_unsupported(steps@[1])
        },
        !(*mechanism is Login) ==> {
            &&& steps@.len() == 1
            &&& match auth_payload(*credential, *mechanism) {
                Some(payload) => sends(
                    steps@[0],
                    mechanism.auth_command_text().unwrap() + seq![' '] + payload + seq!['\r', '\n'],
                    true,
                ),
                None => fails_unsupported(steps@[0]),
            }
        },
{
    let mut steps: Vec<LoginStep> = Vec::new();
    let end = chars_of("\r\n");
    proof {
        reveal_strlit("\r\n");
        assert(end@ =~= crlf());
    }
    if let AuthMechanism::Login = mechanism {
        let mut command = mechanism.auth_command().unwrap();
        command.append("\r\n");
        steps.push(LoginStep::Send { line: command, required: true });
        match credential.encode_auth(mechanism) {
            Err(e) => {
                steps.push(LoginStep::Fail(e));
            },
            Ok(encoded) => {
                let chars = chars_of(encoded.as_str());
                match find_char(&chars, ',') {
                    None => {
                        proof {
                            if let SmtpCredential::EmailPassword { email: e, password: p } =
                                credential {
                                let a = base64_standard(e@);
                                assert(chars@[a.len() as int] == ',');
                            }
                        }
                        steps.push(LoginStep::Fail(SmtpError::InvalidEncodeFormat));
                    },
                    Some(k) => {
                        let n = chars.len();
                        assert(k < n);
                        let mut email = copy_range(&chars, 0, k);
                        let mut password = copy_range(&chars, k + 1, n);
                        let ghost user_part = email@;
                        let ghost pass_part = password@;
                        let mut crlf1 = end.clone();
                        let mut crlf2 = end.clone();
                        email.append(&mut crlf1);
                        password.append(&mut crlf2);
                        proof {
                            if let SmtpCredential::EmailPassword { email: e, password: p } =
                                credential {
                                let a = base64_standard(e@);
                                let b = base64_standard(p@);
                                assert(chars@ == a + seq![','] + b);
                                assert(chars@[a.len() as int] == ',');
                                assert(k == a.len());
                                assert(user_part =~= a);
                                assert(pass_part =~= b);
                            }
                        }
                        steps.push(LoginStep::Send { line: string_of(&email), required: false });
                        steps.push(
                            LoginStep::Send { line: string_of(&password), required: false },
                        );
                    },
                }
            },
        }
    } else {
        match credential.encode_auth(mechanism) {
            Err(e) => {
                steps.push(LoginStep::Fail(e));
            },
            Ok(encoded) => {
                proof {
                    reveal_strlit(" ");
                    reveal_strlit("\r\n");
                }
                let command = mechanism.auth_command();
                let mut line = command.unwrap();
                assert(line@ == mechanism.auth_command_text().unwrap());
                line.append(" ");
                line.append(encoded.as_str());
                line.append("\r\n");
                assert(line@ =~= mechanism.auth_command_text().unwrap() + seq![' '] + encoded@
                    + crlf());
                steps.push(LoginStep::Send { line, required: true });
            },
        }
    }
    steps
}

/// The reply lines that come one after another advertise, together, the names that
/// each of them advertises, in order.
pub proof fn lemma_advertised_concat(first: Seq<Seq<char>>, second: Seq<Seq<char>>)
    ensures
        advertised_names(first + second) == advertised_names(first) + advertised_names(second),
    decreases second.len(),
{
    if second.len() == 0 {
        assert(first + second =~= first);
        assert(advertised_names(first) + advertised_names(second) =~= advertised_names(first));
    } else {
        lemma_advertised_concat(first, second.drop_last());
        assert((first + second).drop_last() =~= first + second.drop_last());
        assert((first + second).last() == second.last());
    }
}

/// One reply line advertises every whitespace-separated word that follows
/// `250-AUTH ` in its trimmed text, however many there are, and nothing when its
/// trimmed text does not start with `250-AUTH `.
pub proof fn lemma_advertised_line(line: Seq<char>)
    ensures
        ({
            let t = trim(line);
            let tag = seq!['2', '5', '0', '-', 'A', 'U', 'T', 'H', ' '];
            &&& t.len() >= 9 && t.take(9) == tag ==> advertised_names(seq![line]) == words(
                t.skip(9),
            )
            &&& !(t.len() >= 9 && t.take(9) == tag) ==> advertised_names(seq![line]).len() == 0
        }),
{
    assert(seq![line].drop_last() =~= Seq::<Seq<char>>::empty());
    assert(seq![line].last() == line);
    assert(advertised_names(Seq::<Seq<char>>::empty()) + advertised_in_line(line)
        =~= advertised_in_line(line));
}

/// The server offers `STARTTLS` exactly when some reply line, wherever it stands,
/// starts with `250-STARTTLS` or `250 STARTTLS`.
pub proof fn lemma_starttls_anywhere(lines: Seq<Seq<char>>)
    ensures
        starttls_in(lines) <==> exists|k: int|
            0 <= k < lines.len() && #[trigger] lines[k].len() >= 12 && (lines[k].take(12)
                == seq!['2', '5', '0', '-', 'S', 'T', 'A', 'R', 'T', 'T', 'L', 'S']
                || lines[k].take(12) == seq![
                '2',
                '5',
                '0',
                ' ',
                'S',
                'T',
                'A',
                'R',
                'T',
                'T',
                'L',
                'S',
            ]),
{
    assert(starttls_continued() =~= seq!['2', '5', '0', '-', 'S', 'T', 'A', 'R', 'T', 'T', 'L', 'S']);
    assert(starttls_last() =~= seq!['2', '5', '0', ' ', 'S', 'T', 'A', 'R', 'T', 'T', 'L', 'S']);
}

/// The server is ready for TLS exactly when the line starts with `220`.
pub proof fn lemma_ready_code(line: Seq<char>)
    ensures
        starts_with(line, ready_code()) <==> line.len() >= 3 && line.take(3) == seq!['2', '2', '0'],
{
}

/// The trimmed text of `line` starts with the three characters `code`.
pub open spec fn says(line: Seq<char>, code: Seq<char>) -> bool {
    trim(line).len() >= 3 && trim(line).take(3) == code
}

/// The server's verdict on the credentials is read from the first line that, trimmed,
/// starts with 535 or 235, wherever it stands: a 535 with no 235 before it is a
/// rejection, a 235 with no 535 before it is an acceptance, and lines that say neither
/// give no verdict.
pub proof fn lemma_login_verdict(lines: Seq<Seq<char>>, k: int)
    ensures
        0 <= k < lines.len() && says(lines[k], seq!['5', '3', '5']) && (forall|j: int|
            0 <= j < k ==> !says(#[trigger] lines[j], seq!['2', '3', '5'])) ==> login_verdict(
            lines,
        ) == Some(false),
        0 <= k < lines.len() && says(lines[k], seq!['2', '3', '5']) && (forall|j: int|
            0 <= j < k ==> !says(#[trigger] lines[j], seq!['5', '3', '5'])) ==> login_verdict(
            lines,
        ) == Some(true),
        (forall|j: int|
            0 <= j < lines.len() ==> !says(#[trigger] lines[j], seq!['5', '3', '5']) && !says(
                lines[j],
                seq!['2', '3', '5'],
            )) ==> login_verdict(lines) is None,
    decreases lines.len(),
{
    assert(rejected_code() =~= seq!['5', '3', '5']);
    assert(accepted_code() =~= seq!['2', '3', '5']);
    if lines.len() > 0 {
        let rest = lines.drop_first();
        lemma_login_verdict(rest, k - 1);
        assert forall|j: int| 0 <= j < rest.len() implies rest[j] == lines[j + 1] by {}
        if 0 < k < lines.len() {
            assert(rest[k - 1] == lines[k]);
        }
    }
}

} // verus!
