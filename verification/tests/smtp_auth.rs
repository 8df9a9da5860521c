use background_jobs::auth_mechanism::AuthMechanism;
use background_jobs::error::SmtpError;
use background_jobs::smtp_credential::{Challenge, SmtpCredential};
use background_jobs::smtp_server::{
    login_plan, login_result, reply_is_final, starttls_offered, tls_ready, LiveSmtp, LoginStep,
};

fn lines(texts: &[&str]) -> Vec<String> {
    texts.iter().map(|t| t.to_string()).collect()
}

fn email_password() -> SmtpCredential {
    SmtpCredential::new_email_password("user@x.com".to_string(), "pw".to_string())
}

#[test]
fn mechanism_names_map_to_variants() {
    assert_eq!(AuthMechanism::new("PLAIN"), AuthMechanism::Plain);
    assert_eq!(AuthMechanism::new("LOGIN"), AuthMechanism::Login);
    assert_eq!(AuthMechanism::new("XOAUTH"), AuthMechanism::XOAuth);
    assert_eq!(AuthMechanism::new("XOAUTH2"), AuthMechanism::XOAuth2);
    assert_eq!(AuthMechanism::new("OAUTHBEARER"), AuthMechanism::OAuthBearer);
    assert_eq!(AuthMechanism::new("PLAIN-CLIENTTOKEN"), AuthMechanism::PlainClientToken);
    assert_eq!(AuthMechanism::new("CRAM-MD5"), AuthMechanism::Unknown("CRAM-MD5".to_string()));
    assert_eq!(AuthMechanism::new("plain"), AuthMechanism::Unknown("plain".to_string()));
}

#[test]
fn name_round_trips() {
    for name in ["PLAIN", "LOGIN", "XOAUTH2", "GSSAPI", ""] {
        let m = AuthMechanism::new(name);
        let chars: String = m.name_chars().into_iter().collect();
        assert_eq!(chars, name);
    }
}

#[test]
fn auth_commands() {
    assert_eq!(AuthMechanism::Login.auth_command(), Some("AUTH LOGIN".to_string()));
    assert_eq!(AuthMechanism::Plain.auth_command(), Some("AUTH PLAIN".to_string()));
    assert_eq!(
        AuthMechanism::PlainClientToken.auth_command(),
        Some("AUTH PLAIN-CLIENTTOKEN".to_string())
    );
    assert_eq!(AuthMechanism::Unknown("NTLM".to_string()).auth_command(), None);
}

#[test]
fn encode_is_standard_base64() {
    assert_eq!(SmtpCredential::encode(&"hello".to_string()), "aGVsbG8=");
    assert_eq!(SmtpCredential::encode(&"".to_string()), "");
    assert_eq!(SmtpCredential::encode(&"\u{1}\u{ff}".to_string()), "AcO/");
}

#[test]
fn encode_auth_plain() {
    let c = email_password();
    assert_eq!(c.encode_auth(&AuthMechanism::Plain).unwrap(), "AHVzZXJAeC5jb20AcHc=");
    assert_eq!(c.encode_auth(&AuthMechanism::PlainClientToken).unwrap(), "AHVzZXJAeC5jb20AcHc=");
}

#[test]
fn encode_auth_login_joins_with_comma() {
    let c = email_password();
    assert_eq!(c.encode_auth(&AuthMechanism::Login).unwrap(), "dXNlckB4LmNvbQ==,cHc=");
}

#[test]
fn encode_auth_oauth() {
    let c = SmtpCredential::new_oauth("a@b".to_string(), "tok".to_string());
    assert_eq!(c.encode_auth(&AuthMechanism::XOAuth2).unwrap(), "AGFAYgB0b2s=");
    assert_eq!(c.encode_auth(&AuthMechanism::XOAuth).unwrap(), "AGFAYgB0b2s=");
}

#[test]
fn encode_auth_bearer() {
    let c = SmtpCredential::new_oauth_bearer("tok".to_string());
    let expected = SmtpCredential::encode(&"n,,\u{1}auth=Bearer tok\u{1}\u{1}".to_string());
    assert_eq!(c.encode_auth(&AuthMechanism::OAuthBearer).unwrap(), expected);
    assert_eq!(expected, "biwsAWF1dGg9QmVhcmVyIHRvawEB");
}

#[test]
fn encode_auth_mismatch_is_unsupported() {
    let c = email_password();
    assert_eq!(c.encode_auth(&AuthMechanism::XOAuth2), Err(SmtpError::UnsupportedAuth));
    assert_eq!(c.encode_auth(&AuthMechanism::OAuthBearer), Err(SmtpError::UnsupportedAuth));
    let u = AuthMechanism::Unknown("X".to_string());
    assert_eq!(c.encode_auth(&u), Err(SmtpError::UnsupportedAuth));
    let b = SmtpCredential::new_oauth_bearer("t".to_string());
    assert_eq!(b.encode_auth(&AuthMechanism::Plain), Err(SmtpError::UnsupportedAuth));
}

#[test]
fn challenging_mechanisms() {
    let c = SmtpCredential::new_oauth_bearer("t".to_string());
    assert_eq!(c.check_challenging_mechanism(&AuthMechanism::Login), Challenge::Challenging);
    for m in [
        AuthMechanism::Plain,
        AuthMechanism::PlainClientToken,
        AuthMechanism::XOAuth,
        AuthMechanism::XOAuth2,
        AuthMechanism::OAuthBearer,
    ] {
        assert_eq!(c.check_challenging_mechanism(&m), Challenge::NonChallenging);
    }
    let u = AuthMechanism::Unknown("X".to_string());
    assert_eq!(email_password().check_challenging_mechanism(&u), Challenge::NotSupported);
}

#[test]
fn parse_auth_reads_auth_lines() {
    let reply = lines(&[
        "250-mail.example.com",
        "250-AUTH LOGIN PLAIN XOAUTH2",
        "250-AUTH=LOGIN",
        "  250-AUTH   FOO\tBAR  ",
        "250 OK",
    ]);
    let mechs = LiveSmtp::<()>::parse_auth(&reply);
    assert_eq!(
        mechs,
        vec![
            AuthMechanism::Login,
            AuthMechanism::Plain,
            AuthMechanism::XOAuth2,
            AuthMechanism::Unknown("FOO".to_string()),
            AuthMechanism::Unknown("BAR".to_string()),
        ]
    );
    assert!(LiveSmtp::<()>::parse_auth(&lines(&["250 AUTH PLAIN"])).is_empty());
    assert!(LiveSmtp::<()>::parse_auth(&Vec::new()).is_empty());
}

#[test]
fn starttls_detection() {
    assert!(starttls_offered(&lines(&["250-a", "250-STARTTLS", "250 OK"])));
    assert!(starttls_offered(&lines(&["250-a", "250 STARTTLS"])));
    assert!(!starttls_offered(&lines(&["250-a", " 250-STARTTLS", "250 OK"])));
    assert!(!starttls_offered(&Vec::new()));
    assert!(tls_ready(&lines(&["250 STARTTLS", "220 go ahead"])));
    assert!(!tls_ready(&lines(&["220 go ahead", "454 no"])));
}

#[test]
fn reply_lines_end() {
    assert!(!reply_is_final("250-PIPELINING"));
    assert!(reply_is_final("250 OK"));
    assert!(reply_is_final("250"));
    assert!(reply_is_final(""));
}

#[test]
fn login_result_first_verdict_counts() {
    assert_eq!(login_result(&lines(&["334 VXNlcm5hbWU6", " 235 ok "])), Ok(true));
    assert_eq!(login_result(&lines(&["  535 5.7.8 bad"])), Err(SmtpError::FailedCredentials));
    assert_eq!(login_result(&lines(&["235 ok", "535 bad"])), Ok(true));
    assert_eq!(login_result(&lines(&["535 bad", "235 ok"])), Err(SmtpError::FailedCredentials));
    assert_eq!(login_result(&lines(&["250 OK"])), Ok(false));
    assert_eq!(login_result(&Vec::new()), Ok(false));
}

#[test]
fn login_plan_for_login() {
    let steps = login_plan(&email_password(), &AuthMechanism::Login);
    assert_eq!(
        steps,
        vec![
            LoginStep::Send { line: "AUTH LOGIN\r\n".to_string(), required: true },
            LoginStep::Send { line: "dXNlckB4LmNvbQ==\r\n".to_string(), required: false },
            LoginStep::Send { line: "cHc=\r\n".to_string(), required: false },
        ]
    );
}

#[test]
fn login_plan_login_with_wrong_credential() {
    let c = SmtpCredential::new_oauth_bearer("t".to_string());
    let steps = login_plan(&c, &AuthMechanism::Login);
    assert_eq!(
        steps,
        vec![
            LoginStep::Send { line: "AUTH LOGIN\r\n".to_string(), required: true },
            LoginStep::Fail(SmtpError::UnsupportedAuth),
        ]
    );
}

#[test]
fn login_plan_single_line() {
    let steps = login_plan(&email_password(), &AuthMechanism::Plain);
    assert_eq!(
        steps,
        vec![LoginStep::Send {
            line: "AUTH PLAIN AHVzZXJAeC5jb20AcHc=\r\n".to_string(),
            required: true
        }]
    );
    let u = AuthMechanism::Unknown("NTLM".to_string());
    assert_eq!(login_plan(&email_password(), &u), vec![LoginStep::Fail(SmtpError::UnsupportedAuth)]);
}

#[test]
fn gathered_credential_always_encodes() {
    for m in [
        AuthMechanism::Plain,
        AuthMechanism::Login,
        AuthMechanism::XOAuth,
        AuthMechanism::XOAuth2,
        AuthMechanism::OAuthBearer,
        AuthMechanism::PlainClientToken,
    ] {
        let n = background_jobs::cli::credential_prompts(&m).len();
        let answers: Vec<String> = (0..n).map(|k| format!("answer{}", k)).collect();
        let c = background_jobs::cli::cli_auth_credentials(&m, answers).unwrap();
        assert!(c.encode_auth(&m).is_ok());
    }
}
