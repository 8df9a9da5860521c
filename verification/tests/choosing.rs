use background_jobs::auth_mechanism::AuthMechanism;
use background_jobs::cli::{cli_auth_credentials, cli_auth_smtp, credential_prompts};
use background_jobs::error::SmtpError;
use background_jobs::smtp_credential::SmtpCredential;

fn offered() -> Vec<AuthMechanism> {
    vec![AuthMechanism::Login, AuthMechanism::Plain, AuthMechanism::Unknown("NTLM".to_string())]
}

#[test]
fn choice_picks_by_index() {
    assert_eq!(cli_auth_smtp(offered(), "1\n"), Ok(AuthMechanism::Plain));
    assert_eq!(cli_auth_smtp(offered(), "  0  "), Ok(AuthMechanism::Login));
    assert_eq!(cli_auth_smtp(offered(), "+2\r\n"), Ok(AuthMechanism::Unknown("NTLM".to_string())));
    assert_eq!(cli_auth_smtp(offered(), "002"), Ok(AuthMechanism::Unknown("NTLM".to_string())));
}

#[test]
fn choice_with_no_mechanism() {
    assert_eq!(cli_auth_smtp(Vec::new(), "0"), Err(SmtpError::NoAuthMechanism));
}

#[test]
fn choice_not_a_number() {
    assert_eq!(cli_auth_smtp(offered(), " abc \n"), Err(SmtpError::InvalidChoice("abc".to_string())));
    assert_eq!(cli_auth_smtp(offered(), "-1"), Err(SmtpError::InvalidChoice("-1".to_string())));
    assert_eq!(cli_auth_smtp(offered(), "+"), Err(SmtpError::InvalidChoice("+".to_string())));
    assert_eq!(cli_auth_smtp(offered(), "\n"), Err(SmtpError::InvalidChoice("".to_string())));
    assert_eq!(cli_auth_smtp(offered(), "1 2"), Err(SmtpError::InvalidChoice("1 2".to_string())));
    let huge = "184467440737095516160";
    assert_eq!(cli_auth_smtp(offered(), huge), Err(SmtpError::InvalidChoice(huge.to_string())));
}

#[test]
fn choice_out_of_range() {
    assert_eq!(cli_auth_smtp(offered(), "3"), Err(SmtpError::ChoiceOutOfRange(2)));
    assert_eq!(cli_auth_smtp(offered(), "99"), Err(SmtpError::ChoiceOutOfRange(2)));
}

#[test]
fn parse_agrees_with_std() {
    for text in ["0", "+7", "007", "18446744073709551615", "18446744073709551616", "", "+", "-0", "1_0", "٣"] {
        let chars: Vec<char> = text.chars().collect();
        assert_eq!(background_jobs::text::parse_usize_chars(&chars), text.parse::<usize>().ok());
    }
}

#[test]
fn prompts_per_mechanism() {
    assert_eq!(credential_prompts(&AuthMechanism::Login), vec!["Email", "Password"]);
    assert_eq!(credential_prompts(&AuthMechanism::XOAuth2), vec!["Email", "OAuth Token"]);
    assert_eq!(credential_prompts(&AuthMechanism::OAuthBearer), vec!["Bearer Token"]);
    assert!(credential_prompts(&AuthMechanism::Unknown("X".to_string())).is_empty());
}

#[test]
fn credentials_from_answers() {
    let c = cli_auth_credentials(&AuthMechanism::Plain, vec!["a@b".to_string(), "pw".to_string()]);
    assert_eq!(c, Ok(SmtpCredential::new_email_password("a@b".to_string(), "pw".to_string())));
    let c = cli_auth_credentials(&AuthMechanism::XOAuth, vec!["a@b".to_string(), "t".to_string()]);
    assert_eq!(c, Ok(SmtpCredential::new_oauth("a@b".to_string(), "t".to_string())));
    let c = cli_auth_credentials(&AuthMechanism::OAuthBearer, vec!["t".to_string()]);
    assert_eq!(c, Ok(SmtpCredential::new_oauth_bearer("t".to_string())));
    let c = cli_auth_credentials(&AuthMechanism::Unknown("NTLM".to_string()), Vec::new());
    assert_eq!(c, Err(SmtpError::UnknownMechanism("NTLM".to_string())));
}

#[test]
fn constructors_hold_fields() {
    match SmtpCredential::new_oauth("e".to_string(), "t".to_string()) {
        SmtpCredential::OAuth { email, access_token } => {
            assert_eq!(email, "e");
            assert_eq!(access_token, "t");
        }
        _ => panic!("wrong variant"),
    }
}
