//! The identity that a session acts under, and the rules of the tokens and
//! credentials that stand behind it.

use crate::protocol::StatusCode;
use vstd::prelude::*;

verus! {

/// Seconds an access token is good for: thirty minutes.
pub const ACCESS_TOKEN_EXP_TIME: i64 = 1_800;

/// Seconds a refresh token is good for: thirty days.
pub const REFRESH_TOKEN_EXP_TIME: i64 = 2_592_000;

/// The claims of a token: the player it names, and when it expires, in
/// seconds since the Unix epoch.
#[derive(Clone, Copy, Debug, PartialEq, Eq, Structural)]
pub struct Claims {
    pub id: i32,
    pub exp: i64,
}

/// An instant that the expiry of a token can still be counted from.
pub open spec fn mintable(now: i64) -> bool {
    now + REFRESH_TOKEN_EXP_TIME <= i64::MAX
}

/// Why credentials are refused at sign-up.
#[derive(Clone, Copy, Debug, PartialEq, Eq, Structural)]
pub enum AuthError {
    InvalidEmail,
    InvalidPassword,
}

impl AuthError {
    /// The diagnostic text of the error.
    pub open spec fn text(self) -> Seq<char> {
        match self {
            AuthError::InvalidEmail => "Invalid email is provided"@,
            AuthError::InvalidPassword => "Password must be at least 8 characters and contain only latin letters and numbers"@,
        }
    }

    pub fn code(&self) -> (c: StatusCode)
        ensures
            c == StatusCode::Unauthenticated,
    {
        StatusCode::Unauthenticated
    }

    pub fn message(&self) -> (m: String)
        ensures
            m@ == self.text(),
    {
        match self {
            AuthError::InvalidEmail => "Invalid email is provided".to_owned(),
            AuthError::InvalidPassword => "Password must be at least 8 characters and contain only latin letters and numbers".to_owned(),
        }
    }
}

/// What the `regex` crate says of a pattern and a text: whether the pattern
/// matches somewhere in the text, or nothing where the pattern is refused.
pub uninterp spec fn regex_verdict(pattern: Seq<char>, text: Seq<char>) -> Option<bool>;

/// `Regex::new` of the `regex` crate on the pattern and, where it accepts
/// the pattern, `Regex::is_match` on the text. The result depends on the
/// pattern and the text alone.
#[verifier::external_body]
fn regex_is_match(pattern: &str, text: &str) -> (r: Option<bool>)
    ensures
        r == regex_verdict(pattern@, text@),
{
    match regex::Regex::new(pattern) {
        Ok(re) => Some(re.is_match(text)),
        Err(_) => None,
    }
}

/// What `str::to_lowercase` makes of a text.
pub uninterp spec fn lowercase_of(text: Seq<char>) -> Seq<char>;

/// `str::to_lowercase` of the standard library: the text with every
/// character in lower case, by the rules of Unicode.
#[verifier::external_body]
fn to_lowercase(text: &str) -> (r: String)
    ensures
        r@ == lowercase_of(text@),
{
    text.to_lowercase()
}

/// The pattern of an email address.
pub open spec fn email_pattern() -> Seq<char> {
    "^[a-zA-Z0-9.!#$%&\u{2019}*+/=?^_`{|}~-]+@[a-zA-Z0-9-]+(?:\\.[a-zA-Z0-9-]+)*$"@
}

/// The pattern of a password: eight or more latin letters and digits.
pub open spec fn password_pattern() -> Seq<char> {
    "^[0-9a-zA-Z]{8,}$"@
}

/// The verdict on credentials whose email matches its pattern or not, and
/// whose password matches its pattern or not.
pub open spec fn judged(email_ok: Option<bool>, password_ok: Option<bool>) -> Result<
    (),
    AuthError,
> {
    if email_ok != Some(true) {
        Err(AuthError::InvalidEmail)
    } else if password_ok != Some(true) {
        Err(AuthError::InvalidPassword)
    } else {
        Ok(())
    }
}

/// The rules of the tokens and the credentials.
#[derive(Clone, Copy, Debug, Default)]
pub struct AuthService;

impl AuthService {
    /// The claims of an access token minted at `now` for the player.
    pub fn access_claims(id: i32, now: i64) -> (c: Claims)
        requires
            mintable(now),
        ensures
            c.id == id,
            c.exp == now + ACCESS_TOKEN_EXP_TIME,
    {
        Claims { id, exp: now + ACCESS_TOKEN_EXP_TIME }
    }

    /// The claims of a refresh token minted at `now` for the player.
    pub fn refresh_claims(id: i32, now: i64) -> (c: Claims)
        requires
            mintable(now),
        ensures
            c.id == id,
            c.exp == now + REFRESH_TOKEN_EXP_TIME,
    {
        Claims { id, exp: now + REFRESH_TOKEN_EXP_TIME }
    }

    /// The verdict on credentials, given whether the email and the password
    /// match their patterns: the email is looked at first.
    pub fn judge(email_ok: Option<bool>, password_ok: Option<bool>) -> (r: Result<(), AuthError>)
        ensures
            r == judged(email_ok, password_ok),
    {
        match email_ok {
            Some(true) => match password_ok {
                Some(true) => Ok(()),
                _ => Err(AuthError::InvalidPassword),
            },
            _ => Err(AuthError::InvalidEmail),
        }
    }

    /// The email as the directory stores it: in lower case.
    pub fn normalize_email(email: &str) -> (r: String)
        ensures
            r@ == lowercase_of(email@),
    {
        to_lowercase(email)
    }

    /// Checks the credentials of a sign-up: the email in lower case against
    /// the pattern of an email address, then the password against the
    /// pattern of a password. Credentials in order give the email in lower
    /// case.
    pub fn check_credentials(email: &str, password: &str) -> (r: Result<String, AuthError>)
        ensures
            match r {
                Ok(lowered) => lowered@ == lowercase_of(email@) && judged(
                    regex_verdict(email_pattern(), lowercase_of(email@)),
                    regex_verdict(password_pattern(), password@),
                ) is Ok,
                Err(e) => judged(
                    regex_verdict(email_pattern(), lowercase_of(email@)),
                    regex_verdict(password_pattern(), password@),
                ) == Err::<(), AuthError>(e),
            },
    {
        let lowered = to_lowercase(email);
        let email_ok = regex_is_match(
            "^[a-zA-Z0-9.!#$%&\u{2019}*+/=?^_`{|}~-]+@[a-zA-Z0-9-]+(?:\\.[a-zA-Z0-9-]+)*$",
            lowered.as_str(),
        );
        let password_ok = regex_is_match("^[0-9a-zA-Z]{8,}$", password);
        match AuthService::judge(email_ok, password_ok) {
            Ok(()) => Ok(lowered),
            Err(e) => Err(e),
        }
    }
}

} // verus!
