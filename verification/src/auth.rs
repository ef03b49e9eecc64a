//! The e-mail sign-in step: checking the address and composing the one-time
//! code and the message that carries it.

use vstd::prelude::*;
use rand::RngExt;
use crate::text::{ascii_upper, push_char, to_ascii_upper};

verus! {

/// The rejection message of `email_address::EmailAddress::from_str` for `s`,
/// or `None` when it accepts `s`.
pub uninterp spec fn email_rejection(s: Seq<char>) -> Option<Seq<char>>;

/// `email_address::EmailAddress::from_str`: `None` when the address is
/// accepted, else the text of its error. Claimed from
/// its source: an address without an `@` is refused.
#[verifier::external_body]
fn check_email(s: &str) -> (r: Option<String>)
    ensures
        match r {
            Some(m) => email_rejection(s@) == Some(m@),
            None => email_rejection(s@).is_none(),
        },
        !s@.contains('@') ==> r.is_some(),
{
    match <email_address::EmailAddress as std::str::FromStr>::from_str(s) {
        Ok(_) => None,
        Err(e) => Some(e.to_string()),
    }
}

/// The sender of sign-in mails.
pub const FROM: &'static str = "login@vitorakiyama.com";
/// The subject of sign-in mails.
pub const SUBJECT: &'static str = "Login Code";

/// Why sending a sign-in mail failed.
#[derive(Debug)]
pub enum Error {
    /// The mail service refused or failed.
    Api(String),
    /// The address is not a valid e-mail address.
    EmailValidation(String),
}

/// The gRPC status class an error is reported with.
#[derive(Clone, Copy, Debug, PartialEq, Eq, Structural)]
pub enum StatusCode {
    Internal,
    InvalidArgument,
    NotFound,
    Unauthenticated,
}

impl Error {
    /// The status reported to the client: service failures stay internal,
    /// a bad address is an invalid argument.
    pub fn status(&self) -> (r: (StatusCode, &'static str))
        ensures
            match self {
                Error::Api(_) => r.0 == StatusCode::Internal && r.1@ == "An unknown error ocurred."@,
                Error::EmailValidation(_) => r.0 == StatusCode::InvalidArgument && r.1@ == "Invalid email."@,
            },
    {
        match self {
            Error::Api(_) => (StatusCode::Internal, "An unknown error ocurred."),
            Error::EmailValidation(_) => (StatusCode::InvalidArgument, "Invalid email."),
        }
    }
}

/// The sign-in code made of the sampled characters, upper-cased.
pub fn auth_code(sampled: &Vec<char>) -> (r: String)
    ensures
        r@ == sampled@.map_values(|c: char| ascii_upper(c)),
{
    let mut r = String::new();
    let mut i: usize = 0;
    while i < sampled.len()
        invariant
            i <= sampled@.len(),
            r@ == sampled@.subrange(0, i as int).map_values(|c: char| ascii_upper(c)),
        decreases sampled@.len() - i,
    {
        push_char(&mut r, to_ascii_upper(sampled[i]));
        proof {
            assert(sampled@.subrange(0, i + 1).map_values(|c: char| ascii_upper(c))
                =~= sampled@.subrange(0, i as int).map_values(|c: char| ascii_upper(c)).push(ascii_upper(sampled@[i as int])));
        }
        i += 1;
    }
    proof { assert(sampled@.subrange(0, sampled@.len() as int) =~= sampled@); }
    r
}

/// A composed sign-in mail.
#[derive(Debug)]
pub struct AuthEmail {
    /// The code the user must type back.
    pub code: String,
    /// The HTML body of the mail.
    pub html: String,
}

/// Check the address and compose the sign-in mail for the randomly sampled
/// characters. The address is refused with the parser's message.
pub fn prepare_auth_email(to: &str, sampled: &Vec<char>) -> (r: Result<AuthEmail, Error>)
    ensures
        match email_rejection(to@) {
            Some(m) => r matches Err(Error::EmailValidation(msg)) && msg@ == m,
            None => r matches Ok(mail) && mail.code@ == sampled@.map_values(|c: char| ascii_upper(c))
                && mail.html@ == "Your login code is: "@ + mail.code@,
        },
        !to@.contains('@') ==> r is Err,
{
    match check_email(to) {
        Some(m) => Err(Error::EmailValidation(m)),
        None => {
            let code = auth_code(sampled);
            let html = String::from_str("Your login code is: ").concat(code.as_str());
            Ok(AuthEmail { code, html })
        },
    }
}

/// The number of characters of a sign-in code.
pub const AUTH_CODE_LEN: usize = 6;

/// An ASCII letter or digit: what `rand::distr::Alphanumeric` draws from.
pub open spec fn alphanumeric(c: char) -> bool {
    ('a' <= c && c <= 'z') || ('A' <= c && c <= 'Z') || ('0' <= c && c <= '9')
}

/// A character a sign-in code may hold: an upper-case ASCII letter or a digit.
pub open spec fn code_char(c: char) -> bool {
    ('A' <= c && c <= 'Z') || ('0' <= c && c <= '9')
}

/// `rand::distr::Alphanumeric` sampled with `rand::rng()`: a random ASCII
/// letter or digit. Claimed from its source: the byte is taken from the 62
/// characters `A-Z`, `a-z`, `0-9`. Which one is left open.
#[verifier::external_body]
fn sample_alphanumeric() -> (c: char)
    ensures
        alphanumeric(c),
{
    rand::rng().sample(rand::distr::Alphanumeric) as char
}

/// Check the address, draw a fresh random code and compose the sign-in mail.
/// The address is refused with the parser's message before any code is
/// drawn.
pub fn new_auth_email(to: &str) -> (r: Result<AuthEmail, Error>)
    ensures
        match email_rejection(to@) {
            Some(m) => r matches Err(Error::EmailValidation(msg)) && msg@ == m,
            None => r matches Ok(mail) && mail.code@.len() == AUTH_CODE_LEN
                && (forall|i: int| 0 <= i < mail.code@.len() ==> code_char(#[trigger] mail.code@[i]))
                && mail.html@ == "Your login code is: "@ + mail.code@,
        },
{
    match check_email(to) {
        Some(m) => Err(Error::EmailValidation(m)),
        None => {
            let mut sampled: Vec<char> = Vec::new();
            while sampled.len() < AUTH_CODE_LEN
                invariant
                    sampled@.len() <= AUTH_CODE_LEN,
                    forall|i: int| 0 <= i < sampled@.len() ==> alphanumeric(#[trigger] sampled@[i]),
                decreases AUTH_CODE_LEN - sampled@.len(),
            {
                sampled.push(sample_alphanumeric());
            }
            let code = auth_code(&sampled);
            proof {
                assert forall|i: int| 0 <= i < code@.len() implies code_char(#[trigger] code@[i]) by {
                    let c = sampled@[i];
                    assert(alphanumeric(c));
                    assert(code@[i] == ascii_upper(c));
                    if 'a' <= c && c <= 'z' {
                        assert(97 <= (c as u32) <= 122);
                        assert(65 <= (c as u32 - 32) <= 90);
                    }
                }
            }
            let html = String::from_str("Your login code is: ").concat(code.as_str());
            Ok(AuthEmail { code, html })
        },
    }
}

} // verus!
