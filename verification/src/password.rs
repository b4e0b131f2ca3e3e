//! Password policy: pick exactly one of three ordered sources, reject
//! empty passwords, and confirm newly set passwords.
//!
//! The surrounding process reads the environment, files and the terminal
//! once at its boundary and threads the obtained values in; every decision
//! about them is made here. A policy violation is returned as an error
//! value; the caller is expected to report it and terminate with a
//! non-zero status.

use vstd::prelude::*;

verus! {

/// A non-empty password, as typed or as read from a configured source.
pub struct Password {
    pub text: String,
}

impl View for Password {
    type V = Seq<char>;

    open spec fn view(&self) -> Seq<char> {
        self.text@
    }
}

impl Password {
    /// A well-formed password is never empty.
    pub open spec fn wf(&self) -> bool {
        self@.len() > 0
    }
}

/// Which of the three ordered sources supplies the password.
pub enum PasswordSource {
    /// A file path was configured; the file's entire content is the password.
    FromFile(String),
    /// A literal password value was configured.
    FromValue(String),
    /// Nothing was configured; an interactive masked prompt must be used.
    FromPrompt,
}

/// A violation of the password policy. All of these are fatal for the
/// operation that needed the password.
#[derive(Debug)]
pub enum PasswordError {
    /// The resulting password was empty.
    EmptyPassword,
    /// The configured password file could not be read.
    UnreadableFile,
    /// The two confirmation inputs differ.
    MismatchedPasswords,
}

/// Pick the password source: a configured file path wins over a configured
/// literal value, which wins over the interactive prompt. Sources are
/// never combined.
pub fn choose_source(file_var: Option<String>, value_var: Option<String>) -> (r: PasswordSource)
    ensures
        match r {
            PasswordSource::FromFile(p) => file_var matches Some(q) && p@ == q@,
            PasswordSource::FromValue(v) => file_var is None && (value_var matches Some(w)
                && v@ == w@),
            PasswordSource::FromPrompt => file_var is None && value_var is None,
        },
{
    match file_var {
        Some(p) => PasswordSource::FromFile(p),
        None => match value_var {
            Some(v) => PasswordSource::FromValue(v),
            None => PasswordSource::FromPrompt,
        },
    }
}

/// Accept a password value obtained from the chosen source: empty input is
/// a policy violation, never a usable credential.
pub fn accept_password(text: String) -> (r: Result<Password, PasswordError>)
    ensures
        text@.len() > 0 ==> (r matches Ok(p) && p@ == text@ && p.wf()),
        text@.len() == 0 ==> r == Err::<Password, PasswordError>(PasswordError::EmptyPassword),
{
    if text.as_str().is_empty() {
        Err(PasswordError::EmptyPassword)
    } else {
        Ok(Password { text })
    }
}

/// Accept the outcome of reading a configured password file. A read
/// failure is fatal here; it never falls back to another source.
pub fn accept_file_password(content: Option<String>) -> (r: Result<Password, PasswordError>)
    ensures
        match content {
            None => r == Err::<Password, PasswordError>(PasswordError::UnreadableFile),
            Some(text) => {
                &&& text@.len() > 0 ==> (r matches Ok(p) && p@ == text@ && p.wf())
                &&& text@.len() == 0 ==> r == Err::<Password, PasswordError>(
                    PasswordError::EmptyPassword,
                )
            },
        },
{
    match content {
        None => Err(PasswordError::UnreadableFile),
        Some(text) => accept_password(text),
    }
}

/// The confirmation flow succeeded with password `p`: both prompts were
/// answered, identically and non-empty.
pub open spec fn confirm_ok(first: Option<String>, second: Option<String>, p: Password) -> bool {
    match (first, second) {
        (Some(f), Some(s)) => p@ == f@ && f@.len() > 0 && s@ == f@,
        _ => false,
    }
}

/// The confirmation flow ran into a missing or empty input, the first
/// prompt's answer being judged first.
pub open spec fn confirm_empty(first: Option<String>, second: Option<String>) -> bool {
    match first {
        None => true,
        Some(f) => f@.len() == 0 || match second {
            None => true,
            Some(s) => s@.len() == 0,
        },
    }
}

/// Both prompts were answered with non-empty but different inputs.
pub open spec fn confirm_mismatch(first: Option<String>, second: Option<String>) -> bool {
    match (first, second) {
        (Some(f), Some(s)) => f@.len() > 0 && s@.len() > 0 && s@ != f@,
        _ => false,
    }
}

/// Decide the outcome of the confirmation flow for a newly set password.
///
/// When encryption is explicitly disabled, no password is requested and
/// none is returned. Otherwise `first` and `second` are the two prompt
/// results, in order; a missing or empty input is an empty-password
/// violation, and two non-identical inputs are a mismatch violation, with
/// the first prompt's violation reported first.
pub fn read_and_confirm_pwd(
    unsafe_dont_encrypt: bool,
    first: Option<String>,
    second: Option<String>,
) -> (r: Result<Option<Password>, PasswordError>)
    ensures
        unsafe_dont_encrypt ==> r == Ok::<Option<Password>, PasswordError>(None),
        !unsafe_dont_encrypt ==> match r {
            Ok(opt) => opt matches Some(p) && confirm_ok(first, second, p),
            Err(e) => match e {
                PasswordError::EmptyPassword => confirm_empty(first, second),
                PasswordError::MismatchedPasswords => confirm_mismatch(first, second),
                PasswordError::UnreadableFile => false,
            },
        },
{
    if unsafe_dont_encrypt {
        return Ok(None);
    }
    let enter = match first {
        None => {
            return Err(PasswordError::EmptyPassword);
        },
        Some(f) => match accept_password(f) {
            Err(e) => {
                return Err(e);
            },
            Ok(p) => p,
        },
    };
    let confirm = match second {
        None => {
            return Err(PasswordError::EmptyPassword);
        },
        Some(s) => match accept_password(s) {
            Err(e) => {
                return Err(e);
            },
            Ok(p) => p,
        },
    };
    if confirm.text == enter.text {
        Ok(Some(enter))
    } else {
        Err(PasswordError::MismatchedPasswords)
    }
}

} // verus!
