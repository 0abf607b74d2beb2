//! The errors that the tool reports, and how each is shown and ends the process.

use vstd::prelude::*;

use vstd::string::to_string_from_display_ensures;

verus! {

#[verifier::external_type_specification]
#[verifier::external_body]
pub struct ExIoError(std::io::Error);

#[verifier::external_type_specification]
#[verifier::external_body]
pub struct ExJsonError(serde_json::Error);

/// What went wrong, with the context that the message needs.
#[derive(Debug)]
pub enum AppError {
    /// A mistake of the user, shown as it is.
    User(String),
    /// A failed file or process operation on the named target.
    Io(String, std::io::Error),
    /// A JSON document at the named path that could not be read or written.
    Json(String, serde_json::Error),
    /// A flow configuration that breaks a rule.
    Config(String),
}

/// `msg`, a full stop and a space, then `suggestion`.
pub open spec fn suggestion_text(msg: Seq<char>, suggestion: Seq<char>) -> Seq<char> {
    msg + ". "@ + suggestion
}

/// The exit status that ends the process after `e`.
pub open spec fn exit_code_of(e: &AppError) -> u8 {
    match e {
        AppError::User(_) => 1,
        AppError::Io(_, _) => 2,
        AppError::Json(_, _) => 2,
        AppError::Config(_) => 1,
    }
}

impl AppError {
    /// A user error whose message ends with a hint on how to recover.
    pub fn with_suggestion(msg: &str, suggestion: &str) -> (e: AppError)
        ensures
            e matches AppError::User(m) && m@ == suggestion_text(msg@, suggestion@),
    {
        let mut m = msg.to_owned();
        m.append(". ");
        m.append(suggestion);
        AppError::User(m)
    }

    /// Whether this is a mistake of the user.
    pub fn is_user_error(&self) -> (b: bool)
        ensures
            b == (self is User),
    {
        match self {
            AppError::User(_) => true,
            _ => false,
        }
    }

    /// The exit status of the process after this error: 1 for the user's
    /// mistakes and broken rules, 2 for failed operations.
    pub fn exit_code(&self) -> (code: u8)
        ensures
            code == exit_code_of(self),
    {
        match self {
            AppError::User(_) => 1,
            AppError::Io(_, _) => 2,
            AppError::Json(_, _) => 2,
            AppError::Config(_) => 1,
        }
    }

    /// The message shown for this error.
    pub fn message(&self) -> (m: String)
        ensures
            self matches AppError::User(u) ==> m@ == u@,
            self matches AppError::Config(c) ==> m@ == "Configuration error: "@ + c@,
            self matches AppError::Io(p, e) ==> exists|s: String|
                #![trigger to_string_from_display_ensures::<std::io::Error>(&e, s)]
                to_string_from_display_ensures::<std::io::Error>(&e, s) && m@ == "IO error: "@
                    + p@ + ": "@ + s@,
            self matches AppError::Json(p, e) ==> exists|s: String|
                #![trigger to_string_from_display_ensures::<serde_json::Error>(&e, s)]
                to_string_from_display_ensures::<serde_json::Error>(&e, s) && m@
                    == "JSON error in "@ + p@ + ": "@ + s@,
    {
        match self {
            AppError::User(u) => u.clone(),
            AppError::Config(c) => {
                let mut m = "Configuration error: ".to_owned();
                m.append(c.as_str());
                m
            },
            AppError::Io(p, e) => {
                let mut m = "IO error: ".to_owned();
                m.append(p.as_str());
                m.append(": ");
                let s = e.to_string();
                m.append(s.as_str());
                m
            },
            AppError::Json(p, e) => {
                let mut m = "JSON error in ".to_owned();
                m.append(p.as_str());
                m.append(": ");
                let s = e.to_string();
                m.append(s.as_str());
                m
            },
        }
    }
}

} // verus!
