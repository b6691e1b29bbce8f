//! The decisions of the command-line client that need no terminal: output
//! modes, which confirmations a quiet run suppresses, the document query
//! of the listing flags, and how a login is carried out.
use vstd::prelude::*;

use crate::error::AppError;
use crate::services::{opt_text, DocumentQuery};
use crate::text::{ascii_lowercase, chars_of, str_is, string_of, to_ascii_lowercase, trim, trim_whitespace};

verus! {

broadcast use vstd::string::group_string_axioms;

/// How results are shown.
#[derive(Clone, Copy, Debug, PartialEq, Eq, Structural)]
pub enum OutputMode {
    Json,
    Markdown,
    Tui,
}

/// The name of an output mode.
pub open spec fn output_name_spec(output: OutputMode) -> Seq<char> {
    match output {
        OutputMode::Json => "json"@,
        OutputMode::Markdown => "markdown"@,
        OutputMode::Tui => "tui"@,
    }
}

/// The name of an output mode, as results carry it.
pub fn output_name(output: OutputMode) -> (res: &'static str)
    ensures
        res@ == output_name_spec(output),
{
    match output {
        OutputMode::Json => "json",
        OutputMode::Markdown => "markdown",
        OutputMode::Tui => "tui",
    }
}

/// The commands whose confirmation a quiet run leaves out.
pub open spec fn is_confirmation(command: Seq<char>) -> bool {
    ||| command == "login"@
    ||| command == "config set-url"@
    ||| command == "config set-token"@
    ||| command == "documents upload"@
    ||| command == "documents download"@
    ||| command == "documents preview"@
    ||| command == "documents thumb"@
    ||| command == "documents edit"@
    ||| command == "documents update"@
    ||| command == "documents delete"@
    ||| command == "tags create"@
    ||| command == "tags edit"@
    ||| command == "tags delete"@
    ||| command == "correspondents create"@
    ||| command == "correspondents delete"@
    ||| command == "document-types create"@
    ||| command == "document-types delete"@
    ||| command == "export bulk"@
}

/// Whether `--quiet` suppresses the output of a command: only the
/// confirmations of changes, and only in Markdown, where nothing reads them.
pub fn suppressible_command(command: &str, output: OutputMode) -> (res: bool)
    ensures
        res == (output is Markdown && is_confirmation(command@)),
{
    match output {
        OutputMode::Json | OutputMode::Tui => {
            return false;
        },
        OutputMode::Markdown => {},
    }
    str_is(command, "login") || str_is(command, "config set-url") || str_is(command, "config set-token")
        || str_is(command, "documents upload") || str_is(command, "documents download") || str_is(
        command,
        "documents preview",
    ) || str_is(command, "documents thumb") || str_is(command, "documents edit") || str_is(
        command,
        "documents update",
    ) || str_is(command, "documents delete") || str_is(command, "tags create") || str_is(
        command,
        "tags edit",
    ) || str_is(command, "tags delete") || str_is(command, "correspondents create") || str_is(
        command,
        "correspondents delete",
    ) || str_is(command, "document-types create") || str_is(command, "document-types delete")
        || str_is(command, "export bulk")
}

// ---------------------------------------------------------------------------
// Document listings
// ---------------------------------------------------------------------------

/// The filters of the document listing and search commands.
pub struct DocumentFilters {
    pub tag: Option<String>,
    pub tag_id: Option<u64>,
    pub correspondent: Option<String>,
    pub correspondent_id: Option<u64>,
    pub document_type: Option<String>,
    pub type_id: Option<u64>,
    pub created_after: Option<String>,
    pub created_before: Option<String>,
    pub order_by: String,
    pub page_size: u64,
    pub page: u64,
}

fn copy_text(value: &Option<String>) -> (res: Option<String>)
    ensures
        opt_text(res) == opt_text(*value),
{
    match value {
        Some(s) => Some(string_of(chars_of(s.as_str()).as_slice())),
        None => None,
    }
}

/// The query of a listing: the full-text query and each filter as given.
pub fn document_query_from_filters(query: Option<String>, filters: &DocumentFilters) -> (res:
    DocumentQuery)
    ensures
        res.query == query,
        opt_text(res.tag) == opt_text(filters.tag),
        res.tag_id == filters.tag_id,
        opt_text(res.correspondent) == opt_text(filters.correspondent),
        res.correspondent_id == filters.correspondent_id,
        opt_text(res.document_type) == opt_text(filters.document_type),
        res.document_type_id == filters.type_id,
        opt_text(res.created_after) == opt_text(filters.created_after),
        opt_text(res.created_before) == opt_text(filters.created_before),
        res.order_by@ == filters.order_by@,
        res.page_size == filters.page_size,
        res.page == filters.page,
{
    DocumentQuery {
        query,
        tag: copy_text(&filters.tag),
        tag_id: filters.tag_id,
        correspondent: copy_text(&filters.correspondent),
        correspondent_id: filters.correspondent_id,
        document_type: copy_text(&filters.document_type),
        document_type_id: filters.type_id,
        created_after: copy_text(&filters.created_after),
        created_before: copy_text(&filters.created_before),
        order_by: string_of(chars_of(filters.order_by.as_str()).as_slice()),
        page_size: filters.page_size,
        page: filters.page,
    }
}

// ---------------------------------------------------------------------------
// Logging in
// ---------------------------------------------------------------------------

/// How to authenticate.
#[derive(Clone, Copy, Debug, PartialEq, Eq, Structural)]
pub enum LoginMethod {
    Token,
    Password,
}

/// The method an answer to "Login with [token|password]" names, in any
/// case and with surrounding blanks.
pub open spec fn login_method_spec(answer: Seq<char>) -> Option<LoginMethod> {
    let a = ascii_lowercase(trim(answer));
    if a == "token"@ || a == "t"@ || a == "1"@ {
        Some(LoginMethod::Token)
    } else if a == "password"@ || a == "p"@ || a == "2"@ || a == "userpass"@ {
        Some(LoginMethod::Password)
    } else {
        None
    }
}

pub open spec fn unsupported_method_message() -> Seq<char> {
    "Unsupported login method. Choose `token` or `password`."@
}

/// Reads the answer to the login method question.
pub fn login_method(answer: &str) -> (res: Result<LoginMethod, AppError>)
    ensures
        match login_method_spec(answer@) {
            Some(m) => res == Ok::<LoginMethod, AppError>(m),
            None => res matches Err(AppError::Message(msg)) && msg@ == unsupported_method_message(),
        },
{
    let chars = chars_of(answer);
    let trimmed = trim_whitespace(chars.as_slice());
    let lower = to_ascii_lowercase(trimmed.as_slice());
    let a = string_of(lower.as_slice());
    let s = a.as_str();
    if str_is(s, "token") || str_is(s, "t") || str_is(s, "1") {
        Ok(LoginMethod::Token)
    } else if str_is(s, "password") || str_is(s, "p") || str_is(s, "2") || str_is(s, "userpass") {
        Ok(LoginMethod::Password)
    } else {
        let m = chars_of("Unsupported login method. Choose `token` or `password`.");
        Err(AppError::Message(string_of(m.as_slice())))
    }
}

/// What a login still has to ask for, given the flags.
#[derive(Clone, Copy, Debug, PartialEq, Eq, Structural)]
pub enum LoginNeed {
    /// A token was given: use it.
    UseToken,
    /// A username or a password was given: ask for whichever is missing.
    UsePassword { ask_username: bool, ask_password: bool },
    /// Nothing was given: ask which method to use.
    AskMethod,
}

/// What a login still has to ask for: nothing with a token; the missing
/// half of a username and password when one of them is given; else the
/// method.
pub fn login_need(token: &Option<String>, username: &Option<String>, password: &Option<String>) -> (res:
    LoginNeed)
    ensures
        token is Some ==> res == LoginNeed::UseToken,
        token is None && (username is Some || password is Some) ==> res == (LoginNeed::UsePassword {
            ask_username: username is None,
            ask_password: password is None,
        }),
        token is None && username is None && password is None ==> res == LoginNeed::AskMethod,
{
    if token.is_some() {
        LoginNeed::UseToken
    } else if username.is_some() || password.is_some() {
        LoginNeed::UsePassword { ask_username: username.is_none(), ask_password: password.is_none() }
    } else {
        LoginNeed::AskMethod
    }
}

/// The credentials a connection is made with.
#[derive(Debug)]
pub enum Credentials {
    Token(String),
    Password { username: String, password: String },
}

/// The credentials to connect with: the token when there is one, else the
/// username and password, which must then both be given.
pub fn choose_credentials(token: Option<String>, username: Option<String>, password: Option<String>) -> (res:
    Result<Credentials, AppError>)
    ensures
        match token {
            Some(t) => res matches Ok(Credentials::Token(x)) && x == t,
            None => match (username, password) {
                (Some(u), Some(p)) => res matches Ok(Credentials::Password { username, password })
                    && username == u && password == p,
                _ => res matches Err(e) && e is MissingCredentials,
            },
        },
{
    match token {
        Some(t) => Ok(Credentials::Token(t)),
        None => match username {
            Some(u) => match password {
                Some(p) => Ok(Credentials::Password { username: u, password: p }),
                None => Err(AppError::MissingCredentials),
            },
            None => Err(AppError::MissingCredentials),
        },
    }
}

/// What a prompt accepts: the answer without surrounding blanks, which must
/// not be empty.
pub fn prompt_answer(label: &str, raw: &str) -> (res: Result<String, AppError>)
    ensures
        trim(raw@).len() > 0 ==> (res matches Ok(v) && v@ == trim(raw@)),
        trim(raw@).len() == 0 ==> (res matches Err(AppError::Message(m)) && m@ == label@
            + " cannot be empty."@),
{
    let chars = chars_of(raw);
    let trimmed = trim_whitespace(chars.as_slice());
    if trimmed.len() == 0 {
        let mut m = chars_of(label);
        let rest = chars_of(" cannot be empty.");
        crate::text::append_chars(&mut m, rest.as_slice());
        return Err(AppError::Message(string_of(m.as_slice())));
    }
    Ok(string_of(trimmed.as_slice()))
}

/// A value that is there and not blank.
pub fn nonblank(value: Option<String>) -> (res: Option<String>)
    ensures
        match value {
            Some(v) => if trim(v@).len() > 0 {
                res == Some(v)
            } else {
                res is None
            },
            None => res is None,
        },
{
    match value {
        Some(v) => {
            let chars = chars_of(v.as_str());
            let trimmed = trim_whitespace(chars.as_slice());
            if trimmed.len() > 0 {
                Some(v)
            } else {
                None
            }
        },
        None => None,
    }
}

} // verus!
