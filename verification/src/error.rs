//! Errors raised by the browser, mapped to the error kinds of the service.

use vstd::prelude::*;

use crate::text::same_text;

verus! {

/// The kinds of failure that the service reports.
#[derive(Debug, Clone, Copy, PartialEq, Eq, Structural)]
pub enum OpfsErrorKind {
    NotFound,
    PermissionDenied,
    IsADirectory,
    RateLimited,
    Unexpected,
}

/// A failure of the service: its kind and the browser's message.
#[derive(Debug)]
pub struct OpfsError {
    pub kind: OpfsErrorKind,
    pub message: String,
}

/// What a value thrown by the browser offers, read out as plain values.
#[derive(Debug)]
pub struct JsErrorFields {
    /// Name and message, where the value is a JavaScript `Error`.
    pub error: Option<(String, String)>,
    /// Its `name` property, where it has one that is a string.
    pub name_property: Option<String>,
    /// The value itself, where it is a string.
    pub string_value: Option<String>,
    /// Its `message` property, where it has one that is a string.
    pub message_property: Option<String>,
    /// Its debug rendering.
    pub debug_text: String,
}

/// The kind of failure that a DOM exception name stands for.
pub open spec fn error_kind_of_name(name: Seq<char>) -> OpfsErrorKind {
    if name == "NotFoundError"@ {
        OpfsErrorKind::NotFound
    } else if name == "NotAllowedError"@ {
        OpfsErrorKind::PermissionDenied
    } else if name == "TypeMismatchError"@ {
        OpfsErrorKind::IsADirectory
    } else if name == "SecurityError"@ {
        OpfsErrorKind::PermissionDenied
    } else if name == "QuotaExceededError"@ {
        OpfsErrorKind::RateLimited
    } else {
        OpfsErrorKind::Unexpected
    }
}

/// The name taken for a thrown value: that of the `Error`, else its `name`
/// property, else `"UnknownError"`.
pub open spec fn js_error_name(f: JsErrorFields) -> Seq<char> {
    match f.error {
        Some(e) => e.0@,
        None => match f.name_property {
            Some(n) => n@,
            None => "UnknownError"@,
        },
    }
}

/// The message taken for a thrown value: that of the `Error`, else the value
/// itself where it is a string, else its `message` property, else its debug
/// rendering.
pub open spec fn js_error_message(f: JsErrorFields) -> Seq<char> {
    match f.error {
        Some(e) => e.1@,
        None => match f.string_value {
            Some(s) => s@,
            None => match f.message_property {
                Some(m) => m@,
                None => f.debug_text@,
            },
        },
    }
}

/// Only `NotFoundError` reports a missing entry; `QuotaExceededError` alone
/// reports a rate limit and `TypeMismatchError` alone a directory;
/// `NotAllowedError` and `SecurityError` report a denied permission; every
/// other name is unexpected.
pub proof fn lemma_error_kind_of_name(name: Seq<char>)
    ensures
        error_kind_of_name(name) == OpfsErrorKind::NotFound <==> name == "NotFoundError"@,
        error_kind_of_name(name) == OpfsErrorKind::RateLimited <==> name == "QuotaExceededError"@,
        error_kind_of_name(name) == OpfsErrorKind::IsADirectory <==> name == "TypeMismatchError"@,
        error_kind_of_name(name) == OpfsErrorKind::PermissionDenied <==> (name == "NotAllowedError"@
            || name == "SecurityError"@),
        error_kind_of_name(name) == OpfsErrorKind::Unexpected <==> !(name == "NotFoundError"@
            || name == "NotAllowedError"@ || name == "TypeMismatchError"@ || name
            == "SecurityError"@ || name == "QuotaExceededError"@),
{
    reveal_strlit("NotFoundError");
    reveal_strlit("NotAllowedError");
    reveal_strlit("TypeMismatchError");
    reveal_strlit("SecurityError");
    reveal_strlit("QuotaExceededError");
    assert("NotFoundError"@[3] != "NotAllowedError"@[3]);
    assert("NotFoundError"@.len() != "TypeMismatchError"@.len());
    assert("NotFoundError"@.len() != "SecurityError"@.len() || "NotFoundError"@[0]
        != "SecurityError"@[0]);
    assert("NotFoundError"@.len() != "QuotaExceededError"@.len());
    assert("NotAllowedError"@.len() != "TypeMismatchError"@.len());
    assert("NotAllowedError"@.len() != "SecurityError"@.len());
    assert("NotAllowedError"@.len() != "QuotaExceededError"@.len());
    assert("TypeMismatchError"@.len() != "SecurityError"@.len());
    assert("TypeMismatchError"@.len() != "QuotaExceededError"@.len());
    assert("SecurityError"@.len() != "QuotaExceededError"@.len());
}

/// Maps a DOM exception name to the kind of failure.
pub fn error_kind_from_name(name: &str) -> (k: OpfsErrorKind)
    ensures
        k == error_kind_of_name(name@),
        k == OpfsErrorKind::NotFound <==> name@ == "NotFoundError"@,
        k == OpfsErrorKind::RateLimited <==> name@ == "QuotaExceededError"@,
        k == OpfsErrorKind::IsADirectory <==> name@ == "TypeMismatchError"@,
        k == OpfsErrorKind::PermissionDenied <==> (name@ == "NotAllowedError"@ || name@
            == "SecurityError"@),
        k == OpfsErrorKind::Unexpected <==> !(name@ == "NotFoundError"@ || name@
            == "NotAllowedError"@ || name@ == "TypeMismatchError"@ || name@ == "SecurityError"@
            || name@ == "QuotaExceededError"@),
{
    proof {
        lemma_error_kind_of_name(name@);
    }
    if same_text(name, "NotFoundError") {
        OpfsErrorKind::NotFound
    } else if same_text(name, "NotAllowedError") {
        OpfsErrorKind::PermissionDenied
    } else if same_text(name, "TypeMismatchError") {
        OpfsErrorKind::IsADirectory
    } else if same_text(name, "SecurityError") {
        OpfsErrorKind::PermissionDenied
    } else if same_text(name, "QuotaExceededError") {
        OpfsErrorKind::RateLimited
    } else {
        OpfsErrorKind::Unexpected
    }
}

/// Turns a value thrown by the browser into a failure of the service.
pub fn parse_js_error(fields: JsErrorFields) -> (e: OpfsError)
    ensures
        e.kind == error_kind_of_name(js_error_name(fields)),
        e.message@ == js_error_message(fields),
{
    let (name, message) = match fields.error {
        Some(pair) => pair,
        None => {
            let name = match fields.name_property {
                Some(n) => n,
                None => "UnknownError".to_owned(),
            };
            let message = match fields.string_value {
                Some(s) => s,
                None => match fields.message_property {
                    Some(m) => m,
                    None => fields.debug_text,
                },
            };
            (name, message)
        },
    };
    let kind = error_kind_from_name(name.as_str());
    OpfsError { kind, message }
}

/// Whether the failure says that the entry does not exist.
pub fn is_not_found(e: &OpfsError) -> (r: bool)
    ensures
        r == (e.kind == OpfsErrorKind::NotFound),
{
    match e.kind {
        OpfsErrorKind::NotFound => true,
        _ => false,
    }
}

} // verus!
