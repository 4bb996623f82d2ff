//! Classification of deletion failures into a closed set of kinds.
use vstd::prelude::*;

verus! {

/// Why a file could not be removed.
#[derive(Clone, Copy, Debug, PartialEq, Eq, Structural)]
pub enum ErrorKind {
    InUse,
    AccessDenied,
    NotFound,
    PathTooLong,
    DiskFull,
    InvalidName,
    DirectoryNotEmpty,
    ReadOnly,
    Other,
}

/// A failed system call as the engine sees it: the raw OS code, if any, and the message.
pub struct OsError {
    pub code: Option<i32>,
    pub message: String,
}

/// The display label of each kind.
pub open spec fn label_text(kind: ErrorKind) -> Seq<char> {
    match kind {
        ErrorKind::InUse => "File in use"@,
        ErrorKind::AccessDenied => "Access denied"@,
        ErrorKind::NotFound => "File not found"@,
        ErrorKind::PathTooLong => "Path too long"@,
        ErrorKind::DiskFull => "Disk full"@,
        ErrorKind::InvalidName => "Invalid name"@,
        ErrorKind::DirectoryNotEmpty => "Directory not empty"@,
        ErrorKind::ReadOnly => "Read-only file"@,
        ErrorKind::Other => "Other error"@,
    }
}

impl ErrorKind {
    pub fn label(&self) -> (r: String)
        ensures
            r@ == label_text(*self),
    {
        match self {
            ErrorKind::InUse => String::from_str("File in use"),
            ErrorKind::AccessDenied => String::from_str("Access denied"),
            ErrorKind::NotFound => String::from_str("File not found"),
            ErrorKind::PathTooLong => String::from_str("Path too long"),
            ErrorKind::DiskFull => String::from_str("Disk full"),
            ErrorKind::InvalidName => String::from_str("Invalid name"),
            ErrorKind::DirectoryNotEmpty => String::from_str("Directory not empty"),
            ErrorKind::ReadOnly => String::from_str("Read-only file"),
            ErrorKind::Other => String::from_str("Other error"),
        }
    }
}

/// The kind that a known raw OS code stands for; `None` for codes without a fixed meaning here.
pub open spec fn code_kind(code: i32) -> Option<ErrorKind> {
    if code == 32 {
        Some(ErrorKind::InUse)
    } else if code == 5 || code == 13 {
        Some(ErrorKind::AccessDenied)
    } else if code == 2 || code == 3 {
        Some(ErrorKind::NotFound)
    } else if code == 28 || code == 39 || code == 112 {
        Some(ErrorKind::DiskFull)
    } else if code == 123 || code == 267 {
        Some(ErrorKind::InvalidName)
    } else if code == 145 {
        Some(ErrorKind::DirectoryNotEmpty)
    } else if code == 206 {
        Some(ErrorKind::PathTooLong)
    } else if code == 17 || code == 20 || code == 21 || code == 22 || code == 30 || code == 31
        || code == 80 || code == 87 || code == 183 || code == 1005 {
        Some(ErrorKind::Other)
    } else {
        None
    }
}

/// Whether `pat` occurs in `text`.
pub open spec fn occurs_in(text: Seq<char>, pat: Seq<char>) -> bool {
    exists|i: int|
        0 <= i && i + pat.len() <= text.len() && #[trigger] text.subrange(i, i + pat.len()) == pat
}

/// The kind read from a lower-cased message.
pub open spec fn message_kind(text: Seq<char>) -> ErrorKind {
    if occurs_in(text, "permission denied"@) || occurs_in(text, "access denied"@) {
        ErrorKind::AccessDenied
    } else if occurs_in(text, "file not found"@) {
        ErrorKind::NotFound
    } else if occurs_in(text, "directory not empty"@) {
        ErrorKind::DirectoryNotEmpty
    } else if occurs_in(text, "no space left"@) {
        ErrorKind::DiskFull
    } else if occurs_in(text, "read-only"@) {
        ErrorKind::ReadOnly
    } else if occurs_in(text, "being used by another process"@) {
        ErrorKind::InUse
    } else {
        ErrorKind::Other
    }
}

/// A known code decides; otherwise the lower-cased message does.
pub open spec fn error_kind(code: Option<i32>, lowered: Seq<char>) -> ErrorKind {
    match code {
        Some(c) if code_kind(c) is Some => code_kind(c)->0,
        _ => message_kind(lowered),
    }
}

/// The lower-case form of a message.
pub uninterp spec fn lower_of(s: Seq<char>) -> Seq<char>;

/// Relies on str::to_lowercase: the result depends on the characters alone.
#[verifier::external_body]
fn lowercase(s: &str) -> (r: String)
    ensures
        r@ == lower_of(s@),
{
    s.to_lowercase()
}

/// The kind a known raw OS code stands for.
pub fn kind_for_code(code: i32) -> (r: Option<ErrorKind>)
    ensures
        r == code_kind(code),
{
    match code {
        32 => Some(ErrorKind::InUse),
        5 | 13 => Some(ErrorKind::AccessDenied),
        2 | 3 => Some(ErrorKind::NotFound),
        28 | 39 | 112 => Some(ErrorKind::DiskFull),
        123 | 267 => Some(ErrorKind::InvalidName),
        145 => Some(ErrorKind::DirectoryNotEmpty),
        206 => Some(ErrorKind::PathTooLong),
        17 | 20 | 21 | 22 | 30 | 31 | 80 | 87 | 183 | 1005 => Some(ErrorKind::Other),
        _ => None,
    }
}

/// Whether `text` holds `pat` at position `start`.
fn occurs_at(text: &str, start: usize, pat: &str) -> (r: bool)
    requires
        start + pat@.len() <= text@.len(),
    ensures
        r == (text@.subrange(start as int, start + pat@.len()) == pat@),
{
    let tl = text.unicode_len();
    let pl = pat.unicode_len();
    let mut i: usize = 0;
    while i < pl
        invariant
            tl == text@.len(),
            pl == pat@.len(),
            start + pl <= text@.len(),
            i <= pl,
            forall|j: int| 0 <= j < i ==> #[trigger] text@[start + j] == pat@[j],
        decreases pl - i,
    {
        if text.get_char(start + i) != pat.get_char(i) {
            assert(text@.subrange(start as int, start + pl)[i as int] != pat@[i as int]);
            return false;
        }
        i = i + 1;
    }
    assert forall|k: int| 0 <= k < pl implies text@.subrange(start as int, start + pl)[k]
        == pat@[k] by {
        assert(text@[start + k] == pat@[k]);
    }
    assert(text@.subrange(start as int, start + pl) =~= pat@);
    true
}

/// Whether `pat` occurs anywhere in `text`.
fn contains_text(text: &str, pat: &str) -> (r: bool)
    ensures
        r == occurs_in(text@, pat@),
{
    let tl = text.unicode_len();
    let pl = pat.unicode_len();
    if pl > tl {
        return false;
    }
    let mut i: usize = 0;
    while i <= tl - pl
        invariant
            tl == text@.len(),
            pl == pat@.len(),
            pl <= tl,
            i <= tl - pl + 1,
            forall|j: int| 0 <= j < i ==> #[trigger] text@.subrange(j, j + pl) != pat@,
        decreases tl - pl + 1 - i,
    {
        if occurs_at(text, i, pat) {
            return true;
        }
        if i == tl - pl {
            return false;
        }
        i = i + 1;
    }
    false
}

/// Classifies a failure from its raw OS code and its lower-cased message.
pub fn classify_error(code: Option<i32>, lowered: &str) -> (r: ErrorKind)
    ensures
        r == error_kind(code, lowered@),
{
    if let Some(c) = code {
        if let Some(kind) = kind_for_code(c) {
            return kind;
        }
    }
    if contains_text(lowered, "permission denied") || contains_text(lowered, "access denied") {
        ErrorKind::AccessDenied
    } else if contains_text(lowered, "file not found") {
        ErrorKind::NotFound
    } else if contains_text(lowered, "directory not empty") {
        ErrorKind::DirectoryNotEmpty
    } else if contains_text(lowered, "no space left") {
        ErrorKind::DiskFull
    } else if contains_text(lowered, "read-only") {
        ErrorKind::ReadOnly
    } else if contains_text(lowered, "being used by another process") {
        ErrorKind::InUse
    } else {
        ErrorKind::Other
    }
}

/// Classifies a system error: its code when known, else its message, case-insensitively.
pub fn translate_error(error: &OsError) -> (r: ErrorKind)
    ensures
        r == error_kind(error.code, lower_of(error.message@)),
{
    if let Some(c) = error.code {
        if let Some(kind) = kind_for_code(c) {
            return kind;
        }
    }
    let lowered = lowercase(error.message.as_str());
    classify_error(None, lowered.as_str())
}

} // verus!
