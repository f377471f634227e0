use vstd::prelude::*;
use vstd::string::*;

verus! {

/// The kinds of I/O failure that the save rules tell apart.
#[derive(Debug, Clone, Copy, PartialEq, Eq, Structural)]
pub enum IoErrorKind {
    /// The file or directory does not exist.
    NotFound,
    /// Any other failure.
    Other,
}

/// An I/O failure as the file system reported it.
#[derive(Debug, Clone, PartialEq, Eq)]
pub struct IoFailure {
    pub kind: IoErrorKind,
    pub message: String,
}

/// Everything that can go wrong while saving or loading.
#[derive(Debug, Clone, PartialEq, Eq)]
pub enum SaveError {
    /// Reading or writing `path` failed.
    Io { path: String, kind: IoErrorKind, message: String },
    /// A value could not be written as RON.
    Serialize { resource_type: String, message: String },
    /// A save file is not valid RON for what it should hold.
    Deserialize(String),
    /// The platform did not provide the directory a location needs.
    LocationUnavailable(String),
    /// A sub path was rooted, had a drive prefix or climbed out with `..`.
    InvalidSubPath(String),
    /// The named resource (or its registration) is not in the world.
    ResourceMissing(String),
    /// A save file is not valid UTF-8.
    InvalidUtf8(String),
    /// One member of a group file could not be read back into its type.
    GroupMemberDeserialize(String),
    /// The named save group has no registered members.
    UnknownGroup(String),
    /// A value written by this library could not be read back by it.
    Internal(String),
}

/// The human-readable text of an error.
pub open spec fn error_text(e: SaveError) -> Seq<char> {
    match e {
        SaveError::Io { path, message, .. } => "io error at "@ + path@ + ": "@ + message@,
        SaveError::Serialize { resource_type, message } =>
            "failed to serialize `"@ + resource_type@ + "` to RON: "@ + message@,
        SaveError::Deserialize(m) => "failed to deserialize from RON: "@ + m@,
        SaveError::LocationUnavailable(r) => "could not resolve save location: "@ + r@,
        SaveError::InvalidSubPath(p) =>
            "sub path `"@ + p@ + "` must be relative (no root or drive prefix)"@,
        SaveError::ResourceMissing(t) => "resource `"@ + t@ + "` was not found in the world"@,
        SaveError::InvalidUtf8(m) => "saved file is not valid UTF-8: "@ + m@,
        SaveError::GroupMemberDeserialize(m) =>
            "failed to deserialize group member from RON: "@ + m@,
        SaveError::UnknownGroup(g) => "unknown save group: "@ + g@,
        SaveError::Internal(m) => "internal error: "@ + m@,
    }
}

/// `a + b` as a new string.
fn join2(a: &str, b: &str) -> (s: String)
    ensures
        s@ == a@ + b@,
{
    let mut s = String::from_str(a);
    s.append(b);
    s
}

/// `a + b + c` as a new string.
fn join3(a: &str, b: &str, c: &str) -> (s: String)
    ensures
        s@ == a@ + b@ + c@,
{
    let mut s = String::from_str(a);
    s.append(b);
    s.append(c);
    s
}

/// `a + b + c + d` as a new string.
fn join4(a: &str, b: &str, c: &str, d: &str) -> (s: String)
    ensures
        s@ == a@ + b@ + c@ + d@,
{
    let mut s = join3(a, b, c);
    s.append(d);
    s
}

impl SaveError {
    /// The error's message, as shown to users.
    pub fn describe(&self) -> (text: String)
        ensures
            text@ == error_text(*self),
    {
        match self {
            SaveError::Io { path, message, .. } => join4(
                "io error at ",
                path.as_str(),
                ": ",
                message.as_str(),
            ),
            SaveError::Serialize { resource_type, message } => join4(
                "failed to serialize `",
                resource_type.as_str(),
                "` to RON: ",
                message.as_str(),
            ),
            SaveError::Deserialize(m) => join2("failed to deserialize from RON: ", m.as_str()),
            SaveError::LocationUnavailable(r) => join2("could not resolve save location: ", r.as_str()),
            SaveError::InvalidSubPath(p) => join3(
                "sub path `",
                p.as_str(),
                "` must be relative (no root or drive prefix)",
            ),
            SaveError::ResourceMissing(t) => join3(
                "resource `",
                t.as_str(),
                "` was not found in the world",
            ),
            SaveError::InvalidUtf8(m) => join2("saved file is not valid UTF-8: ", m.as_str()),
            SaveError::GroupMemberDeserialize(m) => join2("failed to deserialize group member from RON: ", m.as_str()),
            SaveError::UnknownGroup(g) => join2("unknown save group: ", g.as_str()),
            SaveError::Internal(m) => join2("internal error: ", m.as_str()),
        }
    }

    /// The error that a failed read or write of `path` is reported as.
    pub fn io(path: &String, failure: &IoFailure) -> (e: SaveError)
        ensures
            e == (SaveError::Io { path: *path, kind: failure.kind, message: failure.message }),
    {
        SaveError::Io { path: path.clone(), kind: failure.kind, message: failure.message.clone() }
    }
}

} // verus!
