use vstd::prelude::*;

use crate::error::{IoErrorKind, IoFailure, SaveError};
use crate::group::MemberSnapshot;
use crate::ron_codec::{string_from_utf8, utf8_error_text};

verus! {

/// What to do with a resource after an attempt to load it.
#[derive(Debug, Clone, PartialEq, Eq)]
pub enum LoadAction {
    /// Put the value that was read into the world.
    InsertLoaded,
    /// Leave the world as the load left it.
    Keep,
    /// Put the resource's default value into the world.
    InsertDefault,
    /// Put the default value into the world and report the error as a `LoadFailed` message.
    InsertDefaultAndReport(SaveError),
}

/// How one group member's stored value fared when it was read back into its type.
#[derive(Debug, Clone, PartialEq, Eq)]
pub enum MemberDecode {
    /// The group file has no entry for the member.
    Absent,
    /// The stored value was read into the member's type.
    Decoded,
    /// The stored value could not be read into the member's type; the message says why.
    Undecodable(String),
}

/// The text of a resource to be written to its save file: a missing resource and
/// one that cannot be written as RON are errors.
pub fn resource_text(resource_type: &String, snapshot: MemberSnapshot) -> (r: Result<String, SaveError>)
    ensures
        snapshot is Missing ==> r == Err::<String, SaveError>(SaveError::ResourceMissing(*resource_type)),
        snapshot matches MemberSnapshot::Unwritable(m) ==> r == Err::<String, SaveError>(
            SaveError::Serialize { resource_type: *resource_type, message: m },
        ),
        snapshot matches MemberSnapshot::Written(t) ==> r == Ok::<String, SaveError>(t),
{
    match snapshot {
        MemberSnapshot::Missing => Err(SaveError::ResourceMissing(resource_type.clone())),
        MemberSnapshot::Unwritable(m) => Err(
            SaveError::Serialize { resource_type: resource_type.clone(), message: m },
        ),
        MemberSnapshot::Written(t) => Ok(t),
    }
}

/// The text of a resource's save file, or `None` when the file does not exist.
/// Any other failure to read it, and bytes that are not UTF-8, are errors.
pub fn read_save_text(path: &String, read: Result<Vec<u8>, IoFailure>) -> (r: Result<Option<String>, SaveError>)
    ensures
        read matches Err(f) ==> (f.kind == IoErrorKind::NotFound ==> r == Ok::<Option<String>, SaveError>(None)),
        read matches Err(f) ==> (f.kind != IoErrorKind::NotFound ==> r == Err::<Option<String>, SaveError>(
            SaveError::Io { path: *path, kind: f.kind, message: f.message },
        )),
        read matches Ok(bytes) ==> (!vstd::utf8::valid_utf8(bytes@) ==> r matches Err(SaveError::InvalidUtf8(_))),
        read matches Ok(bytes) ==> (vstd::utf8::valid_utf8(bytes@) ==> (r matches Ok(Some(t)) && t@
            == vstd::utf8::decode_utf8(bytes@))),
{
    match read {
        Err(f) => {
            if f.kind == IoErrorKind::NotFound {
                Ok(None)
            } else {
                Err(SaveError::io(path, &f))
            }
        },
        Ok(bytes) => match string_from_utf8(bytes) {
            Ok(text) => Ok(Some(text)),
            Err(e) => Err(SaveError::InvalidUtf8(utf8_error_text(&e))),
        },
    }
}

/// What registering a resource does after trying to load it: a value that was
/// loaded stays, a missing file gives the default, and a failed load gives the
/// default and reports the error.
pub fn fallback_action(loaded: Result<bool, SaveError>) -> (a: LoadAction)
    ensures
        loaded == Ok::<bool, SaveError>(true) ==> a == LoadAction::Keep,
        loaded == Ok::<bool, SaveError>(false) ==> a == LoadAction::InsertDefault,
        loaded matches Err(e) ==> a == LoadAction::InsertDefaultAndReport(e),
{
    match loaded {
        Ok(true) => LoadAction::Keep,
        Ok(false) => LoadAction::InsertDefault,
        Err(e) => LoadAction::InsertDefaultAndReport(e),
    }
}

/// What loading a group does with one member: a stored value that reads back is
/// inserted; a missing entry gives the default; an entry that does not read back
/// gives the default and is reported.
pub fn member_action(decode: MemberDecode) -> (a: LoadAction)
    ensures
        decode is Absent ==> a == LoadAction::InsertDefault,
        decode is Decoded ==> a == LoadAction::InsertLoaded,
        decode matches MemberDecode::Undecodable(m) ==> a == LoadAction::InsertDefaultAndReport(
            SaveError::GroupMemberDeserialize(m),
        ),
{
    match decode {
        MemberDecode::Absent => LoadAction::InsertDefault,
        MemberDecode::Decoded => LoadAction::InsertLoaded,
        MemberDecode::Undecodable(m) => LoadAction::InsertDefaultAndReport(SaveError::GroupMemberDeserialize(m)),
    }
}

} // verus!
