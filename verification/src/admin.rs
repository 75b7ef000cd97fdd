//! Small rules of the administrative commands: which fields a
//! reconfiguration touches, and how the times of a stream are shown.

use vstd::prelude::*;
use vstd::string::StringExecFns;

verus! {

/// Path of the storage class among the fields of a stream's configuration.
pub const STREAM_STORAGE_CLASS: &'static str = "storage_class";

/// Path of the retention policy among the fields of a stream's configuration.
pub const STREAM_RETENTION_POLICY: &'static str = "retention_policy";

/// Path of the storage class among the fields of a basin's configuration.
pub const STORAGE_CLASS_PATH: &'static str = "default_stream_config.storage_class";

/// Path of the retention policy among the fields of a basin's configuration.
pub const RETENTION_POLICY_PATH: &'static str = "default_stream_config.retention_policy";

/// The texts of a vector of strings.
pub open spec fn texts(paths: Seq<String>) -> Seq<Seq<char>> {
    paths.map_values(|p: String| p@)
}

/// The paths to name in an update: the first where `first_set`, then the
/// second where `second_set`.
pub open spec fn mask_of(
    first: Seq<char>,
    first_set: bool,
    second: Seq<char>,
    second_set: bool,
) -> Seq<Seq<char>> {
    (if first_set {
        seq![first]
    } else {
        Seq::empty()
    }) + (if second_set {
        seq![second]
    } else {
        Seq::empty()
    })
}

fn mask(first: &str, first_set: bool, second: &str, second_set: bool) -> (paths: Vec<String>)
    ensures
        texts(paths@) == mask_of(first@, first_set, second@, second_set),
{
    let mut paths: Vec<String> = Vec::new();
    if first_set {
        paths.push(String::from_str(first));
    }
    if second_set {
        paths.push(String::from_str(second));
    }
    assert(texts(paths@) =~= mask_of(first@, first_set, second@, second_set));
    paths
}

/// The fields that a reconfiguration of a stream touches: the storage class
/// and the retention policy, each only where a new value was given.
pub fn stream_update_mask(storage_class: bool, retention_policy: bool) -> (paths: Vec<String>)
    ensures
        texts(paths@) == mask_of(
            STREAM_STORAGE_CLASS@,
            storage_class,
            STREAM_RETENTION_POLICY@,
            retention_policy,
        ),
{
    mask(STREAM_STORAGE_CLASS, storage_class, STREAM_RETENTION_POLICY, retention_policy)
}

/// The fields that a reconfiguration of a basin touches: the storage class and
/// the retention policy of its default stream configuration, each only where a
/// new value was given.
pub fn basin_update_mask(storage_class: bool, retention_policy: bool) -> (paths: Vec<String>)
    ensures
        texts(paths@) == mask_of(
            STORAGE_CLASS_PATH@,
            storage_class,
            RETENTION_POLICY_PATH@,
            retention_policy,
        ),
{
    mask(STORAGE_CLASS_PATH, storage_class, RETENTION_POLICY_PATH, retention_policy)
}

/// The text that `humantime::format_rfc3339_seconds` gives for the instant
/// `seconds` after the start of 1970, in UTC.
pub uninterp spec fn rfc3339_seconds_text(seconds: u32) -> Seq<char>;

/// An instant, given in seconds since the start of 1970, as an RFC 3339
/// timestamp without a fraction, in UTC.
///
/// Calls `humantime::format_rfc3339_seconds` and takes the text that the
/// result displays as. The text depends on the instant alone: the function
/// ignores the time zone of the machine. It fails only from the year 9999 on,
/// which thirty-two bits of seconds do not reach.
#[verifier::external_body]
fn rfc3339_seconds(seconds: u32) -> (text: String)
    ensures
        text@ == rfc3339_seconds_text(seconds),
{
    let at = std::time::UNIX_EPOCH + std::time::Duration::from_secs(u64::from(seconds));
    humantime::format_rfc3339_seconds(at).to_string()
}

/// The times of a stream as they are listed: when it was created, and when it
/// was deleted, which is empty for a stream that still exists.
pub fn stream_times(created_at: u32, deleted_at: Option<u32>) -> (times: (String, String))
    ensures
        times.0@ == rfc3339_seconds_text(created_at),
        times.1@ == (match deleted_at {
            Some(at) => rfc3339_seconds_text(at),
            None => Seq::empty(),
        }),
{
    let created = rfc3339_seconds(created_at);
    let deleted = match deleted_at {
        Some(at) => rfc3339_seconds(at),
        None => String::new(),
    };
    (created, deleted)
}

} // verus!
