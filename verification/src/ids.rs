//! Fresh identifiers and the current time, the two inputs of app and
//! subspace creation that come from outside the configuration, and the
//! stable identifiers of per-subspace website data stores.
use vstd::prelude::*;

verus! {

/// A lowercase hexadecimal digit or a hyphen: the characters of a UUID in
/// its hyphenated form.
pub open spec fn is_uuid_char(c: char) -> bool {
    ('0' <= c && c <= '9') || ('a' <= c && c <= 'f') || c == '-'
}

/// `uuid::Uuid::new_v4().to_string()`: a random version-4 UUID, written in
/// the crate's hyphenated lowercase form (36 characters of lowercase hex
/// digits and hyphens). Which UUID comes back is chance; only its shape is
/// stated.
#[verifier::external_body]
pub(crate) fn new_uuid_v4() -> (r: String)
    ensures
        r@.len() == 36,
        forall|k: int| 0 <= k < r@.len() ==> is_uuid_char(#[trigger] r@[k]),
{
    uuid::Uuid::new_v4().to_string()
}

/// A fresh random identifier (tab ids, cache-busting file names): a new
/// version-4 UUID in hyphenated lowercase form.
pub fn fresh_id() -> (r: String)
    ensures
        r@.len() == 36,
        forall|k: int| 0 <= k < r@.len() ==> is_uuid_char(#[trigger] r@[k]),
{
    new_uuid_v4()
}

/// Whole seconds since the Unix epoch according to the system clock
/// (`SystemTime::now().duration_since(UNIX_EPOCH)`), or None when the clock
/// reads earlier than the epoch. The value depends on the clock; nothing is
/// stated of it.
#[verifier::external_body]
fn seconds_since_epoch() -> (r: Option<u64>) {
    std::time::SystemTime::now().duration_since(std::time::UNIX_EPOCH).ok().map(|d| d.as_secs())
}

/// The `created_at` value for a clock reading: the seconds since the epoch
/// cast to `i64` (wrapping as `as` does), or 0 when the clock read before
/// the epoch.
pub open spec fn created_at_of(secs: Option<u64>) -> i64 {
    match secs {
        Some(s) => s as i64,
        None => 0,
    }
}

/// Turns a clock reading into the `created_at` value it is stored as.
pub fn created_at_from(secs: Option<u64>) -> (r: i64)
    ensures
        r == created_at_of(secs),
{
    match secs {
        Some(s) => s as i64,
        None => 0,
    }
}

/// The current Unix time in seconds as stored in `created_at` (0 when the
/// clock reads before the epoch). The clock may read anything, so every
/// `i64` is a possible result and nothing more is stated of it; what is
/// done with the reading is `created_at_from`.
pub(crate) fn unix_now() -> (r: i64) {
    created_at_from(seconds_since_epoch())
}


/// What `uuid::Uuid::new_v5` gives, as its 16 bytes, for the namespace UUID
/// with bytes `namespace` and the UTF-8 bytes of `name`.
pub uninterp spec fn uuid_v5_bytes(namespace: Seq<u8>, name: Seq<char>) -> Seq<u8>;

/// `uuid::Uuid::new_v5` (SHA-1 name-based) over the UTF-8 bytes of `name`,
/// returned as bytes. Besides naming the result, the contract states what
/// makes it a version-5 UUID of the RFC 4122 variant: the version nibble is
/// 5 and the two top bits of byte 8 are `10`.
#[verifier::external_body]
fn new_uuid_v5(namespace: &[u8; 16], name: &str) -> (r: [u8; 16])
    ensures
        r@ == uuid_v5_bytes(namespace@, name@),
        r@[6] / 16 == 5,
        r@[8] / 64 == 2,
{
    *uuid::Uuid::new_v5(&uuid::Uuid::from_bytes(*namespace), name.as_bytes()).as_bytes()
}

/// The fixed namespace the data store identifiers are derived in.
pub open spec fn data_store_namespace() -> Seq<u8> {
    seq![0x9bu8, 0x1f, 0x5c, 0x9a, 0x9c, 0x0e, 0x4b, 0x4e, 0xa1, 0x0d, 0x9b, 0x5b, 0x86, 0x0e, 0x9a, 0x0a]
}

fn data_store_namespace_bytes() -> (r: [u8; 16])
    ensures
        r@ == data_store_namespace(),
{
    let r: [u8; 16] = [0x9b, 0x1f, 0x5c, 0x9a, 0x9c, 0x0e, 0x4b, 0x4e, 0xa1, 0x0d, 0x9b, 0x5b, 0x86, 0x0e, 0x9a, 0x0a];
    assert(r@ =~= data_store_namespace());
    r
}

/// The identifier of a subspace's website data store where the web view
/// isolates sessions by a 16-byte store id rather than by a folder: the
/// same app slug and session group always give the same store, across
/// restarts.
pub fn mac_data_store_id(data_slug: &str, session_group: &str) -> (r: [u8; 16])
    ensures
        r@ == uuid_v5_bytes(data_store_namespace(), data_slug@ + "/"@ + session_group@),
{
    let ns = data_store_namespace_bytes();
    let mut name = String::from_str(data_slug);
    name.append("/");
    name.append(session_group);
    new_uuid_v5(&ns, name.as_str())
}

} // verus!
