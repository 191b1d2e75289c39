//! What goes over the wire to the protocol server: addresses, the numbering
//! of pre-key bundles, and the document that publishes one.
use vstd::prelude::*;
use vstd::string::*;
use crate::encoding::{
    base64_encode, base64_text, decimal, decimal_text, json_quote, json_string, url_quote,
    url_segment,
};

verus! {

/// Number of one-time bundles published in one replenishment.
pub const BUNDLE_BATCH: u32 = 5;

/// The identifier of the signed pre-key that every bundle carries.
pub const SIGNED_PRE_KEY_ID: u32 = 1;

/// Milliseconds between the first change and the sync that persists it.
pub const SYNC_DELAY_MS: u32 = 3000;

/// The server that is used where none is configured.
pub open spec fn default_basepath() -> Seq<char> {
    "http://localhost:5000"@
}

/// The base address in use: the one given with the call, else the
/// configured one, else the default.
pub open spec fn spec_resolve_basepath(
    given: Option<Seq<char>>,
    configured: Option<Seq<char>>,
) -> Seq<char> {
    match given {
        Some(path) => path,
        None => match configured {
            Some(path) => path,
            None => default_basepath(),
        },
    }
}

/// Picks the base address of the protocol server.
pub fn resolve_basepath(given: Option<String>, configured: Option<String>) -> (r: String)
    ensures
        r@ == spec_resolve_basepath(
            match given {
                Some(path) => Some(path@),
                None => None,
            },
            match configured {
                Some(path) => Some(path@),
                None => None,
            },
        ),
{
    match given {
        Some(path) => path,
        None => match configured {
            Some(path) => path,
            None => String::from_str("http://localhost:5000"),
        },
    }
}

/// The identifier that the next published bundle gets, given the highest
/// identifier the server knows: one past it, or 1 when it knows none.
pub open spec fn next_bundle_id(last: Option<u32>) -> int {
    match last {
        Some(id) => id + 1,
        None => 1,
    }
}

/// The first identifier of a batch, where the whole batch fits below the
/// largest identifier.
pub open spec fn spec_first_bundle_id(last: Option<u32>) -> Option<u32> {
    if next_bundle_id(last) + BUNDLE_BATCH - 1 <= u32::MAX {
        Some(next_bundle_id(last) as u32)
    } else {
        None
    }
}

/// The first identifier of the next batch of bundles.
pub fn first_bundle_id(last: Option<u32>) -> (r: Option<u32>)
    ensures
        r == spec_first_bundle_id(last),
{
    match last {
        Some(id) => if id <= u32::MAX - BUNDLE_BATCH {
            Some(id + 1)
        } else {
            None
        },
        None => Some(1),
    }
}

/// Where bundles are published and the last identifier is asked for.
pub open spec fn bundles_url(basepath: Seq<char>) -> Seq<char> {
    basepath + "/protocol/bundles"@
}

/// Where a peer's next unused bundle identifier is asked for. The peer's
/// name is one segment of the path, whatever characters it holds.
pub open spec fn peer_bundles_url(basepath: Seq<char>, peer: Seq<char>) -> Seq<char> {
    basepath + "/protocol/bundles/"@ + url_segment(peer)
}

/// Where one bundle of a peer is fetched and deleted.
pub open spec fn peer_bundle_url(basepath: Seq<char>, peer: Seq<char>, bundle_id: u32) -> Seq<
    char,
> {
    basepath + "/protocol/bundles/"@ + url_segment(peer) + "/"@ + decimal_text(bundle_id as nat)
}

/// The document that publishes a bundle: its identifier as a number and
/// its bytes, in Base64, as a JSON string.
pub open spec fn bundle_payload(bundle_id: u32, bundle: Seq<u8>) -> Seq<char> {
    "{\"bundle_id\": "@ + decimal_text(bundle_id as nat) + ", \"bundle\": "@ + json_string(
        base64_text(bundle),
    ) + " }"@
}

/// The address of the bundle collection.
pub fn make_bundles_url(basepath: &str) -> (r: String)
    ensures
        r@ == bundles_url(basepath@),
{
    let mut r = String::from_str(basepath);
    r.append("/protocol/bundles");
    r
}

/// The address of a peer's bundles.
pub fn make_peer_bundles_url(basepath: &str, peer: &str) -> (r: String)
    ensures
        r@ == peer_bundles_url(basepath@, peer@),
{
    let mut r = String::from_str(basepath);
    r.append("/protocol/bundles/");
    r.append(url_quote(peer).as_str());
    r
}

/// The address of one bundle of a peer.
pub fn make_peer_bundle_url(basepath: &str, peer: &str, bundle_id: u32) -> (r: String)
    ensures
        r@ == peer_bundle_url(basepath@, peer@, bundle_id),
{
    let mut r = make_peer_bundles_url(basepath, peer);
    r.append("/");
    r.append(decimal(bundle_id).as_str());
    r
}

/// The document that publishes a serialized bundle under an identifier.
pub fn make_bundle_payload(bundle_id: u32, bundle: &[u8]) -> (r: String)
    ensures
        r@ == bundle_payload(bundle_id, bundle@),
{
    let mut r = String::from_str("{\"bundle_id\": ");
    r.append(decimal(bundle_id).as_str());
    r.append(", \"bundle\": ");
    r.append(json_quote(base64_encode(bundle).as_str()).as_str());
    r.append(" }");
    r
}

} // verus!
