//! The catalog model: what the remote API says of a channel's emotes, and how a
//! fetch of it is classified.
use vstd::prelude::*;
use vstd::string::*;

verus! {

/// The address of the catalog endpoint for one channel.
pub const CATALOG_BASE: &'static str = "https://7tv.io/v3/users/twitch/";

/// The client signature sent with every request.
pub const USER_AGENT: &'static str = "MojifyApp/0.1";

/// The most characters of a malformed payload kept for diagnosis.
pub const SNIPPET_LIMIT: usize = 1000;

/// One file variant that the catalog offers for an emote.
pub struct FileVariant {
    pub name: String,
    pub format: String,
    pub width: u32,
    pub height: u32,
    pub frame_count: u32,
    pub size: u64,
}

/// One emote of a channel's emote set.
pub struct CatalogEntry {
    pub id: String,
    pub name: String,
    /// The host's base address, often protocol-relative (`//cdn...`).
    pub host_url: String,
    pub files: Vec<FileVariant>,
}

/// Why the catalog of a channel could not be had.
#[derive(Debug, PartialEq, Eq)]
pub enum FetchError {
    /// The API answered with a status outside 200..=299.
    HttpStatus(u16),
    /// The request did not complete (connection, timeout, body read).
    Transport(String),
    /// The body did not have the expected shape; `snippet` is its start.
    Malformed { reason: String, snippet: String },
}

/// The first `SNIPPET_LIMIT` characters of `raw`, or all of it when shorter.
pub open spec fn snippet_of(raw: Seq<char>) -> Seq<char> {
    if raw.len() <= SNIPPET_LIMIT {
        raw
    } else {
        raw.subrange(0, SNIPPET_LIMIT as int)
    }
}

/// Whether an HTTP status code reports success.
pub fn is_success_status(code: u16) -> (r: bool)
    ensures
        r == (200 <= code && code <= 299),
{
    200 <= code && code <= 299
}

/// The catalog address of `channel_id`.
pub fn catalog_url(channel_id: &str) -> (r: String)
    ensures
        r@ == CATALOG_BASE@ + channel_id@,
{
    let mut r = String::from_str(CATALOG_BASE);
    r.append(channel_id);
    r
}

/// The error for a payload that did not parse, keeping a bounded start of it.
pub fn malformed(reason: String, raw: &str) -> (r: FetchError)
    ensures
        r matches FetchError::Malformed { reason: m, snippet } && m@ == reason@ && snippet@
            == snippet_of(raw@),
{
    let n = raw.unicode_len();
    let end = if n <= SNIPPET_LIMIT {
        n
    } else {
        SNIPPET_LIMIT
    };
    let snippet = raw.substring_char(0, end).to_owned();
    assert(raw@.subrange(0, n as int) =~= raw@);
    FetchError::Malformed { reason, snippet }
}

} // verus!
