//! Jellyfin API reply types, holding only the fields the exporter reads.
//!
//! The HTTP client that fetches and decodes them lives with the I/O code;
//! these types are what the verified collection logic consumes.

use vstd::prelude::*;

verus! {

/// A client session (`/Sessions`).
#[derive(Clone, Debug)]
pub struct Session {
    pub user_name: Option<String>,
    pub client: Option<String>,
    pub device_name: Option<String>,
    pub now_playing_item: Option<NowPlayingItem>,
    pub play_state: Option<PlayState>,
    pub transcoding_info: Option<TranscodingInfo>,
    /// IPv4/IPv6 address the client connects from. Exposed as a metric label
    /// only when the operator opts in.
    pub remote_end_point: Option<String>,
}

/// The item a session is playing.
#[derive(Clone, Debug)]
pub struct NowPlayingItem {
    pub name: Option<String>,
    /// The item's `Type` (`Movie`, `Episode`, ...).
    pub media_type: Option<String>,
    pub bitrate: Option<u64>,
    pub media_streams: Option<Vec<MediaStream>>,
}

/// One stream of a playing item.
#[derive(Clone, Copy, Debug)]
pub struct MediaStream {
    pub bit_rate: Option<u64>,
}

/// Playback state of a session.
#[derive(Clone, Debug)]
pub struct PlayState {
    pub play_method: Option<String>,
    pub is_paused: Option<bool>,
    /// Playback position in Jellyfin ticks (10,000,000 ticks per second).
    pub position_ticks: Option<i64>,
}

/// Transcoding details of a session.
#[derive(Clone, Debug)]
pub struct TranscodingInfo {
    pub bitrate: Option<u64>,
    /// The completion percentage, a floating-point number, carried as its
    /// IEEE-754 bit pattern (`f64::to_bits`) and passed through unchanged.
    pub completion_percentage_bits: Option<u64>,
    pub hardware_acceleration_type: Option<String>,
    pub video_codec: Option<String>,
    pub audio_codec: Option<String>,
    pub transcode_reasons: Option<Vec<String>>,
    pub is_video_direct: Option<bool>,
    pub is_audio_direct: Option<bool>,
}

/// A library (`/Library/VirtualFolders`).
#[derive(Clone, Debug)]
pub struct Library {
    pub name: String,
    pub collection_type: Option<String>,
    pub item_id: String,
}

/// Item counts by type (`/Items/Counts`).
#[derive(Clone, Copy, Debug)]
pub struct ItemCounts {
    pub movie_count: u64,
    pub series_count: u64,
    pub episode_count: u64,
    pub book_count: u64,
    pub song_count: u64,
    pub album_count: u64,
    pub artist_count: u64,
    pub trailer_count: u64,
    pub music_video_count: u64,
    pub box_set_count: u64,
    pub item_count: u64,
}

/// Server metadata (`/System/Info`).
#[derive(Clone, Debug)]
pub struct SystemInfo {
    pub server_name: String,
    pub version: String,
    pub operating_system: String,
}

/// Why an API call failed.
#[derive(Clone, Debug)]
pub enum ClientError {
    /// The HTTP request failed or the server answered with an error status;
    /// the text describes the failure.
    Http(String),
    /// The request timed out.
    Timeout,
    /// The reply (or the API key header) could not be processed.
    Deserialization(String),
}

impl ClientError {
    /// The error's display text.
    pub fn message(&self) -> (m: String)
        ensures
            m@ == match *self {
                ClientError::Http(detail) => "HTTP request failed: "@ + detail@,
                ClientError::Timeout => "request timed out"@,
                ClientError::Deserialization(detail) => "deserialization failed: "@ + detail@,
            },
    {
        match self {
            ClientError::Http(detail) => {
                let mut text = "HTTP request failed: ".to_owned();
                text.append(detail.as_str());
                text
            },
            ClientError::Timeout => "request timed out".to_owned(),
            ClientError::Deserialization(detail) => {
                let mut text = "deserialization failed: ".to_owned();
                text.append(detail.as_str());
                text
            },
        }
    }
}

/// The full URL of an API path: the base URL followed by the path.
pub open spec fn url_text(base_url: Seq<char>, path: Seq<char>) -> Seq<char> {
    base_url + path
}

/// The URL of an API path on the server at `base_url`.
pub fn request_url(base_url: &str, path: &str) -> (u: String)
    ensures
        u@ == url_text(base_url@, path@),
{
    let mut u = base_url.to_owned();
    u.append(path);
    u
}

/// The query that counts the items under a library, recursively, without
/// returning any of them.
pub open spec fn item_count_path_text(parent_id: Seq<char>) -> Seq<char> {
    "/Items?ParentId="@ + parent_id + "&Recursive=true&Limit=0&Fields=BasicSyncInfo"@
}

/// The path of the item-count query for the library `parent_id`.
pub fn library_item_count_path(parent_id: &str) -> (p: String)
    ensures
        p@ == item_count_path_text(parent_id@),
{
    let mut p = "/Items?ParentId=".to_owned();
    p.append(parent_id);
    p.append("&Recursive=true&Limit=0&Fields=BasicSyncInfo");
    p
}

impl ClientError {
    /// The error for a request that could not be sent or completed: a
    /// timeout, or an HTTP failure described by `detail`.
    pub fn send_failure(timed_out: bool, detail: String) -> (e: ClientError)
        ensures
            e == (if timed_out {
                ClientError::Timeout
            } else {
                ClientError::Http(detail)
            }),
    {
        if timed_out {
            ClientError::Timeout
        } else {
            ClientError::Http(detail)
        }
    }

    /// The error for a reply from `path` whose body could not be decoded.
    pub fn parse_failure(path: &str, detail: &str) -> (e: ClientError)
        ensures
            e matches ClientError::Deserialization(m) && m@ == "failed to parse response from "@
                + path@ + ": "@ + detail@,
    {
        let mut m = "failed to parse response from ".to_owned();
        m.append(path);
        m.append(": ");
        m.append(detail);
        ClientError::Deserialization(m)
    }

    /// The error for an API key that cannot be sent as a header value.
    pub fn invalid_api_key(detail: &str) -> (e: ClientError)
        ensures
            e matches ClientError::Deserialization(m) && m@ == "invalid API key header: "@
                + detail@,
    {
        let mut m = "invalid API key header: ".to_owned();
        m.append(detail);
        ClientError::Deserialization(m)
    }
}

/// A character that a header value may hold: every byte of its UTF-8
/// encoding is a tab, or at least 32 and not 127 (any non-ASCII character
/// qualifies, its bytes being at least 128).
pub open spec fn header_char_ok(c: char) -> bool {
    c == '\t' || (c as u32 >= 32 && c as u32 != 127)
}

pub open spec fn valid_header_text(s: Seq<char>) -> bool {
    forall|i: int| 0 <= i < s.len() ==> header_char_ok(#[trigger] s[i])
}

/// Calls `reqwest::header::HeaderValue::from_str` (the `http` crate's) and
/// tells whether it accepted the text. Per that crate's source, it rejects a
/// text exactly when one of its bytes is below 32 other than a tab, or is 127.
#[verifier::external_body]
fn header_value_accepts(text: &str) -> (ok: bool)
    ensures
        ok == valid_header_text(text@),
{
    reqwest::header::HeaderValue::from_str(text).is_ok()
}

/// Check that the API key can be sent as a header value; the error is the
/// one the client reports when it cannot.
pub fn check_api_key(api_key: &str) -> (r: Result<(), ClientError>)
    ensures
        r is Ok <==> valid_header_text(api_key@),
        r matches Err(e) ==> e matches ClientError::Deserialization(m) && m@
            == "invalid API key header: failed to parse header value"@,
{
    if header_value_accepts(api_key) {
        Ok(())
    } else {
        let e = ClientError::invalid_api_key("failed to parse header value");
        proof {
            reveal_strlit("invalid API key header: ");
            reveal_strlit("failed to parse header value");
            reveal_strlit("invalid API key header: failed to parse header value");
            assert("invalid API key header: "@ + "failed to parse header value"@
                =~= "invalid API key header: failed to parse header value"@);
        }
        Err(e)
    }
}

} // verus!
