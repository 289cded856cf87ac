//! The single-table download list: one row per download, keyed by its gid.

use vstd::prelude::*;

verus! {

/// Creates the download list and its status index; safe to run on every start.
pub const CREATE_DOWNLOADS_TABLE: &'static str = r#"
CREATE TABLE IF NOT EXISTS downloads (
    gid TEXT PRIMARY KEY,
    status TEXT NOT NULL DEFAULT 'waiting',
    uris TEXT NOT NULL,
    total_length INTEGER DEFAULT 0,
    completed_length INTEGER DEFAULT 0,
    download_speed INTEGER DEFAULT 0,
    download_dir TEXT,
    filename TEXT,
    connections INTEGER DEFAULT 16,
    split INTEGER DEFAULT 5,
    created_at DATETIME DEFAULT CURRENT_TIMESTAMP,
    updated_at DATETIME DEFAULT CURRENT_TIMESTAMP
);
CREATE INDEX IF NOT EXISTS idx_downloads_status ON downloads(status);
"#;

/// The text that `serde_json::to_string` writes for a list of strings.
pub uninterp spec fn json_list_text(items: Seq<Seq<char>>) -> Seq<char>;

pub open spec fn string_views(v: Seq<String>) -> Seq<Seq<char>> {
    v.map_values(|s: String| s@)
}

/// Relies on `serde_json::to_string` for a `Vec<String>`: the JSON array of
/// the strings, written into a `Vec<u8>`, which cannot fail.
#[verifier::external_body]
fn json_list(items: &Vec<String>) -> (r: Result<String, serde_json::Error>)
    ensures
        r is Ok,
        r matches Ok(t) ==> t@ == json_list_text(string_views(items@)),
{
    serde_json::to_string(items)
}

/// One row of the download list.
#[derive(Clone, Debug)]
pub struct Download {
    pub gid: String,
    pub status: String,
    /// The source URIs as a JSON array.
    pub uris: String,
    pub total_length: i64,
    pub completed_length: i64,
    pub download_speed: i64,
    pub download_dir: Option<String>,
    pub filename: Option<String>,
    pub connections: i32,
    pub split: i32,
    pub created_at: String,
    pub updated_at: String,
}

/// The text stored for an optional column: the value, or empty where absent.
pub open spec fn or_empty(v: Option<&str>) -> Seq<char> {
    match v {
        Some(s) => s@,
        None => Seq::empty(),
    }
}

fn or_empty_exec(v: Option<&str>) -> (r: String)
    ensures
        r@ == or_empty(v),
{
    match v {
        Some(s) => String::from_str(s),
        None => String::new(),
    }
}

/// The values of a new row, in column order: gid, URIs as a JSON array,
/// directory and file name (empty where absent).
pub fn download_insert_params(
    gid: &str,
    uris: &Vec<String>,
    download_dir: Option<&str>,
    filename: Option<&str>,
) -> (r: Result<Vec<String>, serde_json::Error>)
    ensures
        r is Ok,
        r matches Ok(p) ==> p@.len() == 4 && p@[0]@ == gid@ && p@[1]@ == json_list_text(
            string_views(uris@),
        ) && p@[2]@ == or_empty(download_dir) && p@[3]@ == or_empty(filename),
{
    let uris_json = match json_list(uris) {
        Ok(t) => t,
        Err(e) => {
            return Err(e);
        },
    };
    let mut p: Vec<String> = Vec::new();
    p.push(String::from_str(gid));
    p.push(uris_json);
    p.push(or_empty_exec(download_dir));
    p.push(or_empty_exec(filename));
    Ok(p)
}

} // verus!
