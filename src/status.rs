//! Download status and its stored text.
//!
//! A status without data is stored as a JSON string of its name
//! (`"Waiting"`, quotes included); a failure as the JSON object
//! `{"Failed":<reason as a JSON string>}`. Decoding accepts exactly these
//! shapes and reports anything else as unrecognised.

use vstd::prelude::*;

verus! {

/// The text that `serde_json::to_string` writes for a string.
pub uninterp spec fn json_string_text(s: Seq<char>) -> Seq<char>;

/// The string that `serde_json::from_str` reads from a text, if any.
pub uninterp spec fn json_string_value(t: Seq<char>) -> Option<Seq<char>>;

/// Relies on `serde_json::to_string` for a `&str`: the JSON text of the
/// string, which `serde_json::from_str` reads back as the same string. A
/// string is written into a `Vec<u8>`, which cannot fail.
#[verifier::external_body]
fn json_string(s: &str) -> (r: Result<String, serde_json::Error>)
    ensures
        r is Ok,
        r matches Ok(t) ==> t@ == json_string_text(s@) && json_string_value(t@) == Some(s@),
{
    serde_json::to_string(s)
}

/// Relies on `serde_json::from_str::<String>`: reads a JSON string literal.
#[verifier::external_body]
fn parse_json_string(t: &str) -> (r: Option<String>)
    ensures
        r matches Some(v) ==> json_string_value(t@) == Some(v@),
        r is None ==> json_string_value(t@) is None,
{
    match serde_json::from_str::<String>(t) {
        Ok(v) => Some(v),
        Err(_) => None,
    }
}

/// The state of a download.
#[derive(Clone, Debug, PartialEq, Eq)]
pub enum DownloadStatus {
    Waiting,
    Active,
    Paused,
    Completed,
    Failed(String),
    Cancelled,
}

/// The mathematical value of a status.
pub enum StatusView {
    Waiting,
    Active,
    Paused,
    Completed,
    Failed(Seq<char>),
    Cancelled,
}

impl View for DownloadStatus {
    type V = StatusView;

    open spec fn view(&self) -> StatusView {
        match self {
            DownloadStatus::Waiting => StatusView::Waiting,
            DownloadStatus::Active => StatusView::Active,
            DownloadStatus::Paused => StatusView::Paused,
            DownloadStatus::Completed => StatusView::Completed,
            DownloadStatus::Failed(r) => StatusView::Failed(r@),
            DownloadStatus::Cancelled => StatusView::Cancelled,
        }
    }
}

pub open spec fn failed_open() -> Seq<char> {
    "{\"Failed\":"@
}

pub open spec fn failed_close() -> Seq<char> {
    "}"@
}

/// The stored text of a status.
pub open spec fn status_text(s: StatusView) -> Seq<char> {
    match s {
        StatusView::Waiting => "\"Waiting\""@,
        StatusView::Active => "\"Active\""@,
        StatusView::Paused => "\"Paused\""@,
        StatusView::Completed => "\"Completed\""@,
        StatusView::Failed(r) => failed_open() + json_string_text(r) + failed_close(),
        StatusView::Cancelled => "\"Cancelled\""@,
    }
}

/// Whether `t` is framed as a failure: the opening, something, the closing brace.
pub open spec fn is_failed_frame(t: Seq<char>) -> bool {
    t.len() >= 11 && t.subrange(0, 10) == failed_open() && t.last() == '}'
}

/// The status that a stored text stands for, if any.
pub open spec fn status_of_text(t: Seq<char>) -> Option<StatusView> {
    if t == "\"Waiting\""@ {
        Some(StatusView::Waiting)
    } else if t == "\"Active\""@ {
        Some(StatusView::Active)
    } else if t == "\"Paused\""@ {
        Some(StatusView::Paused)
    } else if t == "\"Completed\""@ {
        Some(StatusView::Completed)
    } else if t == "\"Cancelled\""@ {
        Some(StatusView::Cancelled)
    } else if is_failed_frame(t) {
        match json_string_value(t.subrange(10, t.len() - 1)) {
            Some(r) => Some(StatusView::Failed(r)),
            None => None,
        }
    } else {
        None
    }
}

/// A status without data reads back from its text.
pub proof fn lemma_plain_status_round_trip(s: StatusView)
    requires
        !(s is Failed),
    ensures
        status_of_text(status_text(s)) == Some(s),
{
    reveal_strlit("\"Waiting\"");
    reveal_strlit("\"Active\"");
    reveal_strlit("\"Paused\"");
    reveal_strlit("\"Completed\"");
    reveal_strlit("\"Cancelled\"");
    let w = "\"Waiting\""@;
    let a = "\"Active\""@;
    let p = "\"Paused\""@;
    let c = "\"Completed\""@;
    let x = "\"Cancelled\""@;
    assert(a[1] != w[1] && p[1] != w[1] && p[1] != a[1] && c[1] != w[1] && c[1] != a[1]);
    assert(c[1] != p[1] && x[1] != w[1] && x[1] != a[1] && x[1] != p[1] && x[2] != c[2]);
}

/// A failure reads back from its text wherever the JSON text of the reason
/// reads back as the reason.
pub proof fn lemma_failed_round_trip(r: Seq<char>)
    requires
        json_string_value(json_string_text(r)) == Some(r),
    ensures
        status_of_text(status_text(StatusView::Failed(r))) == Some(StatusView::Failed(r)),
{
    reveal_strlit("\"Waiting\"");
    reveal_strlit("\"Active\"");
    reveal_strlit("\"Paused\"");
    reveal_strlit("\"Completed\"");
    reveal_strlit("\"Cancelled\"");
    reveal_strlit("{\"Failed\":");
    reveal_strlit("}");
    let j = json_string_text(r);
    let t = failed_open() + j + failed_close();
    assert(t[0] == '{');
    assert(t.subrange(0, 10) =~= failed_open());
    assert(t.subrange(10, t.len() - 1) =~= j);
    assert(t != "\"Waiting\""@ && t != "\"Active\""@ && t != "\"Paused\""@);
    assert(t != "\"Completed\""@ && t != "\"Cancelled\""@);
}

/// Frames the JSON text of a failure reason as a stored failure.
pub fn frame_failed(reason_json: &str) -> (r: String)
    ensures
        r@ == failed_open() + reason_json@ + failed_close(),
{
    let mut out = String::from_str("{\"Failed\":");
    out.append(reason_json);
    out.append("}");
    out
}

impl DownloadStatus {
    /// Status equality, by value.
    pub fn same_as(&self, other: &DownloadStatus) -> (r: bool)
        ensures
            r == (self@ == other@),
    {
        match self {
            DownloadStatus::Waiting => match other {
                DownloadStatus::Waiting => true,
                _ => false,
            },
            DownloadStatus::Active => match other {
                DownloadStatus::Active => true,
                _ => false,
            },
            DownloadStatus::Paused => match other {
                DownloadStatus::Paused => true,
                _ => false,
            },
            DownloadStatus::Completed => match other {
                DownloadStatus::Completed => true,
                _ => false,
            },
            DownloadStatus::Failed(a) => match other {
                DownloadStatus::Failed(b) => *a == *b,
                _ => false,
            },
            DownloadStatus::Cancelled => match other {
                DownloadStatus::Cancelled => true,
                _ => false,
            },
        }
    }

    /// A copy with the same value.
    pub fn duplicate(&self) -> (r: DownloadStatus)
        ensures
            r@ == self@,
    {
        match self {
            DownloadStatus::Waiting => DownloadStatus::Waiting,
            DownloadStatus::Active => DownloadStatus::Active,
            DownloadStatus::Paused => DownloadStatus::Paused,
            DownloadStatus::Completed => DownloadStatus::Completed,
            DownloadStatus::Failed(reason) => DownloadStatus::Failed(reason.clone()),
            DownloadStatus::Cancelled => DownloadStatus::Cancelled,
        }
    }

    /// The stored text of the status, which reads back as the status.
    pub fn to_text(&self) -> (r: Result<String, serde_json::Error>)
        ensures
            r matches Ok(t) && t@ == status_text(self@) && status_of_text(t@) == Some(self@),
    {
        match self {
            DownloadStatus::Failed(reason) => {
                match json_string(reason.as_str()) {
                    Ok(j) => {
                        proof {
                            lemma_failed_round_trip(reason@);
                        }
                        Ok(frame_failed(j.as_str()))
                    },
                    Err(e) => Err(e),
                }
            },
            _ => {
                proof {
                    lemma_plain_status_round_trip(self@);
                }
                let t = match self {
                    DownloadStatus::Waiting => String::from_str("\"Waiting\""),
                    DownloadStatus::Active => String::from_str("\"Active\""),
                    DownloadStatus::Paused => String::from_str("\"Paused\""),
                    DownloadStatus::Completed => String::from_str("\"Completed\""),
                    _ => String::from_str("\"Cancelled\""),
                };
                Ok(t)
            },
        }
    }

    /// The status that a stored text stands for; `None` where the text is not
    /// one that `to_text` writes.
    pub fn from_text(t: &str) -> (r: Option<DownloadStatus>)
        ensures
            r matches Some(s) ==> status_of_text(t@) == Some(s@),
            r is None ==> status_of_text(t@) is None,
    {
        let owned = String::from_str(t);
        if owned == String::from_str("\"Waiting\"") {
            Some(DownloadStatus::Waiting)
        } else if owned == String::from_str("\"Active\"") {
            Some(DownloadStatus::Active)
        } else if owned == String::from_str("\"Paused\"") {
            Some(DownloadStatus::Paused)
        } else if owned == String::from_str("\"Completed\"") {
            Some(DownloadStatus::Completed)
        } else if owned == String::from_str("\"Cancelled\"") {
            Some(DownloadStatus::Cancelled)
        } else {
            let n = t.unicode_len();
            if n < 11 {
                return None;
            }
            let head = String::from_str(t.substring_char(0, 10));
            if !(head == String::from_str("{\"Failed\":")) || t.get_char(n - 1) != '}' {
                return None;
            }
            match parse_json_string(t.substring_char(10, n - 1)) {
                Some(reason) => Some(DownloadStatus::Failed(reason)),
                None => None,
            }
        }
    }
}

} // verus!
