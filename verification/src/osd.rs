//! The on-screen display that confirms volume, brightness, power and media
//! changes.
use crate::text::{concat_str, decimal_digits, decimal_of, string_from_chars};
use vstd::prelude::*;

verus! {

pub const OSD_TIMEOUT_MS: u64 = 1600;

/// The kinds of change the on-screen display knows how to show.
pub open spec fn known_kind(kind: Seq<char>) -> bool {
    kind == "volume"@ || kind == "brightness"@ || kind == "power"@ || kind == "media"@
}

/// The level shown, at most 100.
pub open spec fn clamp_level(value: Option<u8>) -> Option<u8> {
    match value {
        Some(v) => Some(if v <= 100 { v } else { 100u8 }),
        None => None,
    }
}

/// What the on-screen display is asked to show.
#[derive(Clone, Debug)]
pub struct OsdPayload {
    pub kind: String,
    pub value: Option<u8>,
    pub detail: Option<String>,
}

/// The characters of an optional text, or none.
pub open spec fn text_or_empty(detail: Option<Seq<char>>) -> Seq<char> {
    match detail {
        Some(d) => d,
        None => Seq::empty(),
    }
}

/// The decimal digits of an optional level, or none.
pub open spec fn level_text(value: Option<u8>) -> Seq<char> {
    match value {
        Some(v) => decimal_digits(v as nat),
        None => Seq::empty(),
    }
}

/// `osd.html?kind=<kind>&value=<value>&detail=<detail>`.
pub open spec fn osd_url(kind: Seq<char>, value: Option<u8>, detail: Option<Seq<char>>) -> Seq<char> {
    "osd.html?kind="@ + kind + "&value="@ + level_text(value) + "&detail="@ + text_or_empty(detail)
}

pub open spec fn opt_str_view(o: Option<&str>) -> Option<Seq<char>> {
    match o {
        Some(s) => Some(s@),
        None => None,
    }
}

pub open spec fn opt_string_view(o: Option<String>) -> Option<Seq<char>> {
    match o {
        Some(s) => Some(s@),
        None => None,
    }
}

impl OsdPayload {
    /// A payload for a known kind of change, its level clamped to 100.
    pub fn new(kind: &str, value: Option<u8>, detail: Option<&str>) -> (r: Result<Self, String>)
        ensures
            !known_kind(kind@) ==> (r matches Err(e) && e@ == "unsupported OSD kind: "@ + kind@),
            known_kind(kind@) ==> (r matches Ok(p) && p.kind@ == kind@ && p.value == clamp_level(
                value,
            ) && opt_string_view(p.detail) == opt_str_view(detail)),
    {
        let k = String::from_str(kind);
        let volume = String::from_str("volume");
        let brightness = String::from_str("brightness");
        let power = String::from_str("power");
        let media = String::from_str("media");
        if !(k == volume || k == brightness || k == power || k == media) {
            return Err(concat_str("unsupported OSD kind: ", kind));
        }
        let level = match value {
            Some(v) => Some(if v <= 100 { v } else { 100u8 }),
            None => None,
        };
        let d = match detail {
            Some(s) => Some(String::from_str(s)),
            None => None,
        };
        Ok(OsdPayload { kind: k, value: level, detail: d })
    }

    /// The page that a freshly opened display loads, with the payload in its
    /// query.
    pub fn initial_url(&self) -> (r: String)
        ensures
            r@ == osd_url(self.kind@, self.value, opt_string_view(self.detail)),
    {
        let a = concat_str("osd.html?kind=", self.kind.as_str());
        let b = concat_str(a.as_str(), "&value=");
        let level = match self.value {
            Some(v) => {
                let digits = decimal_of(v as u64);
                string_from_chars(digits.as_slice())
            },
            None => String::new(),
        };
        let c = concat_str(b.as_str(), level.as_str());
        let d = concat_str(c.as_str(), "&detail=");
        match &self.detail {
            Some(t) => concat_str(d.as_str(), t.as_str()),
            None => d,
        }
    }
}

/// The revision of the latest display request: a timeout closes the display
/// only if no newer request came in meanwhile.
#[derive(Clone, Copy, Debug, Default)]
pub struct OsdState {
    revision: u64,
}

/// The revision after one more request (the counter wraps, as
/// `AtomicU64::fetch_add` does).
pub open spec fn next_revision(revision: u64) -> u64 {
    if revision == u64::MAX { 0 } else { (revision + 1) as u64 }
}

impl OsdState {
    pub closed spec fn revision_spec(&self) -> u64 {
        self.revision
    }

    pub fn new() -> (r: Self)
        ensures
            r.revision_spec() == 0,
    {
        OsdState { revision: 0 }
    }

    /// Registers a new request and gives its revision.
    pub fn begin(&mut self) -> (r: u64)
        ensures
            r == next_revision(old(self).revision_spec()),
            final(self).revision_spec() == r,
    {
        self.revision = self.revision.wrapping_add(1);
        self.revision
    }

    /// Whether the request of `revision` is still the latest one.
    pub fn is_current(&self, revision: u64) -> (r: bool)
        ensures
            r == (revision == self.revision_spec()),
    {
        self.revision == revision
    }
}

/// A newer request supersedes an older one: after two requests the first
/// one's timeout leaves the display open.
pub proof fn lemma_newer_request_supersedes(revision: u64)
    ensures
        next_revision(next_revision(revision)) != next_revision(revision),
{
}

} // verus!
