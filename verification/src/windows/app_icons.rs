//! Application icons for the launcher: which ids may be looked up, the
//! bounded cache of results, and the PNG data URI made from an icon's pixels.
use crate::text::{chars_of, concat_str};
use vstd::prelude::*;
use base64::Engine;

verus! {

pub const ICON_SIZE: i32 = 64;
pub const MAX_CACHE_ENTRIES: usize = 256;

/// The number of UTF-8 bytes that encode a character.
pub open spec fn utf8_width(c: char) -> nat {
    if (c as u32) < 0x80 {
        1
    } else if (c as u32) < 0x800 {
        2
    } else if (c as u32) < 0x10000 {
        3
    } else {
        4
    }
}

/// The UTF-8 length of a text (`str::len`).
pub open spec fn utf8_len(s: Seq<char>) -> nat
    decreases s.len(),
{
    if s.len() == 0 { 0 } else { utf8_len(s.drop_last()) + utf8_width(s.last()) }
}

proof fn lemma_utf8_len_grows(s: Seq<char>, i: int)
    requires
        0 <= i <= s.len(),
    ensures
        utf8_len(s.take(i)) <= utf8_len(s),
    decreases s.len() - i,
{
    if i < s.len() {
        lemma_utf8_len_grows(s, i + 1);
        assert(s.take(i + 1).drop_last() =~= s.take(i));
    } else {
        assert(s.take(i) =~= s);
    }
}

/// An AppsFolder id that may be handed to the shell: not empty, at most 320
/// bytes, and free of NUL and line breaks.
pub open spec fn app_id_valid(id: Seq<char>) -> bool {
    &&& id.len() > 0
    &&& utf8_len(id) <= 320
    &&& forall|i: int| 0 <= i < id.len() ==> #[trigger] id[i] != '\0' && id[i] != '\r' && id[i] != '\n'
}

fn utf8_width_of(c: char) -> (r: u64)
    ensures
        r == utf8_width(c),
{
    let v = c as u32;
    if v < 0x80 {
        1
    } else if v < 0x800 {
        2
    } else if v < 0x10000 {
        3
    } else {
        4
    }
}

pub fn valid_app_id(app_id: &str) -> (r: bool)
    ensures
        r == app_id_valid(app_id@),
{
    let c = chars_of(app_id);
    let n = c.len();
    if n == 0 {
        return false;
    }
    let mut total: u64 = 0;
    let mut i: usize = 0;
    while i < n
        invariant
            n == c@.len(),
            c@ == app_id@,
            i <= n,
            total == utf8_len(c@.take(i as int)),
            total <= 320,
            forall|k: int| 0 <= k < i ==> #[trigger] c@[k] != '\0' && c@[k] != '\r' && c@[k] != '\n',
        decreases n - i,
    {
        let ch = c[i];
        proof {
            assert(c@.take(i + 1).drop_last() =~= c@.take(i as int));
        }
        total = total + utf8_width_of(ch);
        if total > 320 {
            proof {
                lemma_utf8_len_grows(c@, i + 1);
            }
            return false;
        }
        if ch == '\0' || ch == '\r' || ch == '\n' {
            return false;
        }
        i = i + 1;
    }
    proof {
        assert(c@.take(n as int) =~= c@);
    }
    true
}

/// The looked-up icons: a data URI, or `None` for an app without one.
pub struct IconCache {
    entries: Vec<(String, Option<String>)>,
}

/// The cache's content as app id and icon.
pub open spec fn cache_views(v: Seq<(String, Option<String>)>) -> Seq<(Seq<char>, Option<Seq<char>>)> {
    v.map_values(|e: (String, Option<String>)| (e.0@, match e.1 {
        Some(s) => Some(s@),
        None => None,
    }))
}

/// The icon kept for an id, if the id was looked up.
pub open spec fn cached(entries: Seq<(Seq<char>, Option<Seq<char>>)>, id: Seq<char>) -> Option<Option<Seq<char>>>
    decreases entries.len(),
{
    if entries.len() == 0 {
        None
    } else if entries.last().0 == id {
        Some(entries.last().1)
    } else {
        cached(entries.drop_last(), id)
    }
}

proof fn lemma_cached_at(s: Seq<(Seq<char>, Option<Seq<char>>)>, id: Seq<char>)
    requires
        ids_unique(s),
    ensures
        forall|i: int| 0 <= i < s.len() && #[trigger] s[i].0 == id ==> cached(s, id) == Some(s[i].1),
        (forall|i: int| 0 <= i < s.len() ==> #[trigger] s[i].0 != id) ==> cached(s, id) is None,
    decreases s.len(),
{
    if s.len() > 0 {
        let t = s.drop_last();
        assert(ids_unique(t)) by {
            assert forall|a: int, b: int| 0 <= a < b < t.len() implies #[trigger] t[a].0 != #[trigger] t[b].0 by {
                assert(t[a] == s[a] && t[b] == s[b]);
            }
        }
        lemma_cached_at(t, id);
        assert forall|i: int| 0 <= i < s.len() && #[trigger] s[i].0 == id implies cached(s, id) == Some(s[i].1) by {
            if i < s.len() - 1 {
                assert(t[i] == s[i]);
                assert(s[i].0 != s[s.len() - 1].0);
            }
        }
        if forall|i: int| 0 <= i < s.len() ==> #[trigger] s[i].0 != id {
            assert(s[s.len() - 1].0 != id);
            assert forall|i: int| 0 <= i < t.len() implies #[trigger] t[i].0 != id by {
                assert(t[i] == s[i]);
            }
        }
    }
}

pub open spec fn ids_unique(entries: Seq<(Seq<char>, Option<Seq<char>>)>) -> bool {
    forall|i: int, j: int| 0 <= i < j < entries.len() ==> #[trigger] entries[i].0 != #[trigger] entries[j].0
}

fn clone_icon(icon: &Option<String>) -> (r: Option<String>)
    ensures
        icon_view(r) == icon_view(*icon),
{
    match icon {
        Some(s) => Some(String::from_str(s.as_str())),
        None => None,
    }
}

pub open spec fn icon_view(icon: Option<String>) -> Option<Seq<char>> {
    match icon {
        Some(s) => Some(s@),
        None => None,
    }
}

impl IconCache {
    pub closed spec fn entries(&self) -> Seq<(Seq<char>, Option<Seq<char>>)> {
        cache_views(self.entries@)
    }

    /// At most `MAX_CACHE_ENTRIES` ids, each once.
    pub open spec fn wf(&self) -> bool {
        ids_unique(self.entries()) && self.entries().len() <= MAX_CACHE_ENTRIES
    }

    pub fn new() -> (r: Self)
        ensures
            r.wf(),
            r.entries().len() == 0,
    {
        let r = IconCache { entries: Vec::new() };
        assert(r.entries() =~= Seq::<(Seq<char>, Option<Seq<char>>)>::empty());
        r
    }

    pub fn len(&self) -> (r: usize)
        ensures
            r == self.entries().len(),
    {
        self.entries.len()
    }

    /// The icon kept for an id: `None` when it was not looked up yet.
    pub fn get(&self, app_id: &str) -> (r: Option<Option<String>>)
        requires
            self.wf(),
        ensures
            match (r, cached(self.entries(), app_id@)) {
                (Some(a), Some(b)) => icon_view(a) == b,
                (None, None) => true,
                _ => false,
            },
    {
        let wanted = String::from_str(app_id);
        let mut i: usize = 0;
        while i < self.entries.len()
            invariant
                i <= self.entries@.len(),
                wanted@ == app_id@,
                self.wf(),
                forall|k: int| 0 <= k < i ==> #[trigger] self.entries()[k].0 != app_id@,
            decreases self.entries@.len() - i,
        {
            if self.entries[i].0 == wanted {
                let icon = clone_icon(&self.entries[i].1);
                proof {
                    assert(self.entries()[i as int].0 == app_id@);
                    lemma_cached_at(self.entries(), app_id@);
                }
                return Some(icon);
            }
            i = i + 1;
        }
        proof {
            lemma_cached_at(self.entries(), app_id@);
        }
        None
    }

    /// The position of an id's entry.
    fn position(&self, app_id: &str) -> (r: Option<usize>)
        ensures
            r matches Some(i) ==> i < self.entries().len() && self.entries()[i as int].0 == app_id@,
            r is None ==> forall|k: int| 0 <= k < self.entries().len() ==> #[trigger] self.entries()[k].0 != app_id@,
    {
        let wanted = String::from_str(app_id);
        let mut i: usize = 0;
        while i < self.entries.len()
            invariant
                i <= self.entries@.len(),
                wanted@ == app_id@,
                forall|k: int| 0 <= k < i ==> #[trigger] self.entries()[k].0 != app_id@,
            decreases self.entries@.len() - i,
        {
            if self.entries[i].0 == wanted {
                return Some(i);
            }
            i = i + 1;
        }
        None
    }

    /// Keeps the icon of an id; a full cache is emptied first, so memory
    /// stays bounded.
    pub fn insert(&mut self, app_id: &str, icon: Option<String>)
        requires
            old(self).wf(),
        ensures
            final(self).wf(),
            cached(final(self).entries(), app_id@) == Some(icon_view(icon)),
            old(self).entries().len() < MAX_CACHE_ENTRIES ==> forall|id: Seq<char>| id != app_id@
                ==> #[trigger] cached(final(self).entries(), id) == cached(old(self).entries(), id),
            old(self).entries().len() >= MAX_CACHE_ENTRIES ==> final(self).entries().len() == 1,
    {
        if self.entries.len() >= MAX_CACHE_ENTRIES {
            self.entries = Vec::new();
            proof {
                assert(self.entries() =~= Seq::<(Seq<char>, Option<Seq<char>>)>::empty());
            }
        }
        let ghost before = self.entries();
        let ghost e = (app_id@, icon_view(icon));
        match self.position(app_id) {
            Some(i) => {
                self.entries.set(i, (String::from_str(app_id), icon));
                proof {
                    assert(self.entries() =~= before.update(i as int, e));
                    lemma_cached_update(before, i as int, e);
                }
            },
            None => {
                self.entries.push((String::from_str(app_id), icon));
                proof {
                    assert(self.entries() =~= before.push(e));
                    assert(ids_unique(before.push(e))) by {
                        let t = before.push(e);
                        assert forall|i: int, j: int| 0 <= i < j < t.len() implies #[trigger] t[i].0 != #[trigger] t[j].0 by {
                            if j == before.len() {
                                assert(t[i] == before[i]);
                            }
                        }
                    }
                    assert forall|id: Seq<char>| true implies #[trigger] cached(before.push(e), id)
                        == (if id == e.0 { Some(e.1) } else { cached(before, id) }) by {
                        lemma_cached_push(before, e, id);
                    }
                }
            },
        }
    }
}

proof fn lemma_cached_update(
    s: Seq<(Seq<char>, Option<Seq<char>>)>,
    i: int,
    e: (Seq<char>, Option<Seq<char>>),
)
    requires
        ids_unique(s),
        0 <= i < s.len(),
        s[i].0 == e.0,
    ensures
        ids_unique(s.update(i, e)),
        forall|id: Seq<char>| #[trigger] cached(s.update(i, e), id) == (if id == e.0 { Some(e.1) } else { cached(s, id) }),
{
    let t = s.update(i, e);
    assert forall|a: int, b: int| 0 <= a < b < t.len() implies #[trigger] t[a].0 != #[trigger] t[b].0 by {
        assert(t[a].0 == s[a].0 && t[b].0 == s[b].0);
    }
    assert forall|id: Seq<char>| #[trigger] cached(t, id) == (if id == e.0 { Some(e.1) } else { cached(s, id) }) by {
        lemma_cached_at(t, id);
        lemma_cached_at(s, id);
        if id == e.0 {
            assert(t[i].0 == id);
        } else if exists|k: int| 0 <= k < s.len() && #[trigger] s[k].0 == id {
            let w = choose|k: int| 0 <= k < s.len() && #[trigger] s[k].0 == id;
            assert(t[w] == s[w]);
        } else {
            assert forall|k: int| 0 <= k < t.len() implies #[trigger] t[k].0 != id by {
                if k != i {
                    assert(t[k] == s[k]);
                }
            }
        }
    }
}

proof fn lemma_cached_push(
    s: Seq<(Seq<char>, Option<Seq<char>>)>,
    e: (Seq<char>, Option<Seq<char>>),
    id: Seq<char>,
)
    ensures
        id != e.0 ==> cached(s.push(e), id) == cached(s, id),
        id == e.0 ==> cached(s.push(e), id) == Some(e.1),
{
    assert(s.push(e).drop_last() =~= s);
}

/// The RGBA bytes of BGRA pixels; a trailing partial pixel is dropped, as
/// `chunks_exact(4)` does.
pub open spec fn rgba_of(bgra: Seq<u8>) -> Seq<u8> {
    Seq::new(((bgra.len() / 4) * 4) as nat, |i: int|
        if i % 4 == 0 {
            bgra[i - i % 4 + 2]
        } else if i % 4 == 1 {
            bgra[i - i % 4 + 1]
        } else if i % 4 == 2 {
            bgra[i - i % 4]
        } else {
            bgra[i]
        })
}

/// Whether every pixel's alpha is zero: nothing would be visible.
pub open spec fn fully_transparent(rgba: Seq<u8>) -> bool {
    forall|p: int| 0 <= p < rgba.len() / 4 ==> #[trigger] rgba[4 * p + 3] == 0
}

pub fn bgra_to_rgba(bgra: &[u8]) -> (r: Vec<u8>)
    ensures
        r@ == rgba_of(bgra@),
{
    let n = bgra.len() / 4;
    let mut out: Vec<u8> = Vec::new();
    let mut k: usize = 0;
    while k < n
        invariant
            n == bgra@.len() / 4,
            4 * n <= bgra@.len(),
            bgra@.len() == bgra.len(),
            k <= n,
            out@ == rgba_of(bgra@).take(4 * k),
        decreases n - k,
    {
        let p = 4 * k;
        out.push(bgra[p + 2]);
        out.push(bgra[p + 1]);
        out.push(bgra[p]);
        out.push(bgra[p + 3]);
        k = k + 1;
        proof {
            let f = rgba_of(bgra@);
            assert(f[4 * k - 4] == bgra@[p + 2]);
            assert(f[4 * k - 3] == bgra@[p + 1]);
            assert(f[4 * k - 2] == bgra@[p as int]);
            assert(f[4 * k - 1] == bgra@[p + 3]);
            assert(out@ =~= f.take(4 * k));
        }
    }
    proof {
        assert(rgba_of(bgra@).take(4 * n) =~= rgba_of(bgra@));
    }
    out
}

pub fn is_fully_transparent(rgba: &[u8]) -> (r: bool)
    ensures
        r == fully_transparent(rgba@),
{
    let n = rgba.len() / 4;
    let mut p: usize = 0;
    while p < n
        invariant
            n == rgba@.len() / 4,
            4 * n <= rgba@.len(),
            rgba@.len() == rgba.len(),
            p <= n,
            forall|q: int| 0 <= q < p ==> #[trigger] rgba@[4 * q + 3] == 0,
        decreases n - p,
    {
        if rgba[4 * p + 3] != 0 {
            return false;
        }
        p = p + 1;
    }
    true
}

/// What the `png` crate writes for 8-bit RGBA pixel data of the given size
/// with its default settings, or `None` when it refuses the data.
pub uninterp spec fn png_rgba8(rgba: Seq<u8>, width: u32, height: u32) -> Option<Seq<u8>>;

/// Encodes RGBA pixels as a PNG with `png::Encoder` (8-bit RGBA, default
/// compression and filter). Claimed: the outcome depends on the pixels and
/// size alone. Nothing is stated of the bytes beyond that name. The encoder
/// computes the image's byte size (`4 * width * height`) in `usize` without
/// an overflow check, so that size must fit.
#[verifier::external_body]
fn encode_png(rgba: &[u8], width: u32, height: u32) -> (r: Option<Vec<u8>>)
    requires
        4 * width * height <= usize::MAX,
    ensures
        match r {
            Some(v) => png_rgba8(rgba@, width, height) == Some(v@),
            None => png_rgba8(rgba@, width, height) is None,
        },
{
    let mut output = Vec::new();
    let mut encoder = png::Encoder::new(&mut output, width, height);
    encoder.set_color(png::ColorType::Rgba);
    encoder.set_depth(png::BitDepth::Eight);
    let mut writer = match encoder.write_header() {
        Ok(w) => w,
        Err(_) => return None,
    };
    if writer.write_image_data(rgba).is_err() || writer.finish().is_err() {
        return None;
    }
    Some(output)
}

/// The character of a 6-bit value in the standard base64 alphabet
/// (RFC 4648: `A`-`Z`, `a`-`z`, `0`-`9`, `+`, `/`).
pub open spec fn base64_char(v: nat) -> char {
    if v < 26 {
        (65 + v) as char
    } else if v < 52 {
        (97 + v - 26) as char
    } else if v < 62 {
        (48 + v - 52) as char
    } else if v == 62 {
        '+'
    } else {
        '/'
    }
}

/// The standard base64 text of some bytes (RFC 4648, padded with `=`): each
/// group of three bytes becomes four characters of six bits each; a final
/// group of one or two bytes is filled with zero bits and padded.
pub open spec fn base64_standard(bytes: Seq<u8>) -> Seq<char>
    decreases bytes.len(),
{
    if bytes.len() == 0 {
        Seq::empty()
    } else if bytes.len() == 1 {
        let n = bytes[0] as nat * 65536;
        seq![base64_char(n / 262144), base64_char((n / 4096) % 64), '=', '=']
    } else if bytes.len() == 2 {
        let n = bytes[0] as nat * 65536 + bytes[1] as nat * 256;
        seq![base64_char(n / 262144), base64_char((n / 4096) % 64), base64_char((n / 64) % 64), '=']
    } else {
        let n = bytes[0] as nat * 65536 + bytes[1] as nat * 256 + bytes[2] as nat;
        seq![base64_char(n / 262144), base64_char((n / 4096) % 64), base64_char((n / 64) % 64), base64_char(n % 64)]
            + base64_standard(bytes.subrange(3, bytes.len() as int))
    }
}

/// Calls `base64::engine::general_purpose::STANDARD.encode`: the padded
/// standard base64 text of the bytes. The call panics only when the encoded
/// length overflows, which the bound on the input rules out.
#[verifier::external_body]
fn encode_base64(bytes: &[u8]) -> (r: String)
    requires
        bytes@.len() <= usize::MAX / 4,
    ensures
        r@ == base64_standard(bytes@),
{
    base64::engine::general_purpose::STANDARD.encode(bytes)
}

/// The `data:` URI of a PNG image.
pub open spec fn png_data_uri(png: Seq<u8>) -> Seq<char> {
    "data:image/png;base64,"@ + base64_standard(png)
}

/// The launcher's icon for an app's pixels (top-down BGRA, `ICON_SIZE`
/// square): the `data:` URI of their 64-by-64 PNG, or none when nothing would
/// be visible or no PNG is written.
pub open spec fn icon_of(bgra: Seq<u8>) -> Option<Seq<char>> {
    if fully_transparent(rgba_of(bgra)) {
        None
    } else {
        match png_rgba8(rgba_of(bgra), 64, 64) {
            Some(png) => if png.len() <= usize::MAX / 4 { Some(png_data_uri(png)) } else { None },
            None => None,
        }
    }
}

/// The launcher's icon for the pixels drawn from an app's icon (top-down
/// BGRA, `ICON_SIZE` square): `None` when nothing would be visible or the
/// PNG could not be written. (An encoding over `usize::MAX / 4` bytes, which
/// a 64-pixel icon cannot produce, also gives `None`.)
pub fn icon_from_pixels(bgra: &[u8]) -> (r: Option<String>)
    ensures
        icon_view(r) == icon_of(bgra@),
        fully_transparent(rgba_of(bgra@)) ==> r is None,
        !fully_transparent(rgba_of(bgra@)) ==> match png_rgba8(rgba_of(bgra@), 64, 64) {
            Some(png) => if png.len() <= usize::MAX / 4 {
                r matches Some(uri) && uri@ == png_data_uri(png)
            } else {
                r is None
            },
            None => r is None,
        },
{
    let rgba = bgra_to_rgba(bgra);
    if is_fully_transparent(rgba.as_slice()) {
        return None;
    }
    match encode_png(rgba.as_slice(), ICON_SIZE as u32, ICON_SIZE as u32) {
        Some(png) => {
            if png.len() > usize::MAX / 4 {
                return None;
            }
            let text = encode_base64(png.as_slice());
            Some(concat_str("data:image/png;base64,", text.as_str()))
        },
        None => None,
    }
}

/// Every icon the launcher shows is the `data:` URI of a 64-by-64 PNG of the
/// app's pixels, and invisible pixels give no icon.
pub proof fn lemma_icon_is_png_data_uri(bgra: Seq<u8>)
    ensures
        fully_transparent(rgba_of(bgra)) ==> icon_of(bgra) is None,
        icon_of(bgra) matches Some(u) ==> exists|png: Seq<u8>| png_rgba8(rgba_of(bgra), 64, 64) == Some(png)
            && #[trigger] png_data_uri(png) == u,
{
    if icon_of(bgra) is Some {
        let png = png_rgba8(rgba_of(bgra), 64, 64).unwrap();
        assert(png_data_uri(png) == icon_of(bgra).unwrap());
    }
}

/// The first step of looking up an app's icon.
pub enum IconLookup {
    /// The id is no shell app id: no icon, and the shell is not asked.
    Rejected,
    /// The icon found earlier (`None` for an app without one).
    Cached(Option<String>),
    /// Not looked up yet: draw the app's icon and hand its pixels to
    /// `remember`.
    Extract,
}

impl IconCache {
    /// What a lookup of `app_id` does first: an invalid id is refused without
    /// asking the shell, an id looked up before is answered from the cache,
    /// any other id must be drawn.
    pub fn lookup(&self, app_id: &str) -> (r: IconLookup)
        requires
            self.wf(),
        ensures
            !app_id_valid(app_id@) ==> r is Rejected,
            app_id_valid(app_id@) && cached(self.entries(), app_id@) is None ==> r is Extract,
            app_id_valid(app_id@) ==> (cached(self.entries(), app_id@) matches Some(v) ==> (r matches IconLookup::Cached(
                a,
            ) && icon_view(a) == v)),
    {
        if !valid_app_id(app_id) {
            return IconLookup::Rejected;
        }
        match self.get(app_id) {
            Some(icon) => IconLookup::Cached(icon),
            None => IconLookup::Extract,
        }
    }

    /// Finishes a lookup with the pixels drawn from the app's icon (`None`
    /// when the shell gave no icon): the icon is made, kept for the id, and
    /// returned.
    pub fn remember(&mut self, app_id: &str, pixels: Option<&[u8]>) -> (r: Option<String>)
        requires
            old(self).wf(),
        ensures
            final(self).wf(),
            icon_view(r) == (match pixels {
                Some(p) => icon_of(p@),
                None => None,
            }),
            cached(final(self).entries(), app_id@) == Some(icon_view(r)),
            old(self).entries().len() < MAX_CACHE_ENTRIES ==> forall|id: Seq<char>| id != app_id@
                ==> #[trigger] cached(final(self).entries(), id) == cached(old(self).entries(), id),
            old(self).entries().len() >= MAX_CACHE_ENTRIES ==> final(self).entries().len() == 1,
    {
        let icon = match pixels {
            Some(p) => icon_from_pixels(p),
            None => None,
        };
        let kept = match &icon {
            Some(u) => Some(u.clone()),
            None => None,
        };
        proof {
            assert(icon_view(kept) == icon_view(icon));
        }
        self.insert(app_id, kept);
        icon
    }
}

} // verus!

