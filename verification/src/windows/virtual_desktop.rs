//! Virtual-desktop (workspace) identifiers, the keyboard chord that switches
//! workspaces, and the journal that undoes window moves between them.
use crate::text::{
    chars_of, free_of, lemma_split_free, lemma_split_sep, part_views, split_chars, split_on, concat_str, eq_ignore_ascii_case, handle_text, hex_digits, hex_of, is_white_space,
    lemma_hex_digits, parse_isize, parse_unsigned, pow16, same_ignoring_ascii_case,
    string_from_chars, trim, trim_chars, trim_end, trim_start, unsigned_in, unsigned_text,
    ascii_upper, lemma_trim_end_pad, lemma_trim_start_pad, lemma_unsigned_in_upper, lemma_upper_seq_parts,
    upper_seq,
};
use crate::windows::input::{
    all_sent, chord, chord_events, Input, VK_CONTROL, VK_LEFT, VK_LWIN, VK_RIGHT,
};
use vstd::prelude::*;

verus! {

/// A COM GUID, as the virtual-desktop manager identifies a desktop.
#[derive(Clone, Copy, Debug, PartialEq, Eq)]
pub struct Guid {
    pub data1: u32,
    pub data2: u16,
    pub data3: u16,
    pub data4: [u8; 8],
}

pub open spec fn is_brace(c: char) -> bool {
    c == '{' || c == '}'
}

/// `s` without leading and trailing braces (`trim_matches` on `{` and `}`).
pub open spec fn strip_braces(s: Seq<char>) -> Seq<char>
    decreases s.len(),
{
    if s.len() > 0 && is_brace(s[0]) {
        strip_braces(s.drop_first())
    } else if s.len() > 0 && is_brace(s.last()) {
        strip_braces(s.drop_last())
    } else {
        s
    }
}

/// The `k`-th two-digit byte of a hexadecimal part.
pub open spec fn byte_of(part: Seq<char>, k: int) -> Option<nat> {
    unsigned_in(part.subrange(2 * k, 2 * k + 2), 16, 255)
}

/// The eight bytes of the fourth and fifth parts, when all are two-digit
/// hexadecimal numbers.
pub open spec fn guid_bytes(p3: Seq<char>, p4: Seq<char>) -> Option<Seq<nat>> {
    if byte_of(p3, 0) is Some && byte_of(p3, 1) is Some && byte_of(p4, 0) is Some
        && byte_of(p4, 1) is Some && byte_of(p4, 2) is Some && byte_of(p4, 3) is Some
        && byte_of(p4, 4) is Some && byte_of(p4, 5) is Some {
        Some(seq![
            byte_of(p3, 0).unwrap(), byte_of(p3, 1).unwrap(),
            byte_of(p4, 0).unwrap(), byte_of(p4, 1).unwrap(), byte_of(p4, 2).unwrap(),
            byte_of(p4, 3).unwrap(), byte_of(p4, 4).unwrap(), byte_of(p4, 5).unwrap(),
        ])
    } else {
        None
    }
}

/// The fields that the `-`-separated parts of a desktop id denote: five
/// hexadecimal parts (the fourth of 4 digits, the fifth of 12) whose values
/// fit their fields.
pub open spec fn guid_from_parts(parts: Seq<Seq<char>>) -> Option<(nat, nat, nat, Seq<nat>)> {
    if parts.len() != 5 || parts[3].len() != 4 || parts[4].len() != 12 {
        None
    } else {
        let d1 = unsigned_in(parts[0], 16, 0xffff_ffff);
        let d2 = unsigned_in(parts[1], 16, 0xffff);
        let d3 = unsigned_in(parts[2], 16, 0xffff);
        let b = guid_bytes(parts[3], parts[4]);
        if d1 is Some && d2 is Some && d3 is Some && b is Some {
            Some((d1.unwrap(), d2.unwrap(), d3.unwrap(), b.unwrap()))
        } else {
            None
        }
    }
}

/// The fields that a desktop id text denotes, once white space and braces
/// around it are trimmed.
pub open spec fn guid_text(value: Seq<char>) -> Option<(nat, nat, nat, Seq<nat>)> {
    guid_from_parts(split_on(strip_braces(trim(value)), '-'))
}

/// The fields of a GUID.
pub open spec fn guid_fields(g: Guid) -> (nat, nat, nat, Seq<nat>) {
    (g.data1 as nat, g.data2 as nat, g.data3 as nat, seq![
        g.data4[0] as nat, g.data4[1] as nat, g.data4[2] as nat, g.data4[3] as nat,
        g.data4[4] as nat, g.data4[5] as nat, g.data4[6] as nat, g.data4[7] as nat,
    ])
}

/// The canonical text of a GUID: lower-case, zero-padded 8-4-4-4-12 digits.
pub open spec fn guid_string(g: Guid) -> Seq<char> {
    hex_digits(g.data1 as nat, 8) + seq!['-'] + hex_digits(g.data2 as nat, 4) + seq!['-']
        + hex_digits(g.data3 as nat, 4) + seq!['-'] + hex_digits(g.data4[0] as nat, 2)
        + hex_digits(g.data4[1] as nat, 2) + seq!['-'] + hex_digits(g.data4[2] as nat, 2)
        + hex_digits(g.data4[3] as nat, 2) + hex_digits(g.data4[4] as nat, 2)
        + hex_digits(g.data4[5] as nat, 2) + hex_digits(g.data4[6] as nat, 2)
        + hex_digits(g.data4[7] as nat, 2)
}

fn strip_brace_chars(s: &[char]) -> (r: Vec<char>)
    ensures
        r@ == strip_braces(s@),
{
    let mut i: usize = 0;
    let mut j: usize = s.len();
    proof {
        assert(s@.subrange(0, s@.len() as int) =~= s@);
    }
    while i < j && (s[i] == '{' || s[i] == '}' || s[j - 1] == '{' || s[j - 1] == '}')
        invariant
            i <= j <= s@.len(),
            strip_braces(s@) == strip_braces(s@.subrange(i as int, j as int)),
        decreases j - i,
    {
        proof {
            let t = s@.subrange(i as int, j as int);
            assert(t.drop_first() =~= s@.subrange(i + 1, j as int));
            assert(t.drop_last() =~= s@.subrange(i as int, j - 1));
        }
        if s[i] == '{' || s[i] == '}' {
            i = i + 1;
        } else {
            j = j - 1;
        }
    }
    let mut r: Vec<char> = Vec::new();
    let mut k: usize = i;
    while k < j
        invariant
            i <= k <= j <= s@.len(),
            r@ == s@.subrange(i as int, k as int),
        decreases j - k,
    {
        r.push(s[k]);
        k = k + 1;
        proof {
            assert(r@ =~= s@.subrange(i as int, k as int));
        }
    }
    r
}

fn byte_from(part: &Vec<char>, k: usize) -> (r: Option<u8>)
    requires
        2 * k + 2 <= part@.len(),
    ensures
        match byte_of(part@, k as int) {
            Some(v) => r == Some(v as u8),
            None => r is None,
        },
{
    let n = part.len();
    assert(2 * k + 2 <= n);
    let mut pair: Vec<char> = Vec::new();
    pair.push(part[2 * k]);
    pair.push(part[2 * k + 1]);
    proof {
        assert(pair@ =~= part@.subrange(2 * k as int, 2 * k + 2));
    }
    match parse_unsigned(pair.as_slice(), 16, 255) {
        Some(v) => Some(v as u8),
        None => None,
    }
}

fn bytes_from(p3: &Vec<char>, p4: &Vec<char>) -> (r: Option<[u8; 8]>)
    requires
        p3@.len() == 4,
        p4@.len() == 12,
    ensures
        guid_bytes(p3@, p4@) is None ==> r is None,
        guid_bytes(p3@, p4@) is Some ==> (r matches Some(a) && seq![
            a[0] as nat, a[1] as nat, a[2] as nat, a[3] as nat,
            a[4] as nat, a[5] as nat, a[6] as nat, a[7] as nat,
        ] == guid_bytes(p3@, p4@).unwrap()),
{
    let y0 = match byte_from(p3, 0) { Some(v) => v, None => return None };
    let y1 = match byte_from(p3, 1) { Some(v) => v, None => return None };
    let y2 = match byte_from(p4, 0) { Some(v) => v, None => return None };
    let y3 = match byte_from(p4, 1) { Some(v) => v, None => return None };
    let y4 = match byte_from(p4, 2) { Some(v) => v, None => return None };
    let y5 = match byte_from(p4, 3) { Some(v) => v, None => return None };
    let y6 = match byte_from(p4, 4) { Some(v) => v, None => return None };
    let y7 = match byte_from(p4, 5) { Some(v) => v, None => return None };
    Some([y0, y1, y2, y3, y4, y5, y6, y7])
}

fn guid_from_part_chars(parts: &Vec<Vec<char>>) -> (r: Option<Guid>)
    ensures
        guid_from_parts(part_views(parts@)) is None ==> r is None,
        guid_from_parts(part_views(parts@)) is Some ==> (r matches Some(g)
            && guid_fields(g) == guid_from_parts(part_views(parts@)).unwrap()),
{
    let ghost pv = part_views(parts@);
    if parts.len() != 5 || parts[3].len() != 4 || parts[4].len() != 12 {
        return None;
    }
    proof {
        assert(pv[0] == parts@[0]@ && pv[1] == parts@[1]@ && pv[2] == parts@[2]@);
        assert(pv[3] == parts@[3]@ && pv[4] == parts@[4]@);
    }
    let x1 = match parse_unsigned(parts[0].as_slice(), 16, 0xffff_ffff) { Some(v) => v, None => return None };
    let x2 = match parse_unsigned(parts[1].as_slice(), 16, 0xffff) { Some(v) => v, None => return None };
    let x3 = match parse_unsigned(parts[2].as_slice(), 16, 0xffff) { Some(v) => v, None => return None };
    let data4 = match bytes_from(&parts[3], &parts[4]) { Some(a) => a, None => return None };
    Some(Guid { data1: x1 as u32, data2: x2 as u16, data3: x3 as u16, data4 })
}

impl Guid {
    /// Reads a desktop id; every malformed id gives the same error.
    pub fn parse(value: &str) -> (r: Result<Guid, String>)
        ensures
            guid_text(value@) is None ==> (r matches Err(e) && e@ == "invalid virtual desktop id"@),
            guid_text(value@) is Some ==> (r matches Ok(g) && guid_fields(g) == guid_text(value@).unwrap()),
    {
        let vc = chars_of(value);
        let trimmed = trim_chars(vc.as_slice());
        let cleaned = strip_brace_chars(trimmed.as_slice());
        let parts = split_chars(cleaned.as_slice(), '-');
        match guid_from_part_chars(&parts) {
            Some(g) => Ok(g),
            None => Err(String::from_str("invalid virtual desktop id")),
        }
    }

    /// The canonical text of the GUID.
    pub fn as_string(&self) -> (r: String)
        ensures
            r@ == guid_string(*self),
    {
        let mut out: Vec<char> = hex_of(self.data1 as u64, 8);
        let mut p2 = hex_of(self.data2 as u64, 4);
        let mut p3 = hex_of(self.data3 as u64, 4);
        let ghost o0 = out@;
        out.push('-');
        out.append(&mut p2);
        out.push('-');
        out.append(&mut p3);
        out.push('-');
        let mut k: usize = 0;
        while k < 8
            invariant
                out@ == guid_prefix(*self, k as int),
                k <= 8,
            decreases 8 - k,
        {
            if k == 2 {
                out.push('-');
            }
            let mut b = hex_of(self.data4[k] as u64, 2);
            let ghost before = out@;
            out.append(&mut b);
            k = k + 1;
            proof {
                assert(out@ =~= guid_prefix(*self, k as int));
            }
        }
        proof {
            reveal_with_fuel(guid_prefix, 9);
            assert(out@ =~= guid_string(*self));
        }
        string_from_chars(out.as_slice())
    }
}

/// The canonical text up to the first `k` bytes of `data4`.
pub open spec fn guid_prefix(g: Guid, k: int) -> Seq<char>
    decreases k,
{
    if k <= 0 {
        hex_digits(g.data1 as nat, 8) + seq!['-'] + hex_digits(g.data2 as nat, 4) + seq!['-']
            + hex_digits(g.data3 as nat, 4) + seq!['-']
    } else if k == 2 {
        guid_prefix(g, k - 1) + hex_digits(g.data4[k - 1] as nat, 2)
    } else if k == 3 {
        guid_prefix(g, k - 1) + seq!['-'] + hex_digits(g.data4[k - 1] as nat, 2)
    } else {
        guid_prefix(g, k - 1) + hex_digits(g.data4[k - 1] as nat, 2)
    }
}


proof fn lemma_hex_facts(v: nat, w: nat, max: nat)
    requires
        v < pow16(w),
        v <= max,
        w > 0,
    ensures
        unsigned_in(hex_digits(v, w), 16, max) == Some(v),
        free_of(hex_digits(v, w), '-'),
        hex_digits(v, w).len() == w,
        !is_white_space(hex_digits(v, w)[0]) && !is_brace(hex_digits(v, w)[0]),
        !is_white_space(hex_digits(v, w).last()) && !is_brace(hex_digits(v, w).last()),
{
    lemma_hex_digits(v, w);
    let h = hex_digits(v, w);
    assert(h[0] != '+');
    assert(h[w - 1] == h.last());
    assert(unsigned_text(h, 16) == Some(v));
}

proof fn lemma_pow16()
    ensures
        pow16(2) == 0x100,
        pow16(4) == 0x10000,
        pow16(8) == 0x1_0000_0000,
{
    reveal_with_fuel(pow16, 9);
}

/// The canonical text is five dash-free parts joined by dashes, with no
/// white space or brace at either end.
proof fn lemma_guid_text_shape(g: Guid)
    ensures
        guid_string(g) == guid_part(g, 0) + seq!['-'] + guid_part(g, 1) + seq!['-']
            + guid_part(g, 2) + seq!['-'] + guid_part(g, 3) + seq!['-'] + guid_part(g, 4),
        strip_braces(trim(guid_string(g))) == guid_string(g),
        forall|k: int| 0 <= k < 5 ==> #[trigger] free_of(guid_part(g, k), '-'),
        guid_part(g, 3).len() == 4,
        guid_part(g, 4).len() == 12,
{
    lemma_pow16();
    lemma_hex_facts(g.data1 as nat, 8, 0xffff_ffff);
    lemma_hex_facts(g.data2 as nat, 4, 0xffff);
    lemma_hex_facts(g.data3 as nat, 4, 0xffff);
    lemma_hex_facts(g.data4[0] as nat, 2, 255);
    lemma_hex_facts(g.data4[1] as nat, 2, 255);
    lemma_hex_facts(g.data4[2] as nat, 2, 255);
    lemma_hex_facts(g.data4[3] as nat, 2, 255);
    lemma_hex_facts(g.data4[4] as nat, 2, 255);
    lemma_hex_facts(g.data4[5] as nat, 2, 255);
    lemma_hex_facts(g.data4[6] as nat, 2, 255);
    lemma_hex_facts(g.data4[7] as nat, 2, 255);
    let a = guid_part(g, 0);
    let e = guid_part(g, 4);
    let text = guid_string(g);
    let dash = seq!['-'];
    assert(text =~= a + dash + guid_part(g, 1) + dash + guid_part(g, 2) + dash + guid_part(g, 3)
        + dash + e);
    assert(free_of(guid_part(g, 3), '-'));
    assert(free_of(e, '-'));
    assert(text[0] == a[0]);
    assert(text.last() == e.last());
    assert(e.last() == hex_digits(g.data4[7] as nat, 2).last());
    assert(trim_start(text) == text);
    assert(trim_end(text) == text);
    assert(strip_braces(text) == text);
}

/// The `k`-th dash-separated part of the canonical text.
pub open spec fn guid_part(g: Guid, k: int) -> Seq<char> {
    if k == 0 {
        hex_digits(g.data1 as nat, 8)
    } else if k == 1 {
        hex_digits(g.data2 as nat, 4)
    } else if k == 2 {
        hex_digits(g.data3 as nat, 4)
    } else if k == 3 {
        hex_digits(g.data4[0] as nat, 2) + hex_digits(g.data4[1] as nat, 2)
    } else {
        hex_digits(g.data4[2] as nat, 2) + hex_digits(g.data4[3] as nat, 2)
            + hex_digits(g.data4[4] as nat, 2) + hex_digits(g.data4[5] as nat, 2)
            + hex_digits(g.data4[6] as nat, 2) + hex_digits(g.data4[7] as nat, 2)
    }
}

/// Five dash-free parts joined by dashes split back into those parts.
proof fn lemma_split_five(a: Seq<char>, b: Seq<char>, c: Seq<char>, d: Seq<char>, e: Seq<char>)
    requires
        free_of(a, '-'),
        free_of(b, '-'),
        free_of(c, '-'),
        free_of(d, '-'),
        free_of(e, '-'),
    ensures
        split_on(a + seq!['-'] + b + seq!['-'] + c + seq!['-'] + d + seq!['-'] + e, '-')
            == seq![a, b, c, d, e],
{
    let dash = seq!['-'];
    let empty = Seq::<char>::empty();
    lemma_split_free(empty, a, '-');
    assert(empty + a =~= a);
    assert(split_on(empty, '-') == seq![empty]);
    assert(split_on(a, '-') =~= seq![a]);
    lemma_split_sep(a, '-');
    lemma_split_free(a + dash, b, '-');
    assert(split_on(a + dash + b, '-') =~= seq![a, b]);
    lemma_split_sep(a + dash + b, '-');
    lemma_split_free(a + dash + b + dash, c, '-');
    assert(split_on(a + dash + b + dash + c, '-') =~= seq![a, b, c]);
    lemma_split_sep(a + dash + b + dash + c, '-');
    lemma_split_free(a + dash + b + dash + c + dash, d, '-');
    assert(split_on(a + dash + b + dash + c + dash + d, '-') =~= seq![a, b, c, d]);
    lemma_split_sep(a + dash + b + dash + c + dash + d, '-');
    lemma_split_free(a + dash + b + dash + c + dash + d + dash, e, '-');
    assert(split_on(a + dash + b + dash + c + dash + d + dash + e, '-') =~= seq![a, b, c, d, e]);
}

/// The parts of the canonical text read back as the GUID's fields.
proof fn lemma_guid_part_values(g: Guid)
    ensures
        unsigned_in(guid_part(g, 0), 16, 0xffff_ffff) == Some(g.data1 as nat),
        unsigned_in(guid_part(g, 1), 16, 0xffff) == Some(g.data2 as nat),
        unsigned_in(guid_part(g, 2), 16, 0xffff) == Some(g.data3 as nat),
        guid_bytes(guid_part(g, 3), guid_part(g, 4)) == Some(guid_fields(g).3),
{
    lemma_pow16();
    lemma_hex_facts(g.data1 as nat, 8, 0xffff_ffff);
    lemma_hex_facts(g.data2 as nat, 4, 0xffff);
    lemma_hex_facts(g.data3 as nat, 4, 0xffff);
    lemma_hex_facts(g.data4[0] as nat, 2, 255);
    lemma_hex_facts(g.data4[1] as nat, 2, 255);
    lemma_hex_facts(g.data4[2] as nat, 2, 255);
    lemma_hex_facts(g.data4[3] as nat, 2, 255);
    lemma_hex_facts(g.data4[4] as nat, 2, 255);
    lemma_hex_facts(g.data4[5] as nat, 2, 255);
    lemma_hex_facts(g.data4[6] as nat, 2, 255);
    lemma_hex_facts(g.data4[7] as nat, 2, 255);
    let d = guid_part(g, 3);
    let e = guid_part(g, 4);
    assert(d.subrange(0, 2) =~= hex_digits(g.data4[0] as nat, 2));
    assert(d.subrange(2, 4) =~= hex_digits(g.data4[1] as nat, 2));
    assert(e.subrange(0, 2) =~= hex_digits(g.data4[2] as nat, 2));
    assert(e.subrange(2, 4) =~= hex_digits(g.data4[3] as nat, 2));
    assert(e.subrange(4, 6) =~= hex_digits(g.data4[4] as nat, 2));
    assert(e.subrange(6, 8) =~= hex_digits(g.data4[5] as nat, 2));
    assert(e.subrange(8, 10) =~= hex_digits(g.data4[6] as nat, 2));
    assert(e.subrange(10, 12) =~= hex_digits(g.data4[7] as nat, 2));
    assert(guid_bytes(d, e) =~= Some(guid_fields(g).3));
}

/// Reading back the canonical text of a GUID gives that GUID.
pub proof fn lemma_guid_round_trip(g: Guid)
    ensures
        guid_text(guid_string(g)) == Some(guid_fields(g)),
{
    lemma_guid_text_shape(g);
    assert(free_of(guid_part(g, 0), '-'));
    assert(free_of(guid_part(g, 1), '-'));
    assert(free_of(guid_part(g, 2), '-'));
    assert(free_of(guid_part(g, 3), '-'));
    assert(free_of(guid_part(g, 4), '-'));
    lemma_split_five(guid_part(g, 0), guid_part(g, 1), guid_part(g, 2), guid_part(g, 3),
        guid_part(g, 4));
    lemma_guid_part_values(g);
    let parts = split_on(strip_braces(trim(guid_string(g))), '-');
    assert(parts == seq![guid_part(g, 0), guid_part(g, 1), guid_part(g, 2), guid_part(g, 3),
        guid_part(g, 4)]);
    assert(guid_from_parts(parts) == Some(guid_fields(g)));
}


proof fn lemma_strip_one_pair(u: Seq<char>)
    requires
        u.len() > 0,
        !is_brace(u[0]),
        !is_brace(u.last()),
    ensures
        strip_braces(seq!['{'] + u + seq!['}']) == u,
{
    let b = seq!['{'] + u + seq!['}'];
    let t = u + seq!['}'];
    assert(b[0] == '{');
    assert(b.drop_first() =~= t);
    assert(strip_braces(b) == strip_braces(t));
    assert(t[0] == u[0]);
    assert(t.last() == '}');
    assert(t.drop_last() =~= u);
    assert(strip_braces(t) == strip_braces(u));
}

proof fn lemma_upper_free(p: Seq<char>)
    requires
        free_of(p, '-'),
    ensures
        free_of(upper_seq(p), '-'),
{
    assert forall|i: int| 0 <= i < upper_seq(p).len() implies upper_seq(p)[i] != '-' by {
        let c = p[i];
        if 'a' <= c && c <= 'z' {
            assert(ascii_upper(c) as int == c as int - 32);
        }
    }
}

proof fn lemma_upper_not_brace(c: char)
    requires
        !is_brace(c),
    ensures
        !is_brace(ascii_upper(c)),
{
    if 'a' <= c && c <= 'z' {
        assert(ascii_upper(c) as int == c as int - 32);
    }
}

/// The upper-case text of a GUID, part by part.
#[verifier::spinoff_prover]
#[verifier::rlimit(40)]
proof fn lemma_upper_guid_shape(g: Guid)
    ensures
        upper_seq(guid_string(g)) == upper_seq(guid_part(g, 0)) + seq!['-'] + upper_seq(guid_part(g, 1))
            + seq!['-'] + upper_seq(guid_part(g, 2)) + seq!['-'] + upper_seq(guid_part(g, 3)) + seq!['-']
            + upper_seq(guid_part(g, 4)),
        free_of(upper_seq(guid_part(g, 0)), '-'),
        free_of(upper_seq(guid_part(g, 1)), '-'),
        free_of(upper_seq(guid_part(g, 2)), '-'),
        free_of(upper_seq(guid_part(g, 3)), '-'),
        free_of(upper_seq(guid_part(g, 4)), '-'),
        upper_seq(guid_string(g)).len() > 0,
        !is_brace(upper_seq(guid_string(g))[0]),
        !is_brace(upper_seq(guid_string(g)).last()),
{
    lemma_guid_text_shape(g);
    lemma_pow16();
    lemma_hex_facts(g.data1 as nat, 8, 0xffff_ffff);
    lemma_hex_facts(g.data4[7] as nat, 2, 255);
    let d = seq!['-'];
    let p0 = guid_part(g, 0);
    let p1 = guid_part(g, 1);
    let p2 = guid_part(g, 2);
    let p3 = guid_part(g, 3);
    let p4 = guid_part(g, 4);
    let sg = guid_string(g);
    assert(upper_seq(d) =~= d);
    lemma_upper_seq_parts(p0, d, 0, 0);
    lemma_upper_seq_parts(p0 + d, p1, 0, 0);
    lemma_upper_seq_parts(p0 + d + p1, d, 0, 0);
    lemma_upper_seq_parts(p0 + d + p1 + d, p2, 0, 0);
    lemma_upper_seq_parts(p0 + d + p1 + d + p2, d, 0, 0);
    lemma_upper_seq_parts(p0 + d + p1 + d + p2 + d, p3, 0, 0);
    lemma_upper_seq_parts(p0 + d + p1 + d + p2 + d + p3, d, 0, 0);
    lemma_upper_seq_parts(p0 + d + p1 + d + p2 + d + p3 + d, p4, 0, 0);
    lemma_upper_free(p0);
    lemma_upper_free(p1);
    lemma_upper_free(p2);
    lemma_upper_free(p3);
    lemma_upper_free(p4);
    let last = hex_digits(g.data4[7] as nat, 2);
    let front = hex_digits(g.data4[2] as nat, 2) + hex_digits(g.data4[3] as nat, 2)
        + hex_digits(g.data4[4] as nat, 2) + hex_digits(g.data4[5] as nat, 2)
        + hex_digits(g.data4[6] as nat, 2);
    assert(p4 == front + last);
    assert(p4.last() == last.last());
    assert(sg == (p0 + d + p1 + d + p2 + d + p3 + d) + p4);
    assert(sg.last() == p4.last());
    assert(sg == p0 + (d + p1 + d + p2 + d + p3 + d + p4));
    assert(sg[0] == p0[0]);
    let u = upper_seq(sg);
    assert(u[0] == ascii_upper(sg[0]));
    assert(u[u.len() - 1] == ascii_upper(sg[sg.len() - 1]));
    assert(sg[sg.len() - 1] == sg.last());
    lemma_upper_not_brace(sg[0]);
    lemma_upper_not_brace(sg.last());
}

/// Each two-digit byte of a part reads the same in upper case.
proof fn lemma_bytes_upper(p: Seq<char>, k: int)
    requires
        0 <= k,
        2 * k + 2 <= p.len(),
    ensures
        byte_of(upper_seq(p), k) == byte_of(p, k),
{
    lemma_upper_seq_parts(p, seq!['-'], 2 * k, 2 * k + 2);
    lemma_unsigned_in_upper(p.subrange(2 * k, 2 * k + 2), 16, 255);
}

/// Parts denote the same fields whatever the case of their digits.
#[verifier::spinoff_prover]
#[verifier::rlimit(40)]
proof fn lemma_from_parts_upper(a: Seq<char>, b: Seq<char>, c: Seq<char>, d: Seq<char>, e: Seq<char>)
    ensures
        guid_from_parts(seq![upper_seq(a), upper_seq(b), upper_seq(c), upper_seq(d), upper_seq(e)])
            == guid_from_parts(seq![a, b, c, d, e]),
{
    let z = seq!['-'];
    lemma_upper_seq_parts(d, z, 0, 0);
    lemma_upper_seq_parts(e, z, 0, 0);
    if d.len() == 4 && e.len() == 12 {
        lemma_unsigned_in_upper(a, 16, 0xffff_ffff);
        lemma_unsigned_in_upper(b, 16, 0xffff);
        lemma_unsigned_in_upper(c, 16, 0xffff);
        lemma_bytes_upper(d, 0);
        lemma_bytes_upper(d, 1);
        lemma_bytes_upper(e, 0);
        lemma_bytes_upper(e, 1);
        lemma_bytes_upper(e, 2);
        lemma_bytes_upper(e, 3);
        lemma_bytes_upper(e, 4);
        lemma_bytes_upper(e, 5);
        assert(guid_bytes(upper_seq(d), upper_seq(e)) == guid_bytes(d, e));
    }
    let u = seq![upper_seq(a), upper_seq(b), upper_seq(c), upper_seq(d), upper_seq(e)];
    let v = seq![a, b, c, d, e];
    assert(u[0] == upper_seq(a) && u[1] == upper_seq(b) && u[2] == upper_seq(c) && u[3] == upper_seq(d)
        && u[4] == upper_seq(e));
    assert(v[0] == a && v[1] == b && v[2] == c && v[3] == d && v[4] == e);
}

#[verifier::spinoff_prover]
#[verifier::rlimit(40)]
proof fn lemma_parts_fields(g: Guid)
    ensures
        guid_from_parts(seq![guid_part(g, 0), guid_part(g, 1), guid_part(g, 2), guid_part(g, 3), guid_part(g, 4)])
            == Some(guid_fields(g)),
{
    lemma_guid_text_shape(g);
    lemma_split_five(guid_part(g, 0), guid_part(g, 1), guid_part(g, 2), guid_part(g, 3), guid_part(g, 4));
    lemma_guid_round_trip(g);
}

#[verifier::spinoff_prover]
#[verifier::rlimit(40)]
proof fn lemma_upper_split(g: Guid)
    ensures
        split_on(upper_seq(guid_string(g)), '-') == seq![upper_seq(guid_part(g, 0)), upper_seq(guid_part(g, 1)),
            upper_seq(guid_part(g, 2)), upper_seq(guid_part(g, 3)), upper_seq(guid_part(g, 4))],
{
    lemma_upper_guid_shape(g);
    lemma_split_five(upper_seq(guid_part(g, 0)), upper_seq(guid_part(g, 1)), upper_seq(guid_part(g, 2)),
        upper_seq(guid_part(g, 3)), upper_seq(guid_part(g, 4)));
}

#[verifier::spinoff_prover]
#[verifier::rlimit(40)]
proof fn lemma_upper_fields(g: Guid)
    ensures
        guid_from_parts(split_on(upper_seq(guid_string(g)), '-')) == Some(guid_fields(g)),
{
    lemma_upper_split(g);
    lemma_parts_fields(g);
    lemma_from_parts_upper(guid_part(g, 0), guid_part(g, 1), guid_part(g, 2), guid_part(g, 3), guid_part(g, 4));
}

proof fn lemma_upper_ends(g: Guid)
    ensures
        upper_seq(guid_string(g)).len() > 0,
        !is_brace(upper_seq(guid_string(g))[0]),
        !is_brace(upper_seq(guid_string(g)).last()),
{
    lemma_upper_guid_shape(g);
}

/// A GUID's text also reads back in upper case, inside braces and with white
/// space around it, the forms in which desktop ids are handed around.
pub proof fn lemma_guid_decorated_round_trip(g: Guid, lead: Seq<char>, trail: Seq<char>)
    requires
        forall|i: int| 0 <= i < lead.len() ==> is_white_space(#[trigger] lead[i]),
        forall|i: int| 0 <= i < trail.len() ==> is_white_space(#[trigger] trail[i]),
    ensures
        guid_text(lead + seq!['{'] + upper_seq(guid_string(g)) + seq!['}'] + trail) == Some(guid_fields(g)),
{
    lemma_upper_ends(g);
    lemma_upper_fields(g);
    let u = upper_seq(guid_string(g));
    let b = seq!['{'] + u + seq!['}'];
    let x = lead + seq!['{'] + u + seq!['}'] + trail;
    assert(x =~= lead + (b + trail));
    lemma_trim_start_pad(lead, b + trail);
    assert((b + trail)[0] == '{');
    assert(trim_start(b + trail) == b + trail);
    lemma_trim_end_pad(b, trail);
    assert(b.last() == '}');
    assert(trim_end(b) == b);
    assert(trim(x) == b);
    lemma_strip_one_pair(u);
}

/// `0x` and the eight hexadecimal digits of an HRESULT's bits.
pub open spec fn hresult_text(code: i32) -> Seq<char> {
    let bits: int = if code < 0 { code + 0x1_0000_0000 } else { code as int };
    seq!['0', 'x'] + hex_digits(bits as nat, 8)
}

/// `<call> failed: 0x<code>`, the message for a failed COM call.
pub open spec fn failure_text(call: Seq<char>, code: i32) -> Seq<char> {
    call + " failed: "@ + hresult_text(code)
}

pub fn failure(call: &str, code: i32) -> (r: String)
    ensures
        r@ == failure_text(call@, code),
{
    let bits: u64 = if code < 0 { (code as i64 + 0x1_0000_0000) as u64 } else { code as u64 };
    let mut text: Vec<char> = Vec::new();
    text.push('0');
    text.push('x');
    let mut digits = hex_of(bits, 8);
    text.append(&mut digits);
    let prefix = concat_str(call, " failed: ");
    let code_text = string_from_chars(text.as_slice());
    proof {
        assert(text@ =~= hresult_text(code));
    }
    concat_str(prefix.as_str(), code_text.as_str())
}

pub const RPC_E_CHANGED_MODE: i32 = -2147417850;

/// What `CoInitializeEx`'s result means: whether this manager must
/// uninitialise COM when it is dropped, or why it cannot be used.
pub fn com_initialized(initialized: i32) -> (r: Result<bool, String>)
    ensures
        initialized >= 0 ==> r == Ok::<bool, String>(true),
        initialized == RPC_E_CHANGED_MODE ==> r == Ok::<bool, String>(false),
        initialized < 0 && initialized != RPC_E_CHANGED_MODE ==> (r matches Err(e)
            && e@ == failure_text("CoInitializeEx"@, initialized)),
{
    if initialized >= 0 {
        Ok(true)
    } else if initialized == RPC_E_CHANGED_MODE {
        Ok(false)
    } else {
        Err(failure("CoInitializeEx", initialized))
    }
}

/// What `CoCreateInstance`'s result means for the desktop manager.
pub fn manager_created(result: i32, object_is_null: bool) -> (r: Result<(), String>)
    ensures
        result >= 0 && !object_is_null ==> r is Ok,
        (result < 0 || object_is_null) ==> (r matches Err(e)
            && e@ == "VirtualDesktopManager is unavailable: "@ + hresult_text(result)),
{
    if result < 0 || object_is_null {
        let bits: u64 = if result < 0 { (result as i64 + 0x1_0000_0000) as u64 } else { result as u64 };
        let mut text: Vec<char> = Vec::new();
        text.push('0');
        text.push('x');
        let mut digits = hex_of(bits, 8);
        text.append(&mut digits);
        proof {
            assert(text@ =~= hresult_text(result));
        }
        let code_text = string_from_chars(text.as_slice());
        Err(concat_str("VirtualDesktopManager is unavailable: ", code_text.as_str()))
    } else {
        Ok(())
    }
}

/// Which desktop a window is on, and whether that is the current one.
#[derive(Clone, Debug)]
pub struct WindowWorkspaceInfo {
    pub desktop_id: String,
    pub on_current_workspace: bool,
}

/// What the desktop manager's two answers about a window mean:
/// `GetWindowDesktopId` gave `desktop_result` and `id`, then
/// `IsWindowOnCurrentVirtualDesktop` gave `current_result` and `current`.
pub fn window_info(desktop_result: i32, id: Guid, current_result: i32, current: i32) -> (r: Result<
    WindowWorkspaceInfo,
    String,
>)
    ensures
        desktop_result < 0 ==> (r matches Err(e) && e@ == failure_text(
            "GetWindowDesktopId"@,
            desktop_result,
        )),
        desktop_result >= 0 && current_result < 0 ==> (r matches Err(e) && e@ == failure_text(
            "IsWindowOnCurrentVirtualDesktop"@,
            current_result,
        )),
        desktop_result >= 0 && current_result >= 0 ==> (r matches Ok(info)
            && info.desktop_id@ == guid_string(id) && info.on_current_workspace == (current != 0)),
{
    if desktop_result < 0 {
        return Err(failure("GetWindowDesktopId", desktop_result));
    }
    if current_result < 0 {
        return Err(failure("IsWindowOnCurrentVirtualDesktop", current_result));
    }
    Ok(WindowWorkspaceInfo { desktop_id: id.as_string(), on_current_workspace: current != 0 })
}

/// What `MoveWindowToDesktop`'s result means.
pub fn move_result(result: i32) -> (r: Result<(), String>)
    ensures
        result >= 0 ==> r is Ok,
        result < 0 ==> (r matches Err(e) && e@ == failure_text("MoveWindowToDesktop"@, result)),
{
    if result < 0 {
        Err(failure("MoveWindowToDesktop", result))
    } else {
        Ok(())
    }
}

/// The arrow key of a workspace switch: left for a negative direction, right
/// for a positive one (`i32::signum`), none for zero.
pub open spec fn direction_arrow(direction: i32) -> Option<u16> {
    if direction < 0 {
        Some(VK_LEFT)
    } else if direction > 0 {
        Some(VK_RIGHT)
    } else {
        None
    }
}

/// The Win+Ctrl+arrow chord that switches to the neighbouring virtual
/// desktop in `direction`.
pub fn navigate(direction: i32) -> (r: Result<Vec<Input>, String>)
    ensures
        direction == 0 ==> (r matches Err(e) && e@ == "workspace direction must be -1 or 1"@),
        direction != 0 ==> (r matches Ok(v) && v@ == chord_events(
            seq![VK_LWIN, VK_CONTROL, direction_arrow(direction).unwrap()],
        )),
{
    let arrow = if direction < 0 {
        VK_LEFT
    } else if direction > 0 {
        VK_RIGHT
    } else {
        return Err(String::from_str("workspace direction must be -1 or 1"));
    };
    let keys: [u16; 3] = [VK_LWIN, VK_CONTROL, arrow];
    assert(keys@ =~= seq![VK_LWIN, VK_CONTROL, direction_arrow(direction).unwrap()]);
    Ok(chord(&keys))
}

/// What `SendInput`'s count of accepted events means for a workspace switch.
pub fn check_sent(sent: u32, count: usize) -> (r: Result<(), String>)
    ensures
        sent as int == count as int ==> r is Ok,
        sent as int != count as int ==> (r matches Err(e)
            && e@ == "Windows did not accept the workspace navigation input"@),
{
    if all_sent(sent, count) {
        Ok(())
    } else {
        Err(String::from_str("Windows did not accept the workspace navigation input"))
    }
}

/// Reads a window handle given as decimal text.
pub fn parse_handle(handle: &str) -> (r: Result<isize, String>)
    ensures
        handle_text(handle@) is None ==> (r matches Err(e) && e@ == "invalid window handle"@),
        handle_text(handle@) is Some ==> r == Ok::<isize, String>(
            handle_text(handle@).unwrap() as isize,
        ),
{
    match parse_isize(handle) {
        Some(h) => Ok(h),
        None => Err(String::from_str("invalid window handle")),
    }
}

/// The views of a journal's entries: each window handle's text with the text
/// of the desktop it came from.
pub open spec fn entry_views(v: Seq<(String, String)>) -> Seq<(Seq<char>, Seq<char>)> {
    v.map_values(|e: (String, String)| (e.0@, e.1@))
}

/// Whether a handle has an entry in the journal.
pub open spec fn journaled(entries: Seq<(Seq<char>, Seq<char>)>, handle: Seq<char>) -> bool {
    exists|i: int| 0 <= i < entries.len() && #[trigger] entries[i].0 == handle
}

/// No handle has two entries.
pub open spec fn handles_unique(entries: Seq<(Seq<char>, Seq<char>)>) -> bool {
    forall|i: int, j: int| 0 <= i < j < entries.len() ==> #[trigger] entries[i].0 != #[trigger] entries[j].0
}

/// The journal after a window on `origin` is sent to `target`: a move to the
/// desktop it is already on (ignoring ASCII case) records nothing, and a
/// window keeps the first desktop it was moved away from.
pub open spec fn after_move(
    entries: Seq<(Seq<char>, Seq<char>)>,
    handle: Seq<char>,
    origin: Seq<char>,
    target: Seq<char>,
) -> Seq<(Seq<char>, Seq<char>)> {
    if same_ignoring_ascii_case(origin, target) || journaled(entries, handle) {
        entries
    } else {
        entries.push((handle, origin))
    }
}

/// The desktops that windows were moved away from, so that the moves can be
/// undone, most recent last.
pub struct WorkspaceMoveJournal {
    original_desktops: Vec<(String, String)>,
}

impl WorkspaceMoveJournal {
    pub closed spec fn entries(&self) -> Seq<(Seq<char>, Seq<char>)> {
        entry_views(self.original_desktops@)
    }

    pub open spec fn wf(&self) -> bool {
        handles_unique(self.entries())
    }

    pub fn new() -> (r: Self)
        ensures
            r.entries() == Seq::<(Seq<char>, Seq<char>)>::empty(),
            r.wf(),
    {
        let r = WorkspaceMoveJournal { original_desktops: Vec::new() };
        assert(r.entries() =~= Seq::<(Seq<char>, Seq<char>)>::empty());
        r
    }

    fn has_handle(&self, handle: &str) -> (r: bool)
        ensures
            r == journaled(self.entries(), handle@),
    {
        let wanted = String::from_str(handle);
        let mut i: usize = 0;
        while i < self.original_desktops.len()
            invariant
                i <= self.original_desktops@.len(),
                wanted@ == handle@,
                forall|k: int| 0 <= k < i ==> #[trigger] self.entries()[k].0 != handle@,
            decreases self.original_desktops@.len() - i,
        {
            if self.original_desktops[i].0 == wanted {
                assert(self.entries()[i as int].0 == handle@);
                return true;
            }
            i = i + 1;
        }
        false
    }

    /// Notes that the window `handle`, now on `origin`, is about to be sent to
    /// `target`, and says whether it has to move at all.
    pub fn record_move(&mut self, handle: &str, origin: &str, target: &str) -> (r: bool)
        requires
            old(self).wf(),
        ensures
            final(self).wf(),
            r == !same_ignoring_ascii_case(origin@, target@),
            final(self).entries() == after_move(old(self).entries(), handle@, origin@, target@),
    {
        if eq_ignore_ascii_case(origin, target) {
            return false;
        }
        if !self.has_handle(handle) {
            let ghost before = self.entries();
            self.original_desktops.push((String::from_str(handle), String::from_str(origin)));
            assert(self.entries() =~= before.push((handle@, origin@)));
            assert(handles_unique(self.entries())) by {
                assert forall|i: int, j: int| 0 <= i < j < self.entries().len() implies
                    #[trigger] self.entries()[i].0 != #[trigger] self.entries()[j].0 by {
                    if j == before.len() {
                        assert(self.entries()[i] == before[i]);
                    }
                }
            }
        }
        true
    }

    /// Takes the most recent entry: the window to send back and the desktop
    /// it came from.
    pub fn undo_last(&mut self) -> (r: Option<(String, String)>)
        requires
            old(self).wf(),
        ensures
            final(self).wf(),
            old(self).entries().len() == 0 ==> r is None && final(self).entries() == old(self).entries(),
            old(self).entries().len() > 0 ==> (r matches Some(e) && (e.0@, e.1@) == old(
                self,
            ).entries().last() && final(self).entries() == old(self).entries().drop_last()),
    {
        let ghost before = self.entries();
        let r = self.original_desktops.pop();
        proof {
            if before.len() > 0 {
                assert(self.entries() =~= before.drop_last());
            } else {
                assert(self.entries() =~= before);
            }
        }
        r
    }

    /// How many moves can still be undone.
    pub fn pending_count(&self) -> (r: usize)
        ensures
            r == self.entries().len(),
    {
        self.original_desktops.len()
    }
}

/// Undoing right after a move that was recorded takes back exactly that
/// move: the window returns to the desktop it came from and the journal is
/// as before.
pub proof fn lemma_undo_reverses_move(
    entries: Seq<(Seq<char>, Seq<char>)>,
    handle: Seq<char>,
    origin: Seq<char>,
    target: Seq<char>,
)
    requires
        !same_ignoring_ascii_case(origin, target),
        !journaled(entries, handle),
    ensures
        after_move(entries, handle, origin, target).last() == (handle, origin),
        after_move(entries, handle, origin, target).drop_last() == entries,
{
    assert(entries.push((handle, origin)).drop_last() =~= entries);
}

/// A window moved twice keeps the desktop it was first moved away from, so
/// undoing brings it back to where the user first had it.
pub proof fn lemma_first_origin_kept(
    entries: Seq<(Seq<char>, Seq<char>)>,
    handle: Seq<char>,
    origin1: Seq<char>,
    target1: Seq<char>,
    origin2: Seq<char>,
    target2: Seq<char>,
)
    requires
        !same_ignoring_ascii_case(origin1, target1),
        !journaled(entries, handle),
    ensures
        after_move(after_move(entries, handle, origin1, target1), handle, origin2, target2)
            == after_move(entries, handle, origin1, target1),
{
    let once = after_move(entries, handle, origin1, target1);
    assert(once[once.len() - 1].0 == handle);
}

/// A move to the desktop a window is already on records nothing.
pub proof fn lemma_same_desktop_records_nothing(
    entries: Seq<(Seq<char>, Seq<char>)>,
    handle: Seq<char>,
    origin: Seq<char>,
    target: Seq<char>,
)
    requires
        same_ignoring_ascii_case(origin, target),
    ensures
        after_move(entries, handle, origin, target) == entries,
{
}

} // verus!
