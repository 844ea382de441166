//! Character-level helpers shared by the shell's parsers and formatters.
use vstd::prelude::*;
use vstd::string::*;

verus! {

/// `String::push` appends one character; std documents exactly that.
pub assume_specification[ String::push ](string: &mut String, ch: char)
    ensures
        final(string)@ == old(string)@.push(ch),
;

/// The characters of a string slice, in order.
pub fn chars_of(s: &str) -> (v: Vec<char>)
    ensures
        v@ == s@,
{
    let n = s.unicode_len();
    let mut v: Vec<char> = Vec::new();
    let mut i: usize = 0;
    while i < n
        invariant
            n == s@.len(),
            i <= n,
            v@ == s@.subrange(0, i as int),
        decreases n - i,
    {
        v.push(s.get_char(i));
        i = i + 1;
        assert(v@ =~= s@.subrange(0, i as int));
    }
    assert(v@ =~= s@);
    v
}

/// A string holding the given characters.
pub fn string_from_chars(v: &[char]) -> (s: String)
    ensures
        s@ == v@,
{
    let mut s = String::new();
    let mut i: usize = 0;
    while i < v.len()
        invariant
            i <= v@.len(),
            s@ == v@.subrange(0, i as int),
        decreases v@.len() - i,
    {
        s.push(v[i]);
        i = i + 1;
        assert(s@ =~= v@.subrange(0, i as int));
    }
    assert(s@ =~= v@);
    s
}


/// Unicode scalar values: the integers that `char` can hold.
pub open spec fn is_scalar_value(v: u32) -> bool {
    v <= 0x10FFFF && !(0xD800 <= v && v <= 0xDFFF)
}

/// `char::from_u32` yields the character with that scalar value, and `None`
/// for surrogates and values above U+10FFFF, as std documents.
pub assume_specification[ char::from_u32 ](i: u32) -> (r: Option<char>)
    ensures
        r == (if is_scalar_value(i) { Some(i as char) } else { None }),
;

/// ASCII lower-casing of one character (`char::to_ascii_lowercase`).
pub open spec fn ascii_lower(c: char) -> char {
    if 'A' <= c && c <= 'Z' {
        ((c as u32) + 32) as char
    } else {
        c
    }
}

/// ASCII upper-casing of one character (`char::to_ascii_uppercase`).
pub open spec fn ascii_upper(c: char) -> char {
    if 'a' <= c && c <= 'z' {
        ((c as u32) - 32) as char
    } else {
        c
    }
}

/// ASCII upper-casing of a character sequence (`str::to_ascii_uppercase`).
pub open spec fn upper_seq(s: Seq<char>) -> Seq<char> {
    s.map_values(|c: char| ascii_upper(c))
}

/// ASCII lower-casing of a character sequence (`str::to_ascii_lowercase`).
pub open spec fn lower_seq(s: Seq<char>) -> Seq<char> {
    s.map_values(|c: char| ascii_lower(c))
}

pub fn lower_char(c: char) -> (r: char)
    ensures
        r == ascii_lower(c),
{
    if 'A' <= c && c <= 'Z' {
        let v: u32 = (c as u32) + 32;
        match char::from_u32(v) {
            Some(l) => l,
            None => c,
        }
    } else {
        c
    }
}

pub fn lower_chars(s: &[char]) -> (r: Vec<char>)
    ensures
        r@ == lower_seq(s@),
{
    let mut r: Vec<char> = Vec::new();
    let mut i: usize = 0;
    while i < s.len()
        invariant
            i <= s@.len(),
            r@ == lower_seq(s@.subrange(0, i as int)),
        decreases s@.len() - i,
    {
        r.push(lower_char(s[i]));
        i = i + 1;
        assert(r@ =~= lower_seq(s@.subrange(0, i as int)));
    }
    assert(s@.subrange(0, s@.len() as int) =~= s@);
    r
}


/// Lexicographic order on character sequences, comparing scalar values
/// (the order of `str` and `String`).
pub open spec fn lex_lt(a: Seq<char>, b: Seq<char>) -> bool
    decreases a.len(),
{
    if a.len() == 0 {
        b.len() > 0
    } else if b.len() == 0 {
        false
    } else if a[0] != b[0] {
        a[0] < b[0]
    } else {
        lex_lt(a.drop_first(), b.drop_first())
    }
}

pub proof fn lemma_lex_irreflexive(a: Seq<char>)
    ensures
        !lex_lt(a, a),
    decreases a.len(),
{
    if a.len() > 0 {
        lemma_lex_irreflexive(a.drop_first());
    }
}

pub proof fn lemma_lex_trichotomy(a: Seq<char>, b: Seq<char>)
    ensures
        lex_lt(a, b) || a == b || lex_lt(b, a),
        !(lex_lt(a, b) && lex_lt(b, a)),
    decreases a.len(),
{
    if a.len() > 0 && b.len() > 0 {
        lemma_lex_trichotomy(a.drop_first(), b.drop_first());
        if a[0] == b[0] && a.drop_first() == b.drop_first() {
            assert(a =~= seq![a[0]] + a.drop_first());
            assert(b =~= seq![b[0]] + b.drop_first());
        }
    } else if a.len() == 0 && b.len() == 0 {
        assert(a =~= b);
    }
}

pub proof fn lemma_lex_transitive(a: Seq<char>, b: Seq<char>, c: Seq<char>)
    requires
        lex_lt(a, b),
        lex_lt(b, c),
    ensures
        lex_lt(a, c),
    decreases a.len(),
{
    if a.len() > 0 && b.len() > 0 && c.len() > 0 {
        if a[0] == b[0] && b[0] == c[0] {
            lemma_lex_transitive(a.drop_first(), b.drop_first(), c.drop_first());
        }
    }
}

/// Exact three-way comparison: `-1`, `0` or `1` as `a` is below, equal to or
/// above `b` in lexicographic order.
pub fn compare_chars(a: &[char], b: &[char]) -> (r: i8)
    ensures
        r == -1 <==> lex_lt(a@, b@),
        r == 0 <==> a@ == b@,
        r == 1 <==> lex_lt(b@, a@),
        r == -1 || r == 0 || r == 1,
{
    proof {
        lemma_lex_trichotomy(a@, b@);
        assert(a@.skip(0) =~= a@);
        assert(b@.skip(0) =~= b@);
    }
    let mut i: usize = 0;
    while i < a.len() && i < b.len()
        invariant
            i <= a@.len(),
            i <= b@.len(),
            a@.subrange(0, i as int) == b@.subrange(0, i as int),
            lex_lt(a@, b@) == lex_lt(a@.skip(i as int), b@.skip(i as int)),
            lex_lt(b@, a@) == lex_lt(b@.skip(i as int), a@.skip(i as int)),
        decreases a@.len() - i,
    {
        let x = a[i];
        let y = b[i];
        if x != y {
            proof {
                assert(a@.skip(i as int)[0] == x);
                assert(b@.skip(i as int)[0] == y);
            }
            if x < y {
                return -1;
            } else {
                return 1;
            }
        }
        proof {
            assert(a@.skip(i as int).drop_first() =~= a@.skip(i + 1));
            assert(b@.skip(i as int).drop_first() =~= b@.skip(i + 1));
            assert(a@.subrange(0, i + 1) =~= a@.subrange(0, i as int).push(x));
            assert(b@.subrange(0, i + 1) =~= b@.subrange(0, i as int).push(y));
        }
        i = i + 1;
    }
    if a.len() == b.len() {
        proof {
            assert(a@ =~= a@.subrange(0, i as int));
            assert(b@ =~= b@.subrange(0, i as int));
        }
        0
    } else if i == a.len() {
        proof {
            assert(a@.skip(i as int).len() == 0);
            assert(a@ != b@);
        }
        -1
    } else {
        proof {
            assert(b@.skip(i as int).len() == 0);
            assert(a@ != b@);
        }
        1
    }
}

/// Character-wise equality.
pub fn chars_eq(a: &[char], b: &[char]) -> (r: bool)
    ensures
        r == (a@ == b@),
{
    compare_chars(a, b) == 0
}

/// `needle` occurs in `hay` starting at index `i`.
pub open spec fn occurs_at(hay: Seq<char>, needle: Seq<char>, i: int) -> bool {
    0 <= i && i + needle.len() <= hay.len() && hay.subrange(i, i + needle.len()) == needle
}

/// `str::contains` for a string pattern.
pub open spec fn has_substring(hay: Seq<char>, needle: Seq<char>) -> bool {
    exists|i: int| occurs_at(hay, needle, i)
}

/// `str::ends_with` for a string pattern.
pub open spec fn has_suffix(hay: Seq<char>, needle: Seq<char>) -> bool {
    needle.len() <= hay.len() && hay.subrange(hay.len() - needle.len(), hay.len() as int) == needle
}

fn matches_at(hay: &[char], needle: &[char], i: usize) -> (r: bool)
    requires
        i + needle@.len() <= hay@.len(),
    ensures
        r == occurs_at(hay@, needle@, i as int),
{
    let mut k: usize = 0;
    let hl = hay.len();
    while k < needle.len()
        invariant
            k <= needle@.len(),
            i + needle@.len() <= hay@.len(),
            hl == hay@.len(),
            forall|j: int| 0 <= j < k ==> hay@[i + j] == needle@[j],
        decreases needle@.len() - k,
    {
        if hay[i + k] != needle[k] {
            proof {
                assert(hay@.subrange(i as int, i + needle@.len())[k as int] != needle@[k as int]);
            }
            return false;
        }
        k = k + 1;
    }
    proof {
        assert(hay@.subrange(i as int, i + needle@.len()) =~= needle@);
    }
    true
}

pub fn contains_chars(hay: &[char], needle: &[char]) -> (r: bool)
    ensures
        r == has_substring(hay@, needle@),
{
    if needle.len() > hay.len() {
        return false;
    }
    let last: usize = hay.len() - needle.len();
    let mut i: usize = 0;
    while i < last
        invariant
            last == hay@.len() - needle@.len(),
            i <= last,
            forall|j: int| 0 <= j < i ==> !occurs_at(hay@, needle@, j),
        decreases last - i,
    {
        if matches_at(hay, needle, i) {
            return true;
        }
        i = i + 1;
    }
    matches_at(hay, needle, last)
}

pub fn ends_with_chars(hay: &[char], needle: &[char]) -> (r: bool)
    ensures
        r == has_suffix(hay@, needle@),
{
    if needle.len() > hay.len() {
        return false;
    }
    let start: usize = hay.len() - needle.len();
    let r = matches_at(hay, needle, start);
    proof {
        assert(start + needle@.len() == hay@.len());
    }
    r
}


/// The character sequences of a list of strings.
pub open spec fn views(v: Seq<String>) -> Seq<Seq<char>> {
    v.map_values(|s: String| s@)
}

/// Every element is strictly below every later one: sorted, no repeats.
pub open spec fn strictly_sorted(s: Seq<Seq<char>>) -> bool {
    forall|i: int, j: int| 0 <= i < j < s.len() ==> lex_lt(#[trigger] s[i], #[trigger] s[j])
}

/// Inserts `item` into a strictly sorted list of strings unless it is
/// already there; the list stays strictly sorted.
pub fn insert_sorted_unique(out: &mut Vec<String>, item: String)
    requires
        strictly_sorted(views(old(out)@)),
    ensures
        strictly_sorted(views(final(out)@)),
        forall|x: Seq<char>|
            views(final(out)@).contains(x) <==> (views(old(out)@).contains(x) || x == item@),
{
    let ghost s = views(out@);
    let ic = chars_of(item.as_str());
    let mut j: usize = 0;
    let mut found = false;
    let mut stop = false;
    while j < out.len() && !stop
        invariant
            out@ == old(out)@,
            s == views(out@),
            ic@ == item@,
            j <= out@.len(),
            forall|k: int| 0 <= k < j ==> lex_lt(#[trigger] s[k], item@),
            found ==> stop && j < out@.len() && s[j as int] == item@,
            stop && !found ==> j < out@.len() && lex_lt(item@, s[j as int]),
        decreases out@.len() - j + (if stop { 0int } else { 1int }),
    {
        let oc = chars_of(out[j].as_str());
        let c = compare_chars(oc.as_slice(), ic.as_slice());
        if c == -1 {
            j = j + 1;
        } else if c == 0 {
            found = true;
            stop = true;
        } else {
            stop = true;
        }
    }
    if found {
        proof {
            assert forall|x: Seq<char>|
                views(out@).contains(x) <==> (s.contains(x) || x == item@) by {
                if x == item@ {
                    assert(s[j as int] == x);
                }
            }
        }
        return;
    }
    proof {
        assert forall|k: int| j <= k < s.len() implies lex_lt(item@, #[trigger] s[k]) by {
            if k > j {
                lemma_lex_transitive(item@, s[j as int], s[k]);
            }
        }
    }
    out.insert(j, item);
    proof {
        let t = views(out@);
        assert(t =~= s.insert(j as int, item@));
        assert forall|a: int, b: int| 0 <= a < b < t.len() implies lex_lt(
            #[trigger] t[a],
            #[trigger] t[b],
        ) by {
            if b < j {
            } else if b == j {
            } else if a < j {
                assert(t[b] == s[b - 1]);
                lemma_lex_transitive(s[a], item@, s[b - 1]);
            } else if a == j {
                assert(t[b] == s[b - 1]);
            } else {
                assert(t[a] == s[a - 1]);
                assert(t[b] == s[b - 1]);
            }
        }
        assert forall|x: Seq<char>| t.contains(x) <==> (s.contains(x) || x == item@) by {
            if t.contains(x) {
                let k = choose|k: int| 0 <= k < t.len() && t[k] == x;
                if k < j {
                    assert(s[k] == x);
                } else if k > j {
                    assert(s[k - 1] == x);
                }
            }
            if s.contains(x) {
                let k = choose|k: int| 0 <= k < s.len() && s[k] == x;
                if k < j {
                    assert(t[k] == x);
                } else {
                    assert(t[k + 1] == x);
                }
            }
            if x == item@ {
                assert(t[j as int] == x);
            }
        }
    }
}

/// The distinct strings of `items` in strictly increasing order (what
/// `sort` followed by `dedup` yields).
pub fn sorted_unique(items: &Vec<String>) -> (r: Vec<String>)
    ensures
        strictly_sorted(views(r@)),
        forall|x: Seq<char>| views(r@).contains(x) <==> views(items@).contains(x),
{
    let mut out: Vec<String> = Vec::new();
    let ghost orig = views(items@);
    let mut i: usize = 0;
    while i < items.len()
        invariant
            orig == views(items@),
            i <= items@.len(),
            strictly_sorted(views(out@)),
            forall|x: Seq<char>|
                views(out@).contains(x) <==> orig.subrange(0, i as int).contains(x),
        decreases items@.len() - i,
    {
        let item = items[i].clone();
        let ghost iv = item@;
        assert(iv == orig[i as int]);
        insert_sorted_unique(&mut out, item);
        proof {
            assert forall|x: Seq<char>|
                views(out@).contains(x) <==> orig.subrange(0, i + 1).contains(x) by {
                let pre = orig.subrange(0, i as int);
                let post = orig.subrange(0, i + 1);
                assert(post =~= pre.push(orig[i as int]));
                if pre.contains(x) {
                    let k = choose|k: int| 0 <= k < pre.len() && pre[k] == x;
                    assert(post[k] == x);
                }
                if post.contains(x) {
                    let k = choose|k: int| 0 <= k < post.len() && post[k] == x;
                    if k < i {
                        assert(pre[k] == x);
                    }
                }
                if x == iv {
                    assert(post[i as int] == x);
                }
            }
        }
        i = i + 1;
    }
    proof {
        assert(orig.subrange(0, items@.len() as int) =~= orig);
    }
    out
}


/// Unicode `White_Space`, the set that `char::is_whitespace` and
/// `str::trim` use.
pub open spec fn is_white_space(c: char) -> bool {
    ('\u{9}' <= c && c <= '\u{d}') || c == ' ' || c == '\u{85}' || c == '\u{a0}'
        || c == '\u{1680}' || ('\u{2000}' <= c && c <= '\u{200a}') || c == '\u{2028}'
        || c == '\u{2029}' || c == '\u{202f}' || c == '\u{205f}' || c == '\u{3000}'
}

pub fn white_space(c: char) -> (r: bool)
    ensures
        r == is_white_space(c),
{
    ('\u{9}' <= c && c <= '\u{d}') || c == ' ' || c == '\u{85}' || c == '\u{a0}'
        || c == '\u{1680}' || ('\u{2000}' <= c && c <= '\u{200a}') || c == '\u{2028}'
        || c == '\u{2029}' || c == '\u{202f}' || c == '\u{205f}' || c == '\u{3000}'
}

/// `s` without its leading white space.
pub open spec fn trim_start(s: Seq<char>) -> Seq<char>
    decreases s.len(),
{
    if s.len() > 0 && is_white_space(s[0]) {
        trim_start(s.drop_first())
    } else {
        s
    }
}

/// `s` without its trailing white space.
pub open spec fn trim_end(s: Seq<char>) -> Seq<char>
    decreases s.len(),
{
    if s.len() > 0 && is_white_space(s.last()) {
        trim_end(s.drop_last())
    } else {
        s
    }
}

/// `str::trim`: `s` without leading and trailing white space.
pub open spec fn trim(s: Seq<char>) -> Seq<char> {
    trim_end(trim_start(s))
}

pub fn trim_chars(s: &[char]) -> (r: Vec<char>)
    ensures
        r@ == trim(s@),
{
    let n = s.len();
    let mut i: usize = 0;
    proof {
        assert(s@.skip(0) =~= s@);
    }
    while i < n && white_space(s[i])
        invariant
            n == s@.len(),
            i <= n,
            trim_start(s@) == trim_start(s@.skip(i as int)),
        decreases n - i,
    {
        proof {
            assert(s@.skip(i as int).drop_first() =~= s@.skip(i + 1));
        }
        i = i + 1;
    }
    proof {
        assert(trim_start(s@.skip(i as int)) == s@.skip(i as int));
    }
    let mut j: usize = n;
    proof {
        assert(s@.subrange(i as int, n as int) =~= s@.skip(i as int));
    }
    while j > i && white_space(s[j - 1])
        invariant
            n == s@.len(),
            i <= j <= n,
            trim(s@) == trim_end(s@.subrange(i as int, j as int)),
        decreases j,
    {
        proof {
            assert(s@.subrange(i as int, j as int).drop_last() =~= s@.subrange(i as int, j - 1));
        }
        j = j - 1;
    }
    let mut r: Vec<char> = Vec::new();
    let mut k: usize = i;
    while k < j
        invariant
            i <= k <= j <= n,
            n == s@.len(),
            r@ == s@.subrange(i as int, k as int),
        decreases j - k,
    {
        r.push(s[k]);
        k = k + 1;
        proof {
            assert(r@ =~= s@.subrange(i as int, k as int));
        }
    }
    r
}

/// `str::trim` on a string slice, as an owned string.
pub fn trim_str(s: &str) -> (r: String)
    ensures
        r@ == trim(s@),
{
    let c = chars_of(s);
    let t = trim_chars(c.as_slice());
    string_from_chars(t.as_slice())
}


/// The character sequence of an optional string.
pub open spec fn opt_view(o: Option<String>) -> Option<Seq<char>> {
    match o {
        Some(s) => Some(s@),
        None => None,
    }
}

pub fn clone_opt(o: &Option<String>) -> (r: Option<String>)
    ensures
        opt_view(r) == opt_view(*o),
{
    match o {
        Some(s) => Some(s.clone()),
        None => None,
    }
}

/// `a` followed by `b`.
pub fn concat_str(a: &str, b: &str) -> (r: String)
    ensures
        r@ == a@ + b@,
{
    let mut r = String::from_str(a);
    r.append(b);
    r
}


/// Whether the characters spell exactly the given literal.
pub fn is_str(c: &[char], lit: &str) -> (r: bool)
    ensures
        r == (c@ == lit@),
{
    let l = chars_of(lit);
    chars_eq(c, l.as_slice())
}


/// The value of one digit in the given radix (`char::to_digit`), if it is one.
pub open spec fn digit_value(c: char, radix: nat) -> Option<nat> {
    let v: int = if '0' <= c && c <= '9' {
        c as int - '0' as int
    } else if 'a' <= c && c <= 'z' {
        c as int - 'a' as int + 10
    } else if 'A' <= c && c <= 'Z' {
        c as int - 'A' as int + 10
    } else {
        -1
    };
    if 0 <= v && v < radix { Some(v as nat) } else { None }
}

pub open spec fn all_digits(s: Seq<char>, radix: nat) -> bool {
    forall|i: int| 0 <= i < s.len() ==> digit_value(#[trigger] s[i], radix) is Some
}

/// A digit reads the same in either case.
proof fn lemma_digit_value_upper(c: char, radix: nat)
    ensures
        digit_value(ascii_upper(c), radix) == digit_value(c, radix),
{
    if 'a' <= c && c <= 'z' {
        let u = ascii_upper(c);
        assert(u as int == c as int - 32);
    }
}

/// Upper-casing commutes with cutting and joining text.
pub proof fn lemma_upper_seq_parts(a: Seq<char>, b: Seq<char>, i: int, j: int)
    ensures
        upper_seq(a + b) == upper_seq(a) + upper_seq(b),
        0 <= i <= j <= a.len() ==> upper_seq(a.subrange(i, j)) == upper_seq(a).subrange(i, j),
        upper_seq(a).len() == a.len(),
{
    assert(upper_seq(a + b) =~= upper_seq(a) + upper_seq(b));
    if 0 <= i <= j <= a.len() {
        assert(upper_seq(a.subrange(i, j)) =~= upper_seq(a).subrange(i, j));
    }
}

/// A number reads the same whatever the case of its digits.
pub proof fn lemma_unsigned_in_upper(s: Seq<char>, radix: nat, max: nat)
    ensures
        unsigned_in(upper_seq(s), radix, max) == unsigned_in(s, radix, max),
{
    let u = upper_seq(s);
    let d = if s.len() > 0 && s[0] == '+' { s.drop_first() } else { s };
    let du = if u.len() > 0 && u[0] == '+' { u.drop_first() } else { u };
    assert(du =~= upper_seq(d));
    assert(all_digits(du, radix) == all_digits(d, radix)) by {
        assert forall|i: int| 0 <= i < d.len() implies (digit_value(#[trigger] du[i], radix) is Some)
            == (digit_value(d[i], radix) is Some) by {
            lemma_digit_value_upper(d[i], radix);
        }
        if all_digits(d, radix) {
            assert forall|i: int| 0 <= i < du.len() implies digit_value(#[trigger] du[i], radix) is Some by {
                lemma_digit_value_upper(d[i], radix);
            }
        }
        if all_digits(du, radix) {
            assert forall|i: int| 0 <= i < d.len() implies digit_value(#[trigger] d[i], radix) is Some by {
                lemma_digit_value_upper(d[i], radix);
                assert(digit_value(du[i], radix) is Some);
            }
        }
    }
    lemma_digits_value_upper(d, radix);
}

proof fn lemma_digits_value_upper(s: Seq<char>, radix: nat)
    ensures
        digits_value(upper_seq(s), radix) == digits_value(s, radix),
    decreases s.len(),
{
    if s.len() > 0 {
        let u = upper_seq(s);
        assert(u.drop_last() =~= upper_seq(s.drop_last()));
        lemma_digits_value_upper(s.drop_last(), radix);
        lemma_digit_value_upper(s.last(), radix);
    }
}

/// Leading white space does not survive `trim_start`.
pub proof fn lemma_trim_start_pad(pad: Seq<char>, x: Seq<char>)
    requires
        forall|i: int| 0 <= i < pad.len() ==> is_white_space(#[trigger] pad[i]),
    ensures
        trim_start(pad + x) == trim_start(x),
    decreases pad.len(),
{
    if pad.len() == 0 {
        assert(pad + x =~= x);
    } else {
        assert((pad + x)[0] == pad[0]);
        assert((pad + x).drop_first() =~= pad.drop_first() + x);
        assert forall|i: int| 0 <= i < pad.drop_first().len() implies is_white_space(#[trigger] pad.drop_first()[i]) by {
            assert(pad.drop_first()[i] == pad[i + 1]);
        }
        lemma_trim_start_pad(pad.drop_first(), x);
    }
}

/// Trailing white space does not survive `trim_end`.
pub proof fn lemma_trim_end_pad(x: Seq<char>, pad: Seq<char>)
    requires
        forall|i: int| 0 <= i < pad.len() ==> is_white_space(#[trigger] pad[i]),
    ensures
        trim_end(x + pad) == trim_end(x),
    decreases pad.len(),
{
    if pad.len() == 0 {
        assert(x + pad =~= x);
    } else {
        assert((x + pad).last() == pad.last());
        assert((x + pad).drop_last() =~= x + pad.drop_last());
        assert forall|i: int| 0 <= i < pad.drop_last().len() implies is_white_space(#[trigger] pad.drop_last()[i]) by {
            assert(pad.drop_last()[i] == pad[i]);
        }
        lemma_trim_end_pad(x, pad.drop_last());
    }
}

/// The number that a string of digits denotes.
pub open spec fn digits_value(s: Seq<char>, radix: nat) -> nat
    decreases s.len(),
{
    if s.len() == 0 {
        0
    } else {
        digits_value(s.drop_last(), radix) * radix + match digit_value(s.last(), radix) {
            Some(d) => d,
            None => 0,
        }
    }
}

/// The unsigned number that `from_str_radix` reads: an optional `+`, then
/// one or more digits (bounds aside).
pub open spec fn unsigned_text(s: Seq<char>, radix: nat) -> Option<nat> {
    let d = if s.len() > 0 && s[0] == '+' { s.drop_first() } else { s };
    if d.len() > 0 && all_digits(d, radix) { Some(digits_value(d, radix)) } else { None }
}

/// The signed number that `from_str_radix` / `str::parse` reads: an optional
/// sign, then one or more digits (bounds aside).
pub open spec fn signed_text(s: Seq<char>, radix: nat) -> Option<int> {
    if s.len() > 0 && s[0] == '-' {
        let d = s.drop_first();
        if d.len() > 0 && all_digits(d, radix) { Some(-(digits_value(d, radix) as int)) } else { None }
    } else {
        match unsigned_text(s, radix) {
            Some(v) => Some(v as int),
            None => None,
        }
    }
}

/// An unsigned number in range: what `from_str_radix` accepts for a type
/// whose largest value is `max`.
pub open spec fn unsigned_in(s: Seq<char>, radix: nat, max: nat) -> Option<nat> {
    match unsigned_text(s, radix) {
        Some(v) => if v <= max { Some(v) } else { None },
        None => None,
    }
}

fn digit_of(c: char, radix: u32) -> (r: Option<u32>)
    requires
        2 <= radix <= 36,
    ensures
        match digit_value(c, radix as nat) {
            Some(d) => r == Some(d as u32),
            None => r is None,
        },
{
    let v: i64 = if '0' <= c && c <= '9' {
        (c as u32 - '0' as u32) as i64
    } else if 'a' <= c && c <= 'z' {
        (c as u32 - 'a' as u32) as i64 + 10
    } else if 'A' <= c && c <= 'Z' {
        (c as u32 - 'A' as u32) as i64 + 10
    } else {
        -1
    };
    if 0 <= v && v < radix as i64 {
        Some(v as u32)
    } else {
        None
    }
}

proof fn lemma_digits_value_grows(s: Seq<char>, radix: nat, k: int)
    requires
        radix >= 1,
        0 <= k <= s.len(),
    ensures
        digits_value(s.take(k), radix) <= digits_value(s, radix),
    decreases s.len() - k,
{
    if k < s.len() {
        lemma_digits_value_grows(s, radix, k + 1);
        let t = s.take(k + 1);
        assert(t.drop_last() =~= s.take(k));
        let a = digits_value(s.take(k), radix);
        let d: nat = match digit_value(t.last(), radix) { Some(d) => d, None => 0 };
        assert(digits_value(t, radix) == a * radix + d);
        assert(a <= a * radix) by (nonlinear_arith)
            requires radix >= 1;
    } else {
        assert(s.take(k) =~= s);
    }
}

/// Reads an unsigned number in the given radix, as `from_str_radix` does for
/// a type whose largest value is `max`.
pub fn parse_unsigned(s: &[char], radix: u32, max: u64) -> (r: Option<u64>)
    requires
        2 <= radix <= 36,
    ensures
        match unsigned_in(s@, radix as nat, max as nat) {
            Some(v) => r == Some(v as u64),
            None => r is None,
        },
{
    let start: usize = if s.len() > 0 && s[0] == '+' { 1 } else { 0 };
    let ghost d = if s@.len() > 0 && s@[0] == '+' { s@.drop_first() } else { s@ };
    proof {
        assert(d =~= s@.skip(start as int));
    }
    if start == s.len() {
        return None;
    }
    let mut acc: u64 = 0;
    let mut i: usize = start;
    while i < s.len()
        invariant
            2 <= radix <= 36,
            start <= i <= s@.len(),
            start < s@.len(),
            d == s@.skip(start as int),
            d == (if s@.len() > 0 && s@[0] == '+' { s@.drop_first() } else { s@ }),
            all_digits(d.take(i - start), radix as nat),
            acc == digits_value(d.take(i - start), radix as nat),
            acc <= max,
        decreases s@.len() - i,
    {
        let c = s[i];
        let ghost k = i - start;
        proof {
            assert(d[k] == c);
            assert(d.take(k + 1).drop_last() =~= d.take(k));
            assert(d.take(k + 1).last() == c);
        }
        match digit_of(c, radix) {
            None => {
                proof {
                    assert(digit_value(d[k], radix as nat) is None);
                    assert(!all_digits(d, radix as nat));
                }
                return None;
            },
            Some(dv) => {
                let a: u128 = acc as u128;
                let rx: u128 = radix as u128;
                proof {
                    assert(a * rx <= 0xffff_ffff_ffff_ffff * 36) by (nonlinear_arith)
                        requires a <= 0xffff_ffff_ffff_ffff, rx <= 36;
                }
                let prod: u128 = a * rx;
                let big: u128 = prod + (dv as u128);
                if big > max as u128 {
                    proof {
                        lemma_digits_value_grows(d, radix as nat, k + 1);
                    }
                    return None;
                }
                acc = big as u64;
                proof {
                    assert forall|m: int| 0 <= m < k + 1 implies digit_value(#[trigger] d.take(k + 1)[m], radix as nat) is Some by {
                        if m < k {
                            assert(d.take(k + 1)[m] == d.take(k)[m]);
                        }
                    }
                }
            },
        }
        i = i + 1;
    }
    proof {
        assert(d.take(i - start) =~= d);
    }
    Some(acc)
}

/// Reads a signed number, as `str::parse` does for a type whose range is
/// `min..=max` (with `min == -(max + 1)`).
pub fn parse_signed(s: &[char], min: i128, max: i128) -> (r: Option<i128>)
    requires
        0 <= max < 0x8000_0000_0000_0000,
        min == -(max + 1),
    ensures
        match signed_text(s@, 10) {
            Some(v) => if min <= v <= max { r == Some(v as i128) } else { r is None },
            None => r is None,
        },
{
    if s.len() > 0 && s[0] == '-' {
        let mut rest: Vec<char> = Vec::new();
        let mut i: usize = 1;
        while i < s.len()
            invariant
                1 <= i <= s@.len(),
                rest@ == s@.subrange(1, i as int),
            decreases s@.len() - i,
        {
            rest.push(s[i]);
            i = i + 1;
            proof {
                assert(rest@ =~= s@.subrange(1, i as int));
            }
        }
        proof {
            assert(rest@ =~= s@.drop_first());
        }
        if rest.len() > 0 && rest[0] == '+' {
            // "-+5" is not a number
            proof {
                assert(digit_value(rest@[0], 10) is None);
            }
            return None;
        }
        let limit: u64 = (max as u64) + 1;
        match parse_unsigned(rest.as_slice(), 10, limit) {
            Some(v) => {
                let neg: i128 = -(v as i128);
                Some(neg)
            },
            None => {
                proof {
                    let d = rest@;
                    if d.len() > 0 && all_digits(d, 10) {
                        assert(unsigned_text(d, 10) == Some(digits_value(d, 10)));
                    }
                }
                None
            },
        }
    } else {
        match parse_unsigned(s, 10, max as u64) {
            Some(v) => Some(v as i128),
            None => None,
        }
    }
}


/// The lower-case hexadecimal digit for `d < 16`.
pub open spec fn hex_char(d: nat) -> char {
    if d < 10 {
        (d + 48) as char
    } else {
        (d + 87) as char
    }
}

/// `v` in `width` lower-case hexadecimal digits, zero-padded (`{:0w$x}` for
/// values that fit).
pub open spec fn hex_digits(v: nat, width: nat) -> Seq<char>
    decreases width,
{
    if width == 0 {
        Seq::empty()
    } else {
        hex_digits(v / 16, (width - 1) as nat).push(hex_char(v % 16))
    }
}

pub open spec fn pow16(w: nat) -> nat
    decreases w,
{
    if w == 0 {
        1
    } else {
        16 * pow16((w - 1) as nat)
    }
}

pub fn hex_char_of(d: u64) -> (c: char)
    requires
        d < 16,
    ensures
        c == hex_char(d as nat),
{
    let code: u32 = if d < 10 { (d as u32) + 48 } else { (d as u32) + 87 };
    match char::from_u32(code) {
        Some(c) => c,
        None => '0',
    }
}

/// `v` in `width` hexadecimal digits.
pub fn hex_of(v: u64, width: u32) -> (r: Vec<char>)
    ensures
        r@ == hex_digits(v as nat, width as nat),
    decreases width,
{
    if width == 0 {
        Vec::new()
    } else {
        let mut r = hex_of(v / 16, width - 1);
        r.push(hex_char_of(v % 16));
        r
    }
}

proof fn lemma_hex_char(d: nat)
    requires
        d < 16,
    ensures
        digit_value(hex_char(d), 16) == Some(d),
        hex_char(d) != '-' && hex_char(d) != '+' && hex_char(d) != '{' && hex_char(d) != '}',
        !is_white_space(hex_char(d)),
{
    let c = hex_char(d);
    if d < 10 {
        assert(c as int == d + 48);
    } else {
        assert(c as int == d + 87);
    }
}

/// The hexadecimal digits read back as the value they were written from.
pub proof fn lemma_hex_digits(v: nat, w: nat)
    requires
        v < pow16(w),
    ensures
        hex_digits(v, w).len() == w,
        all_digits(hex_digits(v, w), 16),
        digits_value(hex_digits(v, w), 16) == v,
        forall|i: int| 0 <= i < w ==> {
            let c = #[trigger] hex_digits(v, w)[i];
            c != '-' && c != '+' && c != '{' && c != '}' && !is_white_space(c)
        },
    decreases w,
{
    if w > 0 {
        let w1 = (w - 1) as nat;
        assert(v / 16 < pow16(w1)) by (nonlinear_arith)
            requires v < 16 * pow16(w1);
        lemma_hex_digits(v / 16, w1);
        lemma_hex_char(v % 16);
        let s = hex_digits(v, w);
        assert(s.drop_last() =~= hex_digits(v / 16, w1));
        assert forall|i: int| 0 <= i < s.len() implies digit_value(#[trigger] s[i], 16) is Some by {
            if i < s.len() - 1 {
                assert(s[i] == hex_digits(v / 16, w1)[i]);
            }
        }
        assert forall|i: int| 0 <= i < w implies {
            let c = #[trigger] s[i];
            c != '-' && c != '+' && c != '{' && c != '}' && !is_white_space(c)
        } by {
            if i < s.len() - 1 {
                assert(s[i] == hex_digits(v / 16, w1)[i]);
            }
        }
        assert(digits_value(s, 16) == (v / 16) * 16 + v % 16);
    }
}


/// `v` in decimal, without leading zeros (`{}` on an unsigned integer).
pub open spec fn decimal_digits(v: nat) -> Seq<char>
    decreases v,
{
    if v < 10 {
        seq![hex_char(v)]
    } else {
        decimal_digits(v / 10).push(hex_char(v % 10))
    }
}

/// `v` in decimal.
pub fn decimal_of(v: u64) -> (r: Vec<char>)
    ensures
        r@ == decimal_digits(v as nat),
    decreases v,
{
    if v < 10 {
        let mut r: Vec<char> = Vec::new();
        r.push(hex_char_of(v));
        r
    } else {
        let mut r = decimal_of(v / 10);
        r.push(hex_char_of(v % 10));
        r
    }
}

/// Whether two strings are equal once ASCII letters are lower-cased
/// (`str::eq_ignore_ascii_case`).
pub open spec fn same_ignoring_ascii_case(a: Seq<char>, b: Seq<char>) -> bool {
    lower_seq(a) == lower_seq(b)
}

pub fn eq_ignore_ascii_case(a: &str, b: &str) -> (r: bool)
    ensures
        r == same_ignoring_ascii_case(a@, b@),
{
    let la = lower_chars(chars_of(a).as_slice());
    let lb = lower_chars(chars_of(b).as_slice());
    chars_eq(la.as_slice(), lb.as_slice())
}

/// The window handle that a decimal string names (`str::parse::<isize>`).
pub open spec fn handle_text(s: Seq<char>) -> Option<int> {
    match signed_text(s, 10) {
        Some(v) => if isize::MIN <= v <= isize::MAX { Some(v) } else { None },
        None => None,
    }
}

/// Reads a window handle, as `str::parse::<isize>` does.
pub fn parse_isize(s: &str) -> (r: Option<isize>)
    ensures
        match handle_text(s@) {
            Some(v) => r == Some(v as isize),
            None => r is None,
        },
{
    let c = chars_of(s);
    match parse_signed(c.as_slice(), isize::MIN as i128, isize::MAX as i128) {
        Some(v) => Some(v as isize),
        None => None,
    }
}

/// `s` split at every `sep` (`str::split(sep)`).
pub open spec fn split_on(s: Seq<char>, sep: char) -> Seq<Seq<char>>
    decreases s.len(),
{
    if s.len() == 0 {
        seq![Seq::empty()]
    } else {
        let r = split_on(s.drop_last(), sep);
        if s.last() == sep {
            r.push(Seq::empty())
        } else {
            r.update(r.len() - 1, r.last().push(s.last()))
        }
    }
}

/// `s` holds no `sep`.
pub open spec fn free_of(s: Seq<char>, sep: char) -> bool {
    forall|i: int| 0 <= i < s.len() ==> s[i] != sep
}

pub open spec fn part_views(v: Seq<Vec<char>>) -> Seq<Seq<char>> {
    v.map_values(|p: Vec<char>| p@)
}

/// `s` split at every `sep`.
pub fn split_chars(s: &[char], sep: char) -> (r: Vec<Vec<char>>)
    ensures
        part_views(r@) == split_on(s@, sep),
{
    let mut done: Vec<Vec<char>> = Vec::new();
    let mut current: Vec<char> = Vec::new();
    let mut i: usize = 0;
    proof {
        assert(s@.take(0) =~= Seq::<char>::empty());
        assert(part_views(done@).push(current@) =~= split_on(s@.take(0), sep));
    }
    while i < s.len()
        invariant
            i <= s@.len(),
            part_views(done@).push(current@) == split_on(s@.take(i as int), sep),
        decreases s@.len() - i,
    {
        let c = s[i];
        let ghost pre = s@.take(i as int);
        let ghost post = s@.take(i + 1);
        proof {
            assert(post.drop_last() =~= pre);
            assert(post.last() == c);
        }
        if c == sep {
            let finished = current;
            done.push(finished);
            current = Vec::new();
            proof {
                assert(part_views(done@) =~= split_on(pre, sep));
                assert(part_views(done@).push(current@) =~= split_on(post, sep));
            }
        } else {
            current.push(c);
            proof {
                assert(part_views(done@).push(current@) =~= split_on(post, sep));
            }
        }
        i = i + 1;
    }
    proof {
        assert(s@.take(s@.len() as int) =~= s@);
    }
    done.push(current);
    proof {
        assert(part_views(done@) =~= split_on(s@, sep));
    }
    done
}

pub proof fn lemma_split_len(s: Seq<char>, sep: char)
    ensures
        split_on(s, sep).len() >= 1,
    decreases s.len(),
{
    if s.len() > 0 {
        lemma_split_len(s.drop_last(), sep);
    }
}

/// Appending text without a separator extends the last part.
pub proof fn lemma_split_free(s: Seq<char>, t: Seq<char>, sep: char)
    requires
        free_of(t, sep),
    ensures
        split_on(s + t, sep) == split_on(s, sep).update(split_on(s, sep).len() - 1, split_on(s, sep).last() + t),
    decreases t.len(),
{
    lemma_split_len(s, sep);
    if t.len() == 0 {
        assert(s + t =~= s);
        assert(split_on(s, sep).last() + t =~= split_on(s, sep).last());
        assert(split_on(s, sep).update(split_on(s, sep).len() - 1, split_on(s, sep).last()) =~= split_on(s, sep));
    } else {
        let t1 = t.drop_last();
        assert(free_of(t1, sep));
        lemma_split_free(s, t1, sep);
        assert((s + t).drop_last() =~= s + t1);
        assert((s + t).last() == t.last());
        let r = split_on(s + t1, sep);
        lemma_split_len(s + t1, sep);
        assert(r.last() == split_on(s, sep).last() + t1);
        assert(r.last().push(t.last()) =~= split_on(s, sep).last() + t);
        assert(split_on(s + t, sep) =~= split_on(s, sep).update(split_on(s, sep).len() - 1, split_on(s, sep).last() + t));
    }
}

pub proof fn lemma_split_sep(s: Seq<char>, sep: char)
    ensures
        split_on(s + seq![sep], sep) == split_on(s, sep).push(Seq::<char>::empty()),
{
    assert((s + seq![sep]).drop_last() =~= s);
}



/// The decimal digits of a number read back as that number.
pub proof fn lemma_decimal_digits(v: nat)
    ensures
        decimal_digits(v).len() > 0,
        all_digits(decimal_digits(v), 10),
        digits_value(decimal_digits(v), 10) == v,
        forall|i: int| 0 <= i < decimal_digits(v).len() ==> '0' <= #[trigger] decimal_digits(v)[i] <= '9',
    decreases v,
{
    let s = decimal_digits(v);
    if v < 10 {
        assert(s[0] == hex_char(v));
        assert(s[0] as int == v + 48);
        assert(s.drop_last() =~= Seq::<char>::empty());
        assert(digit_value(s.last(), 10) == Some(v));
        assert(digits_value(s.drop_last(), 10) == 0);
        assert(digits_value(s, 10) == 0 * 10 + v);
    } else {
        lemma_decimal_digits(v / 10);
        let d = v % 10;
        assert(hex_char(d) as int == d + 48);
        assert(s.drop_last() =~= decimal_digits(v / 10));
        assert forall|i: int| 0 <= i < s.len() implies '0' <= #[trigger] s[i] <= '9' by {
            if i < s.len() - 1 {
                assert(s[i] == decimal_digits(v / 10)[i]);
            }
        }
        assert forall|i: int| 0 <= i < s.len() implies digit_value(#[trigger] s[i], 10) is Some by {
            assert('0' <= s[i] <= '9');
        }
        assert(digit_value(s.last(), 10) == Some(d));
        assert(digits_value(s, 10) == digits_value(decimal_digits(v / 10), 10) * 10 + d);
        assert(v == (v / 10) * 10 + d);
    }
}

/// `v` as `ToString` writes a signed integer: a minus sign before the digits
/// of a negative number.
pub open spec fn signed_decimal(v: int) -> Seq<char> {
    if v < 0 { seq!['-'] + decimal_digits((-v) as nat) } else { decimal_digits(v as nat) }
}

pub fn signed_decimal_of(v: isize) -> (r: Vec<char>)
    ensures
        r@ == signed_decimal(v as int),
{
    if v < 0 {
        let m: i128 = -(v as i128);
        let mut r: Vec<char> = Vec::new();
        r.push('-');
        let mut d = decimal_of(m as u64);
        r.append(&mut d);
        r
    } else {
        decimal_of(v as u64)
    }
}


/// "Not after" in lexicographic order is transitive.
pub proof fn lemma_lex_le_transitive(a: Seq<char>, b: Seq<char>, c: Seq<char>)
    requires
        !lex_lt(b, a),
        !lex_lt(c, b),
    ensures
        !lex_lt(c, a),
{
    lemma_lex_trichotomy(a, b);
    lemma_lex_trichotomy(b, c);
    if lex_lt(c, a) {
        if lex_lt(a, b) {
            lemma_lex_transitive(c, a, b);
        }
    }
}
} // verus!
