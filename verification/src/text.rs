//! Text primitives.
//!
//! Texts are modelled as sequences of characters; every function here states its
//! result as a sequence computed from the sequences it was given.

use vstd::prelude::*;
use vstd::string::*;
use vstd::utf8::*;

verus! {

// ---------------------------------------------------------------------------
// Building and taking apart
// ---------------------------------------------------------------------------

/// `String::push` appends the given character to the end of the string.
pub assume_specification[ String::push ](s: &mut String, ch: char)
    ensures
        final(s)@ == old(s)@.push(ch),
;

/// The views of a list of strings.
pub open spec fn texts(list: Seq<String>) -> Seq<Seq<char>> {
    Seq::new(list.len(), |i: int| list[i]@)
}

/// The characters of a text.
pub fn chars_of(s: &str) -> (r: Vec<char>)
    ensures
        r@ == s@,
{
    let mut out: Vec<char> = Vec::new();
    for c in it: s.chars()
        invariant
            out@ == it.seq().take(it.index() as int),
            it.seq() == s@,
    {
        proof {
            assert(it.seq().take(it.index() + 1) =~= it.seq().take(it.index() as int).push(c));
        }
        out.push(c);
    }
    proof {
        assert(out@ =~= s@);
    }
    out
}

/// The text made of the characters from position `from` up to, not including, `to`.
pub fn text_between(v: &Vec<char>, from: usize, to: usize) -> (r: String)
    requires
        from <= to <= v@.len(),
    ensures
        r@ == v@.subrange(from as int, to as int),
{
    let mut out = String::new();
    let mut i: usize = from;
    while i < to
        invariant
            from <= i <= to <= v@.len(),
            out@ == v@.subrange(from as int, i as int),
        decreases to - i,
    {
        out.push(v[i]);
        proof {
            assert(v@.subrange(from as int, i + 1) =~= v@.subrange(from as int, i as int).push(
                v@[i as int],
            ));
        }
        i += 1;
    }
    out
}

/// Whether two texts hold the same characters.
pub fn same(a: &str, b: &str) -> (r: bool)
    ensures
        r == (a@ == b@),
{
    a.to_owned() == b.to_owned()
}

/// The concatenation of two texts.
pub fn glue(a: &str, b: &str) -> (r: String)
    ensures
        r@ == a@ + b@,
{
    let mut out = a.to_owned();
    out.append(b);
    out
}

/// The concatenation of three texts.
pub fn glue3(a: &str, b: &str, c: &str) -> (r: String)
    ensures
        r@ == a@ + b@ + c@,
{
    let mut out = a.to_owned();
    out.append(b);
    out.append(c);
    out
}

/// The texts of a list, one after the other, with `sep` between two neighbours.
pub open spec fn joined(parts: Seq<Seq<char>>, sep: Seq<char>) -> Seq<char>
    decreases parts.len(),
{
    if parts.len() == 0 {
        Seq::empty()
    } else if parts.len() == 1 {
        parts[0]
    } else {
        joined(parts.drop_last(), sep) + sep + parts.last()
    }
}

pub fn join(parts: &Vec<String>, sep: &str) -> (r: String)
    ensures
        r@ == joined(texts(parts@), sep@),
{
    let mut out = String::new();
    let mut i: usize = 0;
    let ghost all = texts(parts@);
    while i < parts.len()
        invariant
            i <= parts@.len(),
            all == texts(parts@),
            out@ == joined(all.take(i as int), sep@),
        decreases parts@.len() - i,
    {
        if i > 0 {
            out.append(sep);
        }
        out.append(parts[i].as_str());
        proof {
            assert(all.take(i + 1).drop_last() =~= all.take(i as int));
            assert(all.take(i + 1).last() == parts@[i as int]@);
        }
        i += 1;
    }
    proof {
        assert(all.take(parts@.len() as int) =~= all);
    }
    out
}

// ---------------------------------------------------------------------------
// White space
// ---------------------------------------------------------------------------

/// Whether a character has the Unicode property `White_Space`.
pub open spec fn is_white_space(c: char) -> bool {
    ||| '\u{9}' <= c <= '\u{d}'
    ||| c == '\u{20}'
    ||| c == '\u{85}'
    ||| c == '\u{a0}'
    ||| c == '\u{1680}'
    ||| '\u{2000}' <= c <= '\u{200a}'
    ||| c == '\u{2028}'
    ||| c == '\u{2029}'
    ||| c == '\u{202f}'
    ||| c == '\u{205f}'
    ||| c == '\u{3000}'
}

pub fn white_space(c: char) -> (r: bool)
    ensures
        r == is_white_space(c),
{
    ('\u{9}' <= c && c <= '\u{d}') || c == '\u{20}' || c == '\u{85}' || c == '\u{a0}' || c
        == '\u{1680}' || ('\u{2000}' <= c && c <= '\u{200a}') || c == '\u{2028}' || c == '\u{2029}'
        || c == '\u{202f}' || c == '\u{205f}' || c == '\u{3000}'
}

/// `s` without its leading white space.
pub open spec fn trimmed_start(s: Seq<char>) -> Seq<char>
    decreases s.len(),
{
    if s.len() > 0 && is_white_space(s[0]) {
        trimmed_start(s.drop_first())
    } else {
        s
    }
}

/// `s` without its trailing white space.
pub open spec fn trimmed_end(s: Seq<char>) -> Seq<char>
    decreases s.len(),
{
    if s.len() > 0 && is_white_space(s.last()) {
        trimmed_end(s.drop_last())
    } else {
        s
    }
}

/// `s` without its leading and trailing white space.
pub open spec fn trimmed(s: Seq<char>) -> Seq<char> {
    trimmed_end(trimmed_start(s))
}

/// Whether a text neither begins nor ends with white space.
pub open spec fn is_trimmed(s: Seq<char>) -> bool {
    s.len() > 0 ==> !is_white_space(s[0]) && !is_white_space(s.last())
}

proof fn trimmed_start_edge(s: Seq<char>)
    ensures
        trimmed_start(s).len() > 0 ==> !is_white_space(trimmed_start(s)[0]),
    decreases s.len(),
{
    if s.len() > 0 && is_white_space(s[0]) {
        trimmed_start_edge(s.drop_first());
    }
}

proof fn trimmed_end_edge(s: Seq<char>)
    ensures
        trimmed_end(s).len() > 0 ==> !is_white_space(trimmed_end(s).last()) && trimmed_end(s)[0]
            == s[0],
    decreases s.len(),
{
    if s.len() > 0 && is_white_space(s.last()) {
        trimmed_end_edge(s.drop_last());
    }
}

/// What is left of a text after trimming has no white space at its edges.
pub proof fn trimming_leaves_no_edges(s: Seq<char>)
    ensures
        is_trimmed(trimmed(s)),
{
    trimmed_start_edge(s);
    trimmed_end_edge(trimmed_start(s));
}

/// Whether nothing but white space is left of a text.
pub open spec fn is_blank(s: Seq<char>) -> bool {
    trimmed(s).len() == 0
}

fn start_of_text(v: &Vec<char>) -> (a: usize)
    ensures
        a <= v@.len(),
        trimmed_start(v@) == v@.skip(a as int),
{
    let mut a: usize = 0;
    proof {
        assert(v@.skip(0) =~= v@);
    }
    while a < v.len() && white_space(v[a])
        invariant
            a <= v@.len(),
            trimmed_start(v@) == trimmed_start(v@.skip(a as int)),
        decreases v@.len() - a,
    {
        proof {
            assert(v@.skip(a as int).drop_first() =~= v@.skip(a + 1));
        }
        a += 1;
    }
    a
}

pub fn trim_start(s: &str) -> (r: String)
    ensures
        r@ == trimmed_start(s@),
{
    let v = chars_of(s);
    let a = start_of_text(&v);
    let n = v.len();
    text_between(&v, a, n)
}

pub fn trim(s: &str) -> (r: String)
    ensures
        r@ == trimmed(s@),
{
    let v = chars_of(s);
    let a = start_of_text(&v);
    let mut b: usize = v.len();
    proof {
        assert(v@.skip(a as int) =~= v@.subrange(a as int, b as int));
    }
    while a < b && white_space(v[b - 1])
        invariant
            a <= b <= v@.len(),
            v@ == s@,
            trimmed(s@) == trimmed_end(v@.subrange(a as int, b as int)),
        decreases b - a,
    {
        proof {
            let cur = v@.subrange(a as int, b as int);
            assert(cur.last() == v@[b - 1]);
            assert(cur.drop_last() =~= v@.subrange(a as int, b - 1));
        }
        b -= 1;
    }
    proof {
        let cur = v@.subrange(a as int, b as int);
        assert(cur.len() > 0 ==> cur.last() == v@[b - 1]);
    }
    text_between(&v, a, b)
}

/// Whether a text is blank.
pub fn blank(s: &str) -> (r: bool)
    ensures
        r == is_blank(s@),
{
    trim(s).as_str().is_empty()
}

/// `s` without the copies of `c` at its end.
pub open spec fn without_trailing(s: Seq<char>, c: char) -> Seq<char>
    decreases s.len(),
{
    if s.len() > 0 && s.last() == c {
        without_trailing(s.drop_last(), c)
    } else {
        s
    }
}

/// `s` without the copies of `c` at its start.
pub open spec fn without_leading(s: Seq<char>, c: char) -> Seq<char>
    decreases s.len(),
{
    if s.len() > 0 && s[0] == c {
        without_leading(s.drop_first(), c)
    } else {
        s
    }
}

pub fn trim_trailing(s: &str, c: char) -> (r: String)
    ensures
        r@ == without_trailing(s@, c),
{
    let v = chars_of(s);
    let mut b: usize = v.len();
    proof {
        assert(v@.take(b as int) =~= v@);
    }
    while b > 0 && v[b - 1] == c
        invariant
            b <= v@.len(),
            without_trailing(v@, c) == without_trailing(v@.take(b as int), c),
        decreases b,
    {
        proof {
            assert(v@.take(b as int).drop_last() =~= v@.take(b - 1));
        }
        b -= 1;
    }
    proof {
        assert(v@.take(b as int) =~= v@.subrange(0, b as int));
    }
    text_between(&v, 0, b)
}

pub fn trim_leading(s: &str, c: char) -> (r: String)
    ensures
        r@ == without_leading(s@, c),
{
    let v = chars_of(s);
    let mut a: usize = 0;
    proof {
        assert(v@.skip(0) =~= v@);
    }
    while a < v.len() && v[a] == c
        invariant
            a <= v@.len(),
            without_leading(v@, c) == without_leading(v@.skip(a as int), c),
        decreases v@.len() - a,
    {
        proof {
            assert(v@.skip(a as int).drop_first() =~= v@.skip(a + 1));
        }
        a += 1;
    }
    let n = v.len();
    proof {
        assert(v@.skip(a as int) =~= v@.subrange(a as int, n as int));
    }
    text_between(&v, a, n)
}

// ---------------------------------------------------------------------------
// Searching
// ---------------------------------------------------------------------------

/// Whether `p` stands in `s` at position `i`.
pub open spec fn matches_at(s: Seq<char>, p: Seq<char>, i: int) -> bool {
    0 <= i && i + p.len() <= s.len() && s.subrange(i, i + p.len()) == p
}

/// Whether `p` occurs somewhere in `s`.
pub open spec fn has(s: Seq<char>, p: Seq<char>) -> bool {
    exists|i: int| matches_at(s, p, i)
}

/// The position of the first occurrence of `p` in `s` that does not start before `i`.
pub open spec fn found_from(s: Seq<char>, p: Seq<char>, i: int) -> Option<int>
    decreases s.len() + 1 - i,
{
    if i < 0 || i + p.len() > s.len() {
        None
    } else if matches_at(s, p, i) {
        Some(i)
    } else {
        found_from(s, p, i + 1)
    }
}

/// The position of the first occurrence of `p` in `s`.
pub open spec fn found(s: Seq<char>, p: Seq<char>) -> Option<int> {
    found_from(s, p, 0)
}

/// The position that a search yields is an occurrence, and the first one.
pub proof fn found_is_first(s: Seq<char>, p: Seq<char>, i: int)
    requires
        0 <= i,
    ensures
        match found_from(s, p, i) {
            Some(k) => i <= k && matches_at(s, p, k) && forall|j: int|
                i <= j < k ==> !matches_at(s, p, j),
            None => forall|j: int| i <= j ==> !matches_at(s, p, j),
        },
    decreases s.len() + 1 - i,
{
    if i + p.len() <= s.len() && !matches_at(s, p, i) {
        found_is_first(s, p, i + 1);
    }
}

fn match_at(v: &Vec<char>, p: &Vec<char>, i: usize) -> (r: bool)
    requires
        i + p@.len() <= v@.len(),
    ensures
        r == matches_at(v@, p@, i as int),
{
    let n = v.len();
    let mut k: usize = 0;
    while k < p.len()
        invariant
            k <= p@.len(),
            n == v@.len(),
            i + p@.len() <= n,
            forall|j: int| 0 <= j < k ==> v@[i + j] == p@[j],
        decreases p@.len() - k,
    {
        if v[i + k] != p[k] {
            proof {
                assert(v@.subrange(i as int, i + p@.len())[k as int] == v@[i + k]);
            }
            return false;
        }
        k += 1;
    }
    proof {
        assert(v@.subrange(i as int, i + p@.len()) =~= p@);
    }
    true
}

/// The position of the first occurrence of `p` among the characters of `v`.
pub fn find_chars(v: &Vec<char>, p: &Vec<char>) -> (r: Option<usize>)
    ensures
        match r {
            Some(i) => found(v@, p@) == Some(i as int) && matches_at(v@, p@, i as int),
            None => found(v@, p@) is None,
        },
{
    if p.len() > v.len() {
        return None;
    }
    let last = v.len() - p.len();
    let mut i: usize = 0;
    loop
        invariant
            i <= last,
            last + p@.len() == v@.len(),
            found(v@, p@) == found_from(v@, p@, i as int),
        decreases last - i,
    {
        if match_at(v, p, i) {
            return Some(i);
        }
        if i == last {
            return None;
        }
        i += 1;
    }
}

/// The position of the first occurrence of `p` in `s`, counted in characters.
pub fn find(s: &str, p: &str) -> (r: Option<usize>)
    ensures
        match r {
            Some(i) => found(s@, p@) == Some(i as int) && matches_at(s@, p@, i as int),
            None => found(s@, p@) is None,
        },
{
    find_chars(&chars_of(s), &chars_of(p))
}

/// Whether `p` occurs in `s`.
pub fn contains(s: &str, p: &str) -> (r: bool)
    ensures
        r == has(s@, p@),
{
    let hit = find(s, p);
    proof {
        found_is_first(s@, p@, 0);
        if hit is None {
            assert forall|j: int| !matches_at(s@, p@, j) by {
                if j >= 0 {
                }
            }
        }
    }
    hit.is_some()
}

/// Whether `s` begins with `p`.
pub open spec fn begins(s: Seq<char>, p: Seq<char>) -> bool {
    p.len() <= s.len() && s.take(p.len() as int) == p
}

/// Whether `s` ends with `p`.
pub open spec fn ends(s: Seq<char>, p: Seq<char>) -> bool {
    p.len() <= s.len() && s.skip(s.len() - p.len()) == p
}

pub fn starts_with(s: &str, p: &str) -> (r: bool)
    ensures
        r == begins(s@, p@),
{
    let v = chars_of(s);
    let w = chars_of(p);
    if w.len() > v.len() {
        return false;
    }
    proof {
        assert(v@.take(w@.len() as int) =~= v@.subrange(0, w@.len() as int));
    }
    match_at(&v, &w, 0)
}

pub fn ends_with(s: &str, p: &str) -> (r: bool)
    ensures
        r == ends(s@, p@),
{
    let v = chars_of(s);
    let w = chars_of(p);
    if w.len() > v.len() {
        return false;
    }
    let at = v.len() - w.len();
    proof {
        assert(v@.skip(at as int) =~= v@.subrange(at as int, at + w@.len()));
    }
    match_at(&v, &w, at)
}

/// What follows `p` in a text that begins with `p`.
pub open spec fn after_prefix(s: Seq<char>, p: Seq<char>) -> Option<Seq<char>> {
    if begins(s, p) {
        Some(s.skip(p.len() as int))
    } else {
        None
    }
}

pub open spec fn view_option(o: Option<String>) -> Option<Seq<char>> {
    match o {
        Some(s) => Some(s@),
        None => None,
    }
}

pub fn strip_prefix(s: &str, p: &str) -> (r: Option<String>)
    ensures
        view_option(r) == after_prefix(s@, p@),
{
    if !starts_with(s, p) {
        return None;
    }
    let v = chars_of(s);
    let k = chars_of(p).len();
    let n = v.len();
    proof {
        assert(v@.skip(k as int) =~= v@.subrange(k as int, n as int));
    }
    Some(text_between(&v, k, n))
}

/// What is left of a text when copies of `p` are taken off its start as long as there is one.
pub open spec fn without_prefixes(s: Seq<char>, p: Seq<char>) -> Seq<char>
    decreases s.len(),
{
    if p.len() > 0 && begins(s, p) {
        without_prefixes(s.skip(p.len() as int), p)
    } else {
        s
    }
}

pub fn strip_prefixes(s: &str, p: &str) -> (r: String)
    ensures
        r@ == without_prefixes(s@, p@),
{
    let mut cur = s.to_owned();
    if p.is_empty() {
        return cur;
    }
    while starts_with(cur.as_str(), p)
        invariant
            p@.len() > 0,
            without_prefixes(s@, p@) == without_prefixes(cur@, p@),
        decreases cur@.len(),
    {
        match strip_prefix(cur.as_str(), p) {
            Some(rest) => {
                cur = rest;
            },
            None => {
                return cur;
            },
        }
    }
    cur
}

// ---------------------------------------------------------------------------
// Letter case
// ---------------------------------------------------------------------------

pub open spec fn lower_char(c: char) -> char {
    if 'A' <= c <= 'Z' {
        (c as u32 + 32) as char
    } else {
        c
    }
}

pub open spec fn upper_char(c: char) -> char {
    if 'a' <= c <= 'z' {
        (c as u32 - 32) as char
    } else {
        c
    }
}

/// `s` with the ASCII capitals replaced by small letters.
pub open spec fn lowered(s: Seq<char>) -> Seq<char> {
    Seq::new(s.len(), |i: int| lower_char(s[i]))
}

/// `s` with the ASCII small letters replaced by capitals.
pub open spec fn raised(s: Seq<char>) -> Seq<char> {
    Seq::new(s.len(), |i: int| upper_char(s[i]))
}

/// Whether two texts differ at most in the case of ASCII letters.
pub open spec fn alike(a: Seq<char>, b: Seq<char>) -> bool {
    lowered(a) == lowered(b)
}

fn lower_of(c: char) -> (r: char)
    ensures
        r == lower_char(c),
{
    if 'A' <= c && c <= 'Z' {
        ((c as u8) + 32) as char
    } else {
        c
    }
}

fn upper_of(c: char) -> (r: char)
    ensures
        r == upper_char(c),
{
    if 'a' <= c && c <= 'z' {
        ((c as u8) - 32) as char
    } else {
        c
    }
}

pub fn to_ascii_lowercase(s: &str) -> (r: String)
    ensures
        r@ == lowered(s@),
{
    let v = chars_of(s);
    let mut out = String::new();
    let mut i: usize = 0;
    while i < v.len()
        invariant
            i <= v@.len(),
            v@ == s@,
            out@ == lowered(s@).take(i as int),
        decreases v@.len() - i,
    {
        out.push(lower_of(v[i]));
        proof {
            assert(lowered(s@).take(i + 1) =~= lowered(s@).take(i as int).push(lower_char(s@[i as int])));
        }
        i += 1;
    }
    proof {
        assert(lowered(s@).take(i as int) =~= lowered(s@));
    }
    out
}

pub fn to_ascii_uppercase(s: &str) -> (r: String)
    ensures
        r@ == raised(s@),
{
    let v = chars_of(s);
    let mut out = String::new();
    let mut i: usize = 0;
    while i < v.len()
        invariant
            i <= v@.len(),
            v@ == s@,
            out@ == raised(s@).take(i as int),
        decreases v@.len() - i,
    {
        out.push(upper_of(v[i]));
        proof {
            assert(raised(s@).take(i + 1) =~= raised(s@).take(i as int).push(upper_char(s@[i as int])));
        }
        i += 1;
    }
    proof {
        assert(raised(s@).take(i as int) =~= raised(s@));
    }
    out
}

pub fn eq_ignore_ascii_case(a: &str, b: &str) -> (r: bool)
    ensures
        r == alike(a@, b@),
{
    to_ascii_lowercase(a) == to_ascii_lowercase(b)
}

/// Whether a text is made of ASCII characters.
pub open spec fn is_ascii_text(s: Seq<char>) -> bool {
    forall|i: int| 0 <= i < s.len() ==> (#[trigger] s[i]) < '\u{80}'
}

pub proof fn trimmed_is_ascii(s: Seq<char>)
    requires
        is_ascii_text(s),
    ensures
        is_ascii_text(trimmed(s)),
{
    trimmed_start_is_ascii(s);
    trimmed_end_is_ascii(trimmed_start(s));
}

proof fn trimmed_start_is_ascii(s: Seq<char>)
    requires
        is_ascii_text(s),
    ensures
        is_ascii_text(trimmed_start(s)),
    decreases s.len(),
{
    if s.len() > 0 && is_white_space(s[0]) {
        assert(is_ascii_text(s.skip(1)));
        trimmed_start_is_ascii(s.skip(1));
    }
}

proof fn trimmed_end_is_ascii(s: Seq<char>)
    requires
        is_ascii_text(s),
    ensures
        is_ascii_text(trimmed_end(s)),
    decreases s.len(),
{
    if s.len() > 0 && is_white_space(s.last()) {
        assert(is_ascii_text(s.drop_last()));
        trimmed_end_is_ascii(s.drop_last());
    }
}

pub proof fn pieces_are_ascii(s: Seq<char>, sep: char)
    requires
        is_ascii_text(s),
    ensures
        forall|i: int| 0 <= i < pieces(s, sep).len() ==> is_ascii_text(#[trigger] pieces(s, sep)[i]),
    decreases s.len(),
{
    if s.len() > 0 {
        assert(is_ascii_text(s.drop_last()));
        pieces_are_ascii(s.drop_last(), sep);
        pieces_not_empty(s.drop_last(), sep);
        let before = pieces(s.drop_last(), sep);
        assert(is_ascii_text(before.last()));
        assert forall|i: int| 0 <= i < pieces(s, sep).len() implies is_ascii_text(
            #[trigger] pieces(s, sep)[i],
        ) by {
            if i < before.len() - 1 {
                assert(is_ascii_text(before[i]));
            } else if s.last() != sep {
                assert(pieces(s, sep)[i] == before.last().push(s.last()));
            }
        }
    }
}

/// What `str::to_lowercase` returns for a text.
pub uninterp spec fn unicode_lowercase(s: Seq<char>) -> Seq<char>;

/// `str::to_lowercase`: the lowercase equivalent of a text by the Unicode derived core property
/// `Lowercase`. It depends on the text alone, and of ASCII texts it replaces the capitals by
/// small letters; nothing more is claimed.
#[verifier::external_body]
pub(crate) fn to_lowercase(s: &str) -> (r: String)
    ensures
        r@ == unicode_lowercase(s@),
        is_ascii_text(s@) ==> r@ == lowered(s@),
{
    s.to_lowercase()
}

/// What `str::to_uppercase` returns for a text.
pub uninterp spec fn unicode_uppercase(s: Seq<char>) -> Seq<char>;

/// `str::to_uppercase`: the uppercase equivalent of a text by the Unicode derived core property
/// `Uppercase`. It depends on the text alone, and of ASCII texts it replaces the small letters
/// by capitals; nothing more is claimed.
#[verifier::external_body]
pub(crate) fn to_uppercase(s: &str) -> (r: String)
    ensures
        r@ == unicode_uppercase(s@),
        is_ascii_text(s@) ==> r@ == raised(s@),
{
    s.to_uppercase()
}

// ---------------------------------------------------------------------------
// Splitting and replacing
// ---------------------------------------------------------------------------

/// The pieces of `s` between the copies of `sep`; always at least one.
pub open spec fn pieces(s: Seq<char>, sep: char) -> Seq<Seq<char>>
    decreases s.len(),
{
    if s.len() == 0 {
        seq![Seq::empty()]
    } else {
        let before = pieces(s.drop_last(), sep);
        if s.last() == sep {
            before.push(Seq::empty())
        } else {
            before.drop_last().push(before.last().push(s.last()))
        }
    }
}

pub proof fn pieces_not_empty(s: Seq<char>, sep: char)
    ensures
        pieces(s, sep).len() >= 1,
    decreases s.len(),
{
    if s.len() > 0 {
        pieces_not_empty(s.drop_last(), sep);
    }
}

pub fn split(s: &str, sep: char) -> (r: Vec<String>)
    ensures
        texts(r@) == pieces(s@, sep),
        r@.len() >= 1,
{
    let v = chars_of(s);
    let mut parts: Vec<String> = Vec::new();
    let mut cur = String::new();
    let mut i: usize = 0;
    while i < v.len()
        invariant
            i <= v@.len(),
            texts(parts@).push(cur@) == pieces(v@.take(i as int), sep),
        decreases v@.len() - i,
    {
        let ghost before = pieces(v@.take(i as int), sep);
        proof {
            assert(v@.take(i + 1).drop_last() =~= v@.take(i as int));
            assert(before.drop_last() =~= texts(parts@));
        }
        if v[i] == sep {
            let ghost done = parts@;
            parts.push(cur);
            proof {
                assert(texts(parts@) =~= before);
            }
            cur = String::new();
        } else {
            cur.push(v[i]);
        }
        i += 1;
    }
    let ghost done = parts@;
    let ghost tail = cur@;
    parts.push(cur);
    proof {
        assert(v@.take(i as int) =~= s@);
        assert(texts(parts@) =~= texts(done).push(tail));
    }
    parts
}

/// The pieces of `s` between white space characters, empty ones counted.
pub open spec fn gaps(s: Seq<char>) -> Seq<Seq<char>>
    decreases s.len(),
{
    if s.len() == 0 {
        seq![Seq::empty()]
    } else {
        let before = gaps(s.drop_last());
        if is_white_space(s.last()) {
            before.push(Seq::empty())
        } else {
            before.drop_last().push(before.last().push(s.last()))
        }
    }
}

/// The list without its empty texts.
pub open spec fn nonempty(list: Seq<Seq<char>>) -> Seq<Seq<char>>
    decreases list.len(),
{
    if list.len() == 0 {
        Seq::empty()
    } else if list.last().len() == 0 {
        nonempty(list.drop_last())
    } else {
        nonempty(list.drop_last()).push(list.last())
    }
}

/// The words of `s`: the longest stretches without white space.
pub open spec fn words(s: Seq<char>) -> Seq<Seq<char>> {
    nonempty(gaps(s))
}

pub fn split_whitespace(s: &str) -> (r: Vec<String>)
    ensures
        texts(r@) == words(s@),
{
    let v = chars_of(s);
    let mut parts: Vec<String> = Vec::new();
    let mut cur = String::new();
    let mut i: usize = 0;
    let ghost mut done: Seq<Seq<char>> = Seq::empty();
    while i < v.len()
        invariant
            i <= v@.len(),
            done.push(cur@) == gaps(v@.take(i as int)),
            texts(parts@) == nonempty(done),
        decreases v@.len() - i,
    {
        proof {
            assert(v@.take(i + 1).drop_last() =~= v@.take(i as int));
            assert(done.push(cur@).drop_last() =~= done);
        }
        if white_space(v[i]) {
            let ghost old_parts = parts@;
            let ghost word = cur@;
            if !cur.as_str().is_empty() {
                parts.push(cur);
                proof {
                    assert(texts(parts@) =~= texts(old_parts).push(word));
                }
            }
            proof {
                done = done.push(word);
            }
            cur = String::new();
        } else {
            cur.push(v[i]);
        }
        i += 1;
    }
    proof {
        assert(v@.take(i as int) =~= s@);
        assert(done.push(cur@).drop_last() =~= done);
    }
    let ghost old_parts = parts@;
    let ghost word = cur@;
    if !cur.as_str().is_empty() {
        parts.push(cur);
        proof {
            assert(texts(parts@) =~= texts(old_parts).push(word));
        }
    }
    parts
}

/// `s` with every copy of `from` replaced by the text `to`.
pub open spec fn replaced(s: Seq<char>, from: char, to: Seq<char>) -> Seq<char>
    decreases s.len(),
{
    if s.len() == 0 {
        Seq::empty()
    } else if s.last() == from {
        replaced(s.drop_last(), from, to) + to
    } else {
        replaced(s.drop_last(), from, to).push(s.last())
    }
}

pub fn replace(s: &str, from: char, to: &str) -> (r: String)
    ensures
        r@ == replaced(s@, from, to@),
{
    let v = chars_of(s);
    let mut out = String::new();
    let mut i: usize = 0;
    while i < v.len()
        invariant
            i <= v@.len(),
            out@ == replaced(v@.take(i as int), from, to@),
        decreases v@.len() - i,
    {
        proof {
            assert(v@.take(i + 1).drop_last() =~= v@.take(i as int));
        }
        if v[i] == from {
            out.append(to);
        } else {
            out.push(v[i]);
        }
        i += 1;
    }
    proof {
        assert(v@.take(i as int) =~= s@);
    }
    out
}

/// The part of `s` before the first occurrence of `p`, and all of `s` where there is none.
pub open spec fn before_first(s: Seq<char>, p: Seq<char>) -> Seq<char> {
    match found(s, p) {
        Some(i) => s.take(i),
        None => s,
    }
}

/// The part of `s` behind the first occurrence of `p`.
pub open spec fn after_first(s: Seq<char>, p: Seq<char>) -> Option<Seq<char>> {
    match found(s, p) {
        Some(i) => Some(s.skip(i + p.len())),
        None => None,
    }
}

pub fn head_before(s: &str, p: &str) -> (r: String)
    ensures
        r@ == before_first(s@, p@),
{
    match find(s, p) {
        Some(i) => {
            proof {
                assert(s@.take(i as int) =~= s@.subrange(0, i as int));
            }
            text_between(&chars_of(s), 0, i)
        },
        None => s.to_owned(),
    }
}

pub fn tail_after(s: &str, p: &str) -> (r: Option<String>)
    ensures
        view_option(r) == after_first(s@, p@),
{
    match find(s, p) {
        Some(i) => {
            let v = chars_of(s);
            let n = v.len();
            let k = chars_of(p).len();
            proof {
                assert(s@.skip(i + k) =~= s@.subrange(i + k, n as int));
            }
            Some(text_between(&v, i + k, n))
        },
        None => None,
    }
}

/// The first line of a text: what precedes the first line feed, without the carriage return
/// that directly precedes it.
pub open spec fn first_line_of(s: Seq<char>) -> Seq<char> {
    match found(s, seq!['\n']) {
        Some(i) => if i > 0 && s[i - 1] == '\r' {
            s.take(i - 1)
        } else {
            s.take(i)
        },
        None => s,
    }
}

pub fn first_line(s: &str) -> (r: String)
    ensures
        r@ == first_line_of(s@),
{
    let v = chars_of(s);
    let mut feed: Vec<char> = Vec::new();
    feed.push('\n');
    proof {
        assert(feed@ =~= seq!['\n']);
    }
    match find_chars(&v, &feed) {
        Some(i) => {
            if i > 0 && v[i - 1] == '\r' {
                proof {
                    assert(s@.take(i - 1) =~= s@.subrange(0, i - 1));
                }
                text_between(&v, 0, i - 1)
            } else {
                proof {
                    assert(s@.take(i as int) =~= s@.subrange(0, i as int));
                }
                text_between(&v, 0, i)
            }
        },
        None => s.to_owned(),
    }
}

// ---------------------------------------------------------------------------
// Laws of texts
// ---------------------------------------------------------------------------

/// Whether every character of a text is white space.
pub open spec fn all_white(s: Seq<char>) -> bool {
    forall|i: int| 0 <= i < s.len() ==> is_white_space(#[trigger] s[i])
}

/// Whether no character of a text is white space.
pub open spec fn no_white(s: Seq<char>) -> bool {
    forall|i: int| 0 <= i < s.len() ==> !is_white_space(#[trigger] s[i])
}

proof fn leading_white_goes(a: Seq<char>, s: Seq<char>)
    requires
        all_white(a),
    ensures
        trimmed_start(a + s) == trimmed_start(s),
    decreases a.len(),
{
    if a.len() > 0 {
        assert((a + s)[0] == a[0]);
        assert((a + s).drop_first() =~= a.drop_first() + s);
        leading_white_goes(a.drop_first(), s);
    } else {
        assert(a + s =~= s);
    }
}

proof fn trailing_white_goes(s: Seq<char>, b: Seq<char>)
    requires
        all_white(b),
    ensures
        trimmed_end(s + b) == trimmed_end(s),
    decreases b.len(),
{
    if b.len() > 0 {
        assert((s + b).last() == b.last());
        assert((s + b).drop_last() =~= s + b.drop_last());
        trailing_white_goes(s, b.drop_last());
    } else {
        assert(s + b =~= s);
    }
}

/// Trimming takes off the white space around a text and nothing else.
pub proof fn trimming_takes_off_white_space(a: Seq<char>, s: Seq<char>, b: Seq<char>)
    requires
        all_white(a),
        all_white(b),
        s.len() > 0,
        !is_white_space(s[0]),
        !is_white_space(s.last()),
    ensures
        trimmed(a + s + b) == s,
        !is_blank(a + s + b),
{
    assert(a + s + b =~= a + (s + b));
    leading_white_goes(a, s + b);
    assert((s + b)[0] == s[0]);
    trailing_white_goes(s, b);
}

/// A text is blank where it is made of white space, and only there.
pub proof fn blank_texts_are_white(s: Seq<char>)
    ensures
        is_blank(s) <==> all_white(s),
    decreases s.len(),
{
    if all_white(s) {
        leading_white_goes(s, Seq::empty());
        assert(s + Seq::<char>::empty() =~= s);
    } else {
        let i = choose|i: int| 0 <= i < s.len() && !is_white_space(#[trigger] s[i]);
        words_are_not_blank(s, i);
    }
}

/// A text with a character that is not white space is not blank.
pub proof fn words_are_not_blank(s: Seq<char>, i: int)
    requires
        0 <= i < s.len(),
        !is_white_space(s[i]),
    ensures
        !is_blank(s),
    decreases s.len(),
{
    if is_white_space(s[0]) {
        assert(s.drop_first()[i - 1] == s[i]);
        words_are_not_blank(s.drop_first(), i - 1);
    } else {
        first_stays(s);
    }
}

proof fn first_stays(s: Seq<char>)
    requires
        s.len() > 0,
        !is_white_space(s[0]),
    ensures
        trimmed_end(s).len() > 0,
    decreases s.len(),
{
    if is_white_space(s.last()) {
        assert(s.len() > 1);
        assert(s.drop_last()[0] == s[0]);
        first_stays(s.drop_last());
    }
}

proof fn gaps_not_empty(s: Seq<char>)
    ensures
        gaps(s).len() >= 1,
    decreases s.len(),
{
    if s.len() > 0 {
        gaps_not_empty(s.drop_last());
    }
}

proof fn gaps_of_one(w: Seq<char>)
    requires
        no_white(w),
    ensures
        gaps(w) == seq![w],
    decreases w.len(),
{
    if w.len() > 0 {
        gaps_of_one(w.drop_last());
        assert(gaps(w) =~= seq![w.drop_last().push(w.last())]);
        assert(w.drop_last().push(w.last()) =~= w);
    } else {
        assert(w =~= Seq::<char>::empty());
    }
}

proof fn gaps_from_front(w: Seq<char>, c: char, rest: Seq<char>)
    requires
        no_white(w),
        is_white_space(c),
    ensures
        gaps(w.push(c) + rest) == seq![w] + gaps(rest),
    decreases rest.len(),
{
    let all = w.push(c) + rest;
    if rest.len() == 0 {
        assert(all =~= w.push(c));
        assert(all.drop_last() =~= w);
        gaps_of_one(w);
        assert(gaps(all) =~= seq![w] + seq![Seq::<char>::empty()]);
    } else {
        let less = rest.drop_last();
        gaps_from_front(w, c, less);
        gaps_not_empty(less);
        assert(all.drop_last() =~= w.push(c) + less);
        let before = gaps(less);
        if is_white_space(rest.last()) {
            assert(gaps(all) =~= seq![w] + gaps(rest));
        } else {
            assert((seq![w] + before).drop_last() =~= seq![w] + before.drop_last());
            assert((seq![w] + before).last() == before.last());
            assert(gaps(all) =~= seq![w] + gaps(rest));
        }
    }
}

proof fn nonempty_from_front(w: Seq<char>, list: Seq<Seq<char>>)
    ensures
        nonempty(seq![w] + list) == (if w.len() > 0 {
            seq![w]
        } else {
            Seq::empty()
        }) + nonempty(list),
    decreases list.len(),
{
    let all = seq![w] + list;
    if list.len() == 0 {
        assert(all =~= seq![w]);
        assert(all.drop_last() =~= Seq::<Seq<char>>::empty());
        assert(nonempty(all.drop_last()) =~= Seq::<Seq<char>>::empty());
        assert(all.last() == w);
        assert(nonempty(list) =~= Seq::<Seq<char>>::empty());
        assert(nonempty(all) =~= (if w.len() > 0 {
            seq![w]
        } else {
            Seq::empty()
        }) + nonempty(list));
    } else {
        nonempty_from_front(w, list.drop_last());
        assert(all.drop_last() =~= seq![w] + list.drop_last());
        assert(all.last() == list.last());
        let front = if w.len() > 0 {
            seq![w]
        } else {
            Seq::<Seq<char>>::empty()
        };
        assert(nonempty(all.drop_last()) == front + nonempty(list.drop_last()));
        if list.last().len() > 0 {
            assert((front + nonempty(list.drop_last())).push(list.last()) =~= front + nonempty(
                list.drop_last(),
            ).push(list.last()));
        }
        assert(nonempty(all) =~= (if w.len() > 0 {
            seq![w]
        } else {
            Seq::empty()
        }) + nonempty(list));
    }
}

/// The words of a text are its first word and those of what follows the white space behind it.
pub proof fn first_word_comes_first(w: Seq<char>, c: char, rest: Seq<char>)
    requires
        w.len() > 0,
        no_white(w),
        is_white_space(c),
    ensures
        words(w.push(c) + rest) == seq![w] + words(rest),
{
    gaps_from_front(w, c, rest);
    nonempty_from_front(w, gaps(rest));
}

/// A text without white space is a word.
pub proof fn one_word(w: Seq<char>)
    requires
        w.len() > 0,
        no_white(w),
    ensures
        words(w) == seq![w],
{
    gaps_of_one(w);
    nonempty_from_front(w, Seq::empty());
    assert(seq![w] + Seq::<Seq<char>>::empty() =~= seq![w]);
    assert(seq![w] + nonempty(Seq::empty()) =~= seq![w]);
}

proof fn pieces_of_one(w: Seq<char>, sep: char)
    requires
        !w.contains(sep),
    ensures
        pieces(w, sep) == seq![w],
    decreases w.len(),
{
    if w.len() > 0 {
        assert(!w.drop_last().contains(sep)) by {
            if w.drop_last().contains(sep) {
                let i = choose|i: int| 0 <= i < w.len() - 1 && w.drop_last()[i] == sep;
                assert(w[i] == sep);
            }
        }
        assert(w[w.len() - 1] != sep);
        pieces_of_one(w.drop_last(), sep);
        assert(w.drop_last().push(w.last()) =~= w);
        assert(pieces(w, sep) =~= seq![w]);
    } else {
        assert(w =~= Seq::<char>::empty());
    }
}

proof fn pieces_from_front(w: Seq<char>, sep: char, rest: Seq<char>)
    requires
        !w.contains(sep),
    ensures
        pieces(w.push(sep) + rest, sep) == seq![w] + pieces(rest, sep),
    decreases rest.len(),
{
    let all = w.push(sep) + rest;
    if rest.len() == 0 {
        assert(all =~= w.push(sep));
        assert(all.drop_last() =~= w);
        pieces_of_one(w, sep);
        assert(pieces(all, sep) =~= seq![w] + seq![Seq::<char>::empty()]);
    } else {
        let less = rest.drop_last();
        pieces_from_front(w, sep, less);
        pieces_not_empty(less, sep);
        assert(all.drop_last() =~= w.push(sep) + less);
        let before = pieces(less, sep);
        if rest.last() == sep {
            assert(pieces(all, sep) =~= seq![w] + pieces(rest, sep));
        } else {
            assert((seq![w] + before).drop_last() =~= seq![w] + before.drop_last());
            assert((seq![w] + before).last() == before.last());
            assert(pieces(all, sep) =~= seq![w] + pieces(rest, sep));
        }
    }
}

/// Splitting cuts at each separator: the pieces of a text are what stands before the first one
/// and the pieces of what follows it; a text without one is its only piece.
pub proof fn splitting_cuts_at_separators(w: Seq<char>, sep: char, rest: Seq<char>)
    requires
        !w.contains(sep),
    ensures
        pieces(w.push(sep) + rest, sep) == seq![w] + pieces(rest, sep),
        pieces(w, sep) == seq![w],
{
    pieces_of_one(w, sep);
    pieces_from_front(w, sep, rest);
}

/// A text begins with the first part of it, ends with the last and holds each; what follows the
/// first part is the rest.
pub proof fn parts_are_found(a: Seq<char>, b: Seq<char>, c: Seq<char>)
    ensures
        begins(a + b + c, a),
        ends(a + b + c, c),
        has(a + b + c, b),
        after_prefix(a + b + c, a) == Some(b + c),
{
    let s = a + b + c;
    assert(s.take(a.len() as int) =~= a);
    assert(s.skip(s.len() - c.len()) =~= c);
    assert(s.skip(a.len() as int) =~= b + c);
    assert(s.subrange(a.len() as int, (a.len() + b.len()) as int) =~= b);
    assert(matches_at(s, b, a.len() as int));
    if found(s, b) is None {
        found_is_first(s, b, 0);
    }
}

/// A text that begins with another has its characters in front; one that holds another has them
/// in a row somewhere.
pub proof fn found_parts_are_there(s: Seq<char>, p: Seq<char>, i: int)
    ensures
        begins(s, p) && 0 <= i < p.len() ==> s[i] == p[i],
        ends(s, p) && 0 <= i < p.len() ==> s[s.len() - p.len() + i] == p[i],
        has(s, p) ==> exists|k: int|
            0 <= k && k + p.len() <= s.len() && #[trigger] s.subrange(k, k + p.len()) == p,
{
    if begins(s, p) && 0 <= i < p.len() {
        assert(s.take(p.len() as int)[i] == s[i]);
    }
    if ends(s, p) && 0 <= i < p.len() {
        assert(s.skip(s.len() - p.len())[i] == s[s.len() - p.len() + i]);
    }
    if has(s, p) {
        found_is_first(s, p, 0);
    }
}

/// Small letters stay, capitals become the small letters thirty-two places on, and everything
/// else stays; comparing without regard to case goes by that.
pub proof fn lowering_changes_capitals_only(s: Seq<char>, i: int)
    requires
        0 <= i < s.len(),
    ensures
        lowered(s).len() == s.len(),
        raised(s).len() == s.len(),
        'A' <= s[i] <= 'Z' ==> lowered(s)[i] as int == s[i] as int + 32,
        !('A' <= s[i] <= 'Z') ==> lowered(s)[i] == s[i],
        'a' <= s[i] <= 'z' ==> raised(s)[i] as int == s[i] as int - 32,
        !('a' <= s[i] <= 'z') ==> raised(s)[i] == s[i],
        alike(s, lowered(s)),
        alike(s, raised(s)),
{
    assert(lowered(lowered(s)) =~= lowered(s));
    assert(lowered(raised(s)) =~= lowered(s));
}

/// Texts that are alike are as long as each other and differ in case only.
pub proof fn alike_texts_differ_in_case(a: Seq<char>, b: Seq<char>, i: int)
    requires
        alike(a, b),
        0 <= i < a.len(),
    ensures
        a.len() == b.len(),
        a[i] == b[i] || a[i] as int == b[i] as int + 32 || a[i] as int + 32 == b[i] as int,
{
    assert(lowered(a).len() == lowered(b).len());
    assert(lowered(a)[i] == lowered(b)[i]);
}

/// Without the character, replacing changes nothing; a copy of it is replaced where it stands.
pub proof fn replacing_goes_piece_by_piece(a: Seq<char>, from: char, to: Seq<char>, b: Seq<char>)
    ensures
        !a.contains(from) ==> replaced(a, from, to) == a,
        replaced(a + b, from, to) == replaced(a, from, to) + replaced(b, from, to),
        replaced(seq![from], from, to) == to,
    decreases b.len(), a.len(),
{
    reveal_with_fuel(replaced, 2);
    if a.len() > 0 {
        replacing_goes_piece_by_piece(a.drop_last(), from, to, Seq::empty());
        if !a.contains(from) {
            assert(!a.drop_last().contains(from)) by {
                if a.drop_last().contains(from) {
                    let i = choose|i: int| 0 <= i < a.len() - 1 && a.drop_last()[i] == from;
                    assert(a[i] == from);
                }
            }
            assert(a[a.len() - 1] != from);
            assert(a.drop_last().push(a.last()) =~= a);
        }
    }
    if b.len() > 0 {
        replacing_goes_piece_by_piece(a, from, to, b.drop_last());
        assert((a + b).drop_last() =~= a + b.drop_last());
        assert((a + b).last() == b.last());
        assert(replaced(a + b, from, to) =~= replaced(a, from, to) + replaced(b, from, to));
    } else {
        assert(a + b =~= a);
        assert(replaced(a, from, to) + Seq::<char>::empty() =~= replaced(a, from, to));
    }
    assert(seq![from].drop_last() =~= Seq::<char>::empty());
    assert(replaced(seq![from], from, to) =~= to);
}

/// Joining puts the separator between the parts, and nothing else.
pub proof fn joining_puts_separators_between(parts: Seq<Seq<char>>, part: Seq<char>, sep: Seq<char>)
    ensures
        joined(Seq::empty(), sep).len() == 0,
        joined(seq![part], sep) == part,
        parts.len() > 0 ==> joined(parts.push(part), sep) == joined(parts, sep) + sep + part,
{
    assert(parts.push(part).drop_last() =~= parts);
}

/// What stands before and behind the first occurrence of a part makes up the text with it.
pub proof fn texts_are_cut_at_a_part(s: Seq<char>, p: Seq<char>)
    ensures
        has(s, p) ==> after_first(s, p) is Some
            && s == before_first(s, p) + p + after_first(s, p)->0,
        !(has(s, p)) ==> before_first(s, p) == s && after_first(s, p) is None,
        has(s, p) && p.len() > 0 ==> !(has(before_first(s, p), p)),
{
    found_is_first(s, p, 0);
    if has(s, p) {
        let k = choose|k: int| matches_at(s, p, k);
        assert(matches_at(s, p, k));
        let i = found(s, p)->0;
        assert(s.take(i) + p + s.skip(i + p.len()) =~= s) by {
            assert(s.subrange(i, i + p.len()) == p);
        }
        let head = s.take(i);
        if p.len() > 0 && has(head, p) {
            let j = choose|j: int| matches_at(head, p, j);
            assert(head.subrange(j, j + p.len()) =~= s.subrange(j, j + p.len()));
            assert(matches_at(s, p, j));
        }
    }
}

/// The first line ends before the first end of line, with or without a carriage return.
pub proof fn first_lines_end_at_the_end_of_line(line: Seq<char>, rest: Seq<char>)
    requires
        !line.contains('\n'),
    ensures
        first_line_of(line + seq!['\r', '\n'] + rest) == line,
        line.len() == 0 || line.last() != '\r' ==> first_line_of(line.push('\n') + rest) == line,
        first_line_of(line) == line,
{
    let nl = seq!['\n'];
    let n = line.len() as int;
    let a = line + seq!['\r', '\n'] + rest;
    found_is_first(a, nl, 0);
    assert(a.subrange(n + 1, n + 2) =~= nl);
    assert(matches_at(a, nl, n + 1));
    let i = found(a, nl)->0;
    assert(a.subrange(i, i + 1)[0] == a[i]);
    if i < n {
        assert(line[i] == '\n');
    }
    assert(i == n + 1);
    assert(a.take(n) =~= line);
    let b = line.push('\n') + rest;
    found_is_first(b, nl, 0);
    assert(b.subrange(n, n + 1) =~= nl);
    assert(matches_at(b, nl, n));
    let j = found(b, nl)->0;
    assert(b.subrange(j, j + 1)[0] == b[j]);
    if j < n {
        assert(line[j] == '\n');
    }
    assert(b.take(n) =~= line);
    if n > 0 {
        assert(b[n - 1] == line.last());
    }
    found_is_first(line, nl, 0);
    if found(line, nl) is Some {
        let k = found(line, nl)->0;
        assert(line.subrange(k, k + 1)[0] == line[k]);
    }
}

} // verus!
