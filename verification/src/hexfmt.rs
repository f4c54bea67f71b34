//! Hexadecimal prefixes and the lowercase hex rendering of digests.
//!
//! A search target is a non-empty string of hex characters; a candidate
//! digest matches it when the digest's canonical lowercase hex rendering
//! starts with the target. Prefixes may use uppercase hex characters and
//! are still well-formed, but they are compared verbatim against the
//! lowercase rendering, so an uppercase prefix never matches.

use vstd::prelude::*;

verus! {

/// Whether `c` is an ASCII hexadecimal character, `0-9`, `a-f` or `A-F`.
pub open spec fn is_hex_char(c: char) -> bool {
    ||| '0' as u32 <= c as u32 && c as u32 <= '9' as u32
    ||| 'a' as u32 <= c as u32 && c as u32 <= 'f' as u32
    ||| 'A' as u32 <= c as u32 && c as u32 <= 'F' as u32
}

/// A well-formed search prefix: non-empty, hex characters only.
pub open spec fn valid_prefix(p: Seq<char>) -> bool {
    &&& p.len() >= 1
    &&& forall|i: int| 0 <= i < p.len() ==> is_hex_char(#[trigger] p[i])
}

/// The lowercase hex character for the nibble `n`.
pub open spec fn nibble_char(n: u8) -> char
    recommends
        n < 16,
{
    if n == 0 { '0' } else if n == 1 { '1' } else if n == 2 { '2' } else if n == 3 { '3' }
    else if n == 4 { '4' } else if n == 5 { '5' } else if n == 6 { '6' } else if n == 7 { '7' }
    else if n == 8 { '8' } else if n == 9 { '9' } else if n == 10 { 'a' } else if n == 11 { 'b' }
    else if n == 12 { 'c' } else if n == 13 { 'd' } else if n == 14 { 'e' } else { 'f' }
}

/// Character `i` of the lowercase hex rendering of the byte string `d`:
/// byte `i / 2`'s high nibble at even positions, low nibble at odd ones.
pub open spec fn hex_char_at(d: Seq<u8>, i: int) -> char
    recommends
        0 <= i < 2 * d.len(),
{
    if i % 2 == 0 {
        nibble_char(d[i / 2] / 16)
    } else {
        nibble_char(d[i / 2] % 16)
    }
}

/// The full lowercase hex rendering of `d`, two characters per byte.
pub open spec fn hex_render(d: Seq<u8>) -> Seq<char> {
    Seq::new(2 * d.len(), |i: int| hex_char_at(d, i))
}

/// Whether the lowercase hex rendering of `d` starts with `p`.
pub open spec fn matches_prefix(d: Seq<u8>, p: Seq<char>) -> bool {
    &&& p.len() <= 2 * d.len()
    &&& forall|i: int| 0 <= i < p.len() ==> #[trigger] p[i] == hex_char_at(d, i)
}

/// The rendering of a digest starts with `p` exactly when `d` matches `p`.
pub proof fn lemma_matches_is_rendering_prefix(d: Seq<u8>, p: Seq<char>)
    requires
        matches_prefix(d, p),
    ensures
        hex_render(d).len() >= p.len(),
        hex_render(d).subrange(0, p.len() as int) =~= p,
{
}

fn is_hex_char_exec(c: char) -> (r: bool)
    ensures
        r == is_hex_char(c),
{
    let u = c as u32;
    ('0' as u32 <= u && u <= '9' as u32) || ('a' as u32 <= u && u <= 'f' as u32) || ('A' as u32
        <= u && u <= 'F' as u32)
}

/// Checks that `p` is a well-formed search prefix.
pub fn check_prefix(p: &str) -> (r: bool)
    ensures
        r == valid_prefix(p@),
{
    let n = p.unicode_len();
    if n == 0 {
        return false;
    }
    for i in 0..n
        invariant
            n == p@.len(),
            forall|j: int| 0 <= j < i ==> is_hex_char(#[trigger] p@[j]),
    {
        let c = p.get_char(i);
        if !is_hex_char_exec(c) {
            return false;
        }
    }
    true
}

/// The characters of `s`, for position-wise work on short strings.
pub fn str_chars(s: &str) -> (r: Vec<char>)
    ensures
        r@ == s@,
{
    let n = s.unicode_len();
    let mut r: Vec<char> = Vec::new();
    for i in 0..n
        invariant
            n == s@.len(),
            r@ =~= s@.subrange(0, i as int),
    {
        r.push(s.get_char(i));
    }
    proof {
        assert(r@ =~= s@);
    }
    r
}

fn nibble_char_exec(n: u8) -> (c: char)
    requires
        n < 16,
    ensures
        c == nibble_char(n),
{
    if n == 0 { '0' } else if n == 1 { '1' } else if n == 2 { '2' } else if n == 3 { '3' }
    else if n == 4 { '4' } else if n == 5 { '5' } else if n == 6 { '6' } else if n == 7 { '7' }
    else if n == 8 { '8' } else if n == 9 { '9' } else if n == 10 { 'a' } else if n == 11 { 'b' }
    else if n == 12 { 'c' } else if n == 13 { 'd' } else if n == 14 { 'e' } else { 'f' }
}

/// Whether the lowercase hex rendering of the digest `d` starts with the
/// prefix `p`, without building the rendering.
pub fn digest_matches_prefix(d: &Vec<u8>, p: &Vec<char>) -> (r: bool)
    ensures
        r == matches_prefix(d@, p@),
{
    // Bytes needed so that the rendering has at least `p.len()` characters.
    let need = p.len() / 2 + p.len() % 2;
    if need > d.len() {
        assert(p@.len() > 2 * d@.len());
        return false;
    }
    assert(p@.len() <= 2 * d@.len());
    for i in 0..p.len()
        invariant
            p@.len() <= 2 * d@.len(),
            forall|j: int| 0 <= j < i ==> #[trigger] p@[j] == hex_char_at(d@, j),
    {
        let byte = d[i / 2];
        let nib = if i % 2 == 0 {
            byte / 16
        } else {
            byte % 16
        };
        let c = nibble_char_exec(nib);
        if c != p[i] {
            return false;
        }
    }
    true
}

/// The lowercase hex rendering of `d` as an owned character vector.
pub fn render_hex(d: &Vec<u8>) -> (r: Vec<char>)
    requires
        d@.len() <= usize::MAX / 2,
    ensures
        r@ == hex_render(d@),
{
    let mut r: Vec<char> = Vec::new();
    let n = 2 * d.len();
    for i in 0..n
        invariant
            n == 2 * d@.len(),
            r@.len() == i,
            forall|j: int| 0 <= j < i ==> #[trigger] r@[j] == hex_char_at(d@, j),
    {
        let byte = d[i / 2];
        let nib = if i % 2 == 0 {
            byte / 16
        } else {
            byte % 16
        };
        r.push(nibble_char_exec(nib));
    }
    proof {
        assert(r@ =~= hex_render(d@));
    }
    r
}

} // verus!
