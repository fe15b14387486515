use vstd::prelude::*;
use vstd::slice::slice_subrange;
use vstd::string::StringSliceAdditionalSpecFns;
use crate::color::Color;

verus! {

// ---------------------------------------------------------------------------
// The colour grammar, stated over the UTF-8 bytes of the input.
// ---------------------------------------------------------------------------

/// ASCII whitespace, as trimmed around a value and around each channel.
pub open spec fn is_space(b: u8) -> bool {
    b == 0x20 || b == 0x09 || b == 0x0a || b == 0x0c || b == 0x0d
}

/// `s` without its leading whitespace.
pub open spec fn trim_start(s: Seq<u8>) -> Seq<u8>
    decreases s.len(),
{
    if s.len() > 0 && is_space(s[0]) {
        trim_start(s.drop_first())
    } else {
        s
    }
}

/// `s` without its trailing whitespace.
pub open spec fn trim_end(s: Seq<u8>) -> Seq<u8>
    decreases s.len(),
{
    if s.len() > 0 && is_space(s.last()) {
        trim_end(s.drop_last())
    } else {
        s
    }
}

/// `s` without whitespace at either end.
pub open spec fn trim(s: Seq<u8>) -> Seq<u8> {
    trim_end(trim_start(s))
}

pub open spec fn is_dec_digit(b: u8) -> bool {
    0x30 <= b <= 0x39
}

pub open spec fn all_dec_digits(s: Seq<u8>) -> bool {
    forall|i: int| 0 <= i < s.len() ==> is_dec_digit(#[trigger] s[i])
}

/// The number that a string of decimal digits writes, most significant first.
pub open spec fn dec_value(s: Seq<u8>) -> nat
    decreases s.len(),
{
    if s.len() == 0 {
        0
    } else {
        dec_value(s.drop_last()) * 10 + (s.last() - 0x30) as nat
    }
}

pub open spec fn pow10(n: nat) -> nat
    decreases n,
{
    if n == 0 {
        1
    } else {
        10 * pow10((n - 1) as nat)
    }
}

pub open spec fn is_hex_digit(b: u8) -> bool {
    (0x30 <= b <= 0x39) || (0x41 <= b <= 0x46) || (0x61 <= b <= 0x66)
}

pub open spec fn hex_value(b: u8) -> nat {
    if 0x30 <= b <= 0x39 {
        (b - 0x30) as nat
    } else if 0x41 <= b <= 0x46 {
        (b - 0x41 + 10) as nat
    } else {
        (b - 0x61 + 10) as nat
    }
}

/// The byte written by the two hex digits at `s[i]` and `s[i + 1]`.
pub open spec fn hex_pair(s: Seq<u8>, i: int) -> u8 {
    (16 * hex_value(s[i]) + hex_value(s[i + 1])) as u8
}

/// `#rrggbb` (after trimming): six hex digits, either case.
pub open spec fn hex_color(t: Seq<u8>) -> Option<Color> {
    if t.len() == 7 && t[0] == 0x23 && (forall|i: int| 1 <= i < 7 ==> is_hex_digit(#[trigger] t[i])) {
        Some(Color { r: hex_pair(t, 1), g: hex_pair(t, 3), b: hex_pair(t, 5), a: 255 })
    } else {
        None
    }
}


/// The comma-separated pieces of `s`: each comma ends one piece and starts
/// the next, so `k` commas give `k + 1` pieces, some of them possibly empty.
pub open spec fn split_commas(s: Seq<u8>) -> Seq<Seq<u8>>
    decreases s.len(),
{
    if s.len() == 0 {
        seq![Seq::empty()]
    } else {
        let p = split_commas(s.drop_last());
        if s.last() == 0x2c {
            p.push(Seq::empty())
        } else {
            p.update(p.len() - 1, p.last().push(s.last()))
        }
    }
}

/// An integer colour channel: one or more decimal digits worth at most 255,
/// whitespace around them allowed.
pub open spec fn channel(s: Seq<u8>) -> Option<u8> {
    let t = trim(s);
    if t.len() > 0 && all_dec_digits(t) && dec_value(t) <= 255 {
        Some(dec_value(t) as u8)
    } else {
        None
    }
}

/// How many decimal digits `s` starts with.
pub open spec fn lead_digits(s: Seq<u8>) -> nat
    decreases s.len(),
{
    if s.len() > 0 && is_dec_digit(s[0]) {
        1 + lead_digits(s.drop_first())
    } else {
        0
    }
}

/// Whether some digit of `s` is not 0.
pub open spec fn has_nonzero_digit(s: Seq<u8>) -> bool {
    exists|i: int| 0 <= i < s.len() && s[i] != 0x30
}

/// `round(255 * 0.f)`, halves rounded up, for the fraction digits `f`:
/// `floor((floor(510 * 0.f) + 1) / 2)`.
pub open spec fn scaled_fraction(f: Seq<u8>) -> nat {
    (510 * dec_value(f) / pow10(f.len()) + 1) / 2
}

/// Whether the digits `s` write the number 1: a final `1` after zeros only.
pub open spec fn is_one(s: Seq<u8>) -> bool {
    s.len() > 0 && s.last() == 0x31 && !has_nonzero_digit(s.drop_last())
}

/// An alpha channel written as a decimal number `[+] digits [. digits]`
/// (at least one digit in all) in `[0, 1]`, scaled to `[0, 255]` and rounded
/// to the nearest integer, halves up. A value above 1 is malformed.
pub open spec fn alpha_channel(s: Seq<u8>) -> Option<u8> {
    let t = trim(s);
    let signed = t.len() > 0 && t[0] == 0x2b;
    let body = if signed { t.drop_first() } else { t };
    let k = lead_digits(body) as int;
    let int_part = body.take(k);
    let rest = body.skip(k);
    let frac = if rest.len() == 0 { rest } else { rest.drop_first() };
    let well_formed = (rest.len() == 0 || (rest[0] == 0x2e && all_dec_digits(frac)))
        && (k > 0 || frac.len() > 0);
    if !well_formed {
        None
    } else if !has_nonzero_digit(int_part) {
        Some(scaled_fraction(frac) as u8)
    } else if is_one(int_part) && !has_nonzero_digit(frac) {
        Some(255u8)
    } else {
        None
    }
}

pub open spec fn rgb_prefix() -> Seq<u8> {
    seq![0x72u8, 0x67u8, 0x62u8, 0x28u8]
}

pub open spec fn rgba_prefix() -> Seq<u8> {
    seq![0x72u8, 0x67u8, 0x62u8, 0x61u8, 0x28u8]
}

/// The length of the `rgb(` or `rgba(` that `t` starts with, or 0.
pub open spec fn functional_prefix_len(t: Seq<u8>) -> int {
    if t.len() >= 4 && t.take(4) == rgb_prefix() {
        4
    } else if t.len() >= 5 && t.take(5) == rgba_prefix() {
        5
    } else {
        0
    }
}

/// `rgb(r, g, b)`, opaque, or `rgba(r, g, b, a)` (after trimming): each name
/// takes exactly its own number of values.
pub open spec fn rgb_color(t: Seq<u8>) -> Option<Color> {
    let n = functional_prefix_len(t);
    if n == 0 || t.len() < n + 1 || t.last() != 0x29 {
        None
    } else {
        let parts = split_commas(t.subrange(n, t.len() - 1));
        if parts.len() != (if n == 4 { 3int } else { 4int }) {
            None
        } else if channel(parts[0]) is None || channel(parts[1]) is None || channel(parts[2]) is None {
            None
        } else if parts.len() == 4 && alpha_channel(parts[3]) is None {
            None
        } else {
            Some(Color {
                r: channel(parts[0])->0,
                g: channel(parts[1])->0,
                b: channel(parts[2])->0,
                a: if parts.len() == 4 { alpha_channel(parts[3])->0 } else { 255u8 },
            })
        }
    }
}

/// Whether the trimmed text starts the way a supported colour does
/// (`#`, `rgb(` or `rgba(`), so that a failure is a malformed colour rather
/// than an unsupported syntax.
pub open spec fn looks_like_color(s: Seq<u8>) -> bool {
    let t = trim(s);
    (t.len() > 0 && t[0] == 0x23) || functional_prefix_len(t) != 0
}

/// The colour that the text with UTF-8 bytes `s` denotes, if any.
pub open spec fn css_color(s: Seq<u8>) -> Option<Color> {
    let t = trim(s);
    if t.len() > 0 && t[0] == 0x23 {
        hex_color(t)
    } else {
        rgb_color(t)
    }
}


/// `s` without the `#` characters it starts with.
pub open spec fn strip_hashes(s: Seq<u8>) -> Seq<u8>
    decreases s.len(),
{
    if s.len() > 0 && s[0] == 0x23 {
        strip_hashes(s.drop_first())
    } else {
        s
    }
}

/// Six hex digits, after any number of leading `#`, as an opaque colour.
pub open spec fn bare_hex_color(s: Seq<u8>) -> Option<Color> {
    let h = strip_hashes(s);
    if h.len() == 6 && (forall|i: int| 0 <= i < 6 ==> is_hex_digit(#[trigger] h[i])) {
        Some(Color { r: hex_pair(h, 0), g: hex_pair(h, 2), b: hex_pair(h, 4), a: 255 })
    } else {
        None
    }
}

// ---------------------------------------------------------------------------
// Facts about the grammar's arithmetic.
// ---------------------------------------------------------------------------

proof fn lemma_pow10_positive(n: nat)
    ensures
        pow10(n) > 0,
    decreases n,
{
    if n > 0 {
        lemma_pow10_positive((n - 1) as nat);
    }
}

/// Reading digits from the front: the first digit is worth `10^(len - 1)`.
proof fn lemma_dec_value_first(s: Seq<u8>)
    requires
        s.len() > 0,
    ensures
        dec_value(s) == (s[0] - 0x30) as nat * pow10((s.len() - 1) as nat) + dec_value(
            s.drop_first(),
        ),
    decreases s.len(),
{
    if s.len() == 1 {
        assert(s.drop_last() =~= Seq::<u8>::empty());
        assert(s.drop_first() =~= Seq::<u8>::empty());
        assert(dec_value(s.drop_last()) == 0);
        assert(dec_value(s.drop_first()) == 0);
        assert(pow10(0) == 1);
        assert(dec_value(s) == (s.last() - 0x30) as nat);
    } else {
        let d0 = (s[0] - 0x30) as nat;
        let dl = (s.last() - 0x30) as nat;
        let p = pow10((s.len() - 2) as nat);
        lemma_dec_value_first(s.drop_last());
        assert(s.drop_last().drop_first() =~= s.drop_first().drop_last());
        assert(s.drop_last()[0] == s[0]);
        assert(s.drop_first().last() == s.last());
        let m = dec_value(s.drop_first().drop_last());
        assert(dec_value(s.drop_last()) == d0 * p + m);
        assert(dec_value(s.drop_first()) == m * 10 + dl);
        assert(dec_value(s) == (d0 * p + m) * 10 + dl);
        assert(pow10((s.len() - 1) as nat) == 10 * p);
        assert((d0 * p + m) * 10 + dl == d0 * (10 * p) + (m * 10 + dl)) by (nonlinear_arith);
    }
}

/// One step of scaling a fraction from its last digit towards its first.
proof fn lemma_scaled_step(d: nat, n: nat, p: nat)
    requires
        p > 0,
    ensures
        510 * (d * p + n) / (10 * p) == (510 * d + 510 * n / p) / 10,
{
    let x: int = (510 * n) as int;
    let j: int = (510 * d) as int;
    let pi: int = p as int;
    assert(510 * (d * p + n) == x + j * pi) by (nonlinear_arith)
        requires
            x == 510 * n,
            j == 510 * d,
            pi == p,
    ;
    vstd::arithmetic::div_mod::lemma_hoist_over_denominator(x, j, p);
    assert((x + j * pi) / pi == x / pi + j);
    vstd::arithmetic::div_mod::lemma_div_denominator(x + j * pi, pi, 10);
    assert(p * 10 == 10 * p);
}

// ---------------------------------------------------------------------------
// The parser.
// ---------------------------------------------------------------------------

fn is_space_byte(b: u8) -> (r: bool)
    ensures
        r == is_space(b),
{
    b == 0x20 || b == 0x09 || b == 0x0a || b == 0x0c || b == 0x0d
}

/// The bounds of `s` without whitespace at either end.
fn trim_bounds(s: &[u8]) -> (r: (usize, usize))
    ensures
        r.0 <= r.1 <= s@.len(),
        s@.subrange(r.0 as int, r.1 as int) == trim(s@),
{
    let len = s.len();
    let mut i: usize = 0;
    assert(s@.subrange(0, len as int) =~= s@);
    while i < len && is_space_byte(s[i])
        invariant
            i <= len == s@.len(),
            trim_start(s@) == trim_start(s@.subrange(i as int, len as int)),
        decreases len - i,
    {
        assert(s@.subrange(i as int, len as int).drop_first() =~= s@.subrange(
            i + 1,
            len as int,
        ));
        i = i + 1;
    }
    let ghost u = s@.subrange(i as int, len as int);
    assert(trim_start(s@) == u);
    let mut j: usize = len;
    while j > i && is_space_byte(s[j - 1])
        invariant
            i <= j <= len == s@.len(),
            u == s@.subrange(i as int, len as int),
            trim_end(u) == trim_end(s@.subrange(i as int, j as int)),
        decreases j,
    {
        assert(s@.subrange(i as int, j as int).drop_last() =~= s@.subrange(
            i as int,
            j - 1,
        ));
        j = j - 1;
    }
    (i, j)
}

fn hex_digit(b: u8) -> (r: Option<u8>)
    ensures
        r is Some <==> is_hex_digit(b),
        r matches Some(v) ==> v as nat == hex_value(b) && v < 16,
{
    if 0x30 <= b && b <= 0x39 {
        Some(b - 0x30)
    } else if 0x41 <= b && b <= 0x46 {
        Some(b - 0x41 + 10)
    } else if 0x61 <= b && b <= 0x66 {
        Some(b - 0x61 + 10)
    } else {
        None
    }
}

fn hex_byte(t: &[u8], i: usize) -> (r: Option<u8>)
    requires
        i + 1 < t@.len(),
    ensures
        r is Some <==> is_hex_digit(t@[i as int]) && is_hex_digit(t@[i + 1]),
        r matches Some(v) ==> v == hex_pair(t@, i as int),
{
    match (hex_digit(t[i]), hex_digit(t[i + 1])) {
        (Some(h), Some(l)) => Some(h * 16 + l),
        _ => None,
    }
}

fn parse_hex(t: &[u8]) -> (r: Option<Color>)
    ensures
        r == hex_color(t@),
{
    if t.len() != 7 || t[0] != 0x23 {
        return None;
    }
    let r = hex_byte(t, 1);
    let g = hex_byte(t, 3);
    let b = hex_byte(t, 5);
    match (r, g, b) {
        (Some(r), Some(g), Some(b)) => {
            assert forall|i: int| 1 <= i < 7 implies is_hex_digit(#[trigger] t@[i]) by {
                if i == 2 || i == 4 || i == 6 {
                    assert(is_hex_digit(t@[i - 1 + 1]));
                }
            }
            Some(Color { r, g, b, a: 255 })
        },
        _ => {
            assert(!(forall|i: int| 1 <= i < 7 ==> is_hex_digit(#[trigger] t@[i])));
            None
        },
    }
}


fn is_digit_byte(b: u8) -> (r: bool)
    ensures
        r == is_dec_digit(b),
{
    0x30 <= b && b <= 0x39
}

/// Parses an integer channel; see `channel`.
#[verifier::loop_isolation(false)]
fn parse_channel(s: &[u8]) -> (r: Option<u8>)
    ensures
        r == channel(s@),
{
    let (lo, hi) = trim_bounds(s);
    let t = slice_subrange(s, lo, hi);
    assert(t@ == trim(s@));
    if t.len() == 0 {
        return None;
    }
    // The value read so far, saturated at 256.
    let mut v: u16 = 0;
    let mut i: usize = 0;
    assert(t@.take(0) =~= Seq::<u8>::empty());
    while i < t.len()
        invariant
            i <= t@.len(),
            v <= 256,
            v == (if dec_value(t@.take(i as int)) < 256 { dec_value(t@.take(i as int)) } else { 256 }),
            all_dec_digits(t@.take(i as int)),
        decreases t@.len() - i,
    {
        let b = t[i];
        if !is_digit_byte(b) {
            assert(t@[i as int] == b && !is_dec_digit(t@[i as int]));
            assert(!all_dec_digits(trim(s@)));
            return None;
        }
        proof {
            assert(t@.take(i + 1).drop_last() =~= t@.take(i as int));
            assert(t@.take(i + 1).last() == b);
        }
        let nv: u16 = v * 10 + (b - 0x30) as u16;
        v = if nv > 256 { 256 } else { nv };
        i = i + 1;
        assert(all_dec_digits(t@.take(i as int))) by {
            assert forall|k: int| 0 <= k < i implies is_dec_digit(#[trigger] t@.take(i as int)[k]) by {
                if k < i - 1 {
                    assert(t@.take(i as int)[k] == t@.take(i - 1)[k]);
                }
            }
        }
    }
    assert(t@.take(t@.len() as int) =~= t@);
    if v <= 255 {
        Some(v as u8)
    } else {
        None
    }
}

/// How many decimal digits `b` starts with.
fn leading_digits(b: &[u8]) -> (k: usize)
    ensures
        k == lead_digits(b@),
        k <= b@.len(),
{
    let len = b.len();
    let mut k: usize = 0;
    assert(b@.subrange(0, len as int) =~= b@);
    while k < len && is_digit_byte(b[k])
        invariant
            k <= len == b@.len(),
            lead_digits(b@) == k + lead_digits(b@.subrange(k as int, len as int)),
        decreases len - k,
    {
        assert(b@.subrange(k as int, len as int).drop_first() =~= b@.subrange(k + 1, len as int));
        k = k + 1;
    }
    k
}

fn all_digits(b: &[u8]) -> (r: bool)
    ensures
        r == all_dec_digits(b@),
{
    let mut m: usize = 0;
    while m < b.len()
        invariant
            m <= b@.len(),
            forall|i: int| 0 <= i < m ==> is_dec_digit(#[trigger] b@[i]),
        decreases b@.len() - m,
    {
        if !is_digit_byte(b[m]) {
            assert(!is_dec_digit(b@[m as int]));
            return false;
        }
        m = m + 1;
    }
    true
}

/// `scaled_fraction(f)`, built from the last digit towards the first so that
/// no intermediate value exceeds 510.
fn scale_fraction(f: &[u8]) -> (r: u8)
    requires
        all_dec_digits(f@),
    ensures
        r == scaled_fraction(f@),
{
    let flen = f.len();
    let mut q: u32 = 0;
    let mut j: usize = flen;
    proof {
        assert(f@.subrange(flen as int, flen as int) =~= Seq::<u8>::empty());
        assert(dec_value(Seq::<u8>::empty()) == 0);
        assert(pow10(0) == 1);
    }
    while j > 0
        invariant
            j <= flen == f@.len(),
            all_dec_digits(f@),
            q < 510,
            q == 510 * dec_value(f@.subrange(j as int, flen as int)) / pow10((flen - j) as nat),
        decreases j,
    {
        let d = (f[j - 1] - 0x30) as u32;
        proof {
            let g = f@.subrange(j - 1, flen as int);
            let tail = f@.subrange(j as int, flen as int);
            lemma_dec_value_first(g);
            assert(g.drop_first() =~= tail);
            assert(g[0] == f@[j - 1]);
            let p = pow10((flen - j) as nat);
            lemma_pow10_positive((flen - j) as nat);
            assert(pow10((flen - j + 1) as nat) == 10 * p);
            lemma_scaled_step(d as nat, dec_value(tail), p);
        }
        q = (510 * d + q) / 10;
        j = j - 1;
    }
    assert(f@.subrange(0, flen as int) =~= f@);
    ((q + 1) / 2) as u8
}

fn any_nonzero(b: &[u8]) -> (r: bool)
    ensures
        r == has_nonzero_digit(b@),
{
    let mut i: usize = 0;
    while i < b.len()
        invariant
            i <= b@.len(),
            forall|k: int| 0 <= k < i ==> b@[k] == 0x30,
        decreases b@.len() - i,
    {
        if b[i] != 0x30 {
            assert(b@[i as int] != 0x30);
            return true;
        }
        i = i + 1;
    }
    false
}

/// Parses an alpha channel; see `alpha_channel`.
fn parse_alpha(s: &[u8]) -> (r: Option<u8>)
    ensures
        r == alpha_channel(s@),
{
    let (lo, hi) = trim_bounds(s);
    let t = slice_subrange(s, lo, hi);
    let signed = t.len() > 0 && t[0] == 0x2b;
    let body = if signed {
        slice_subrange(t, 1, t.len())
    } else {
        t
    };
    assert(signed ==> body@ =~= t@.drop_first());
    let blen = body.len();
    let k = leading_digits(body);
    let int_part = slice_subrange(body, 0, k);
    assert(int_part@ =~= body@.take(k as int));
    let ghost rest = body@.skip(k as int);
    if k < blen && body[k] != 0x2e {
        assert(rest[0] != 0x2e);
        return None;
    }
    let frac = if k == blen {
        slice_subrange(body, k, k)
    } else {
        slice_subrange(body, k + 1, blen)
    };
    assert(frac@ =~= (if rest.len() == 0 { rest } else { rest.drop_first() }));
    if !all_digits(frac) {
        return None;
    }
    if k == 0 && frac.len() == 0 {
        return None;
    }
    assert(t@ == trim(s@));
    if !any_nonzero(int_part) {
        return Some(scale_fraction(frac));
    }
    let one = int_part[k - 1] == 0x31 && !any_nonzero(slice_subrange(int_part, 0, k - 1));
    assert(int_part@.drop_last() =~= int_part@.subrange(0, k - 1));
    if one && !any_nonzero(frac) {
        Some(255)
    } else {
        None
    }
}

/// What a list of byte strings holds.
pub open spec fn pieces(parts: Seq<Vec<u8>>) -> Seq<Seq<u8>> {
    parts.map_values(|v: Vec<u8>| v@)
}

fn split_on_commas(s: &[u8]) -> (parts: Vec<Vec<u8>>)
    ensures
        pieces(parts@) == split_commas(s@),
{
    let mut parts: Vec<Vec<u8>> = Vec::new();
    let mut cur: Vec<u8> = Vec::new();
    let mut i: usize = 0;
    proof {
        assert(s@.take(0) =~= Seq::<u8>::empty());
        assert(pieces(parts@).push(cur@) =~= seq![Seq::<u8>::empty()]);
    }
    while i < s.len()
        invariant
            i <= s@.len(),
            pieces(parts@).push(cur@) == split_commas(s@.take(i as int)),
        decreases s@.len() - i,
    {
        let ghost before = pieces(parts@).push(cur@);
        proof {
            assert(s@.take(i + 1).drop_last() =~= s@.take(i as int));
            assert(s@.take(i + 1).last() == s@[i as int]);
        }
        if s[i] == 0x2c {
            let done = cur;
            parts.push(done);
            cur = Vec::new();
            assert(pieces(parts@).push(cur@) =~= before.push(Seq::empty()));
        } else {
            cur.push(s[i]);
            assert(pieces(parts@).push(cur@) =~= before.update(
                before.len() - 1,
                before.last().push(s@[i as int]),
            ));
        }
        i = i + 1;
    }
    let ghost before = pieces(parts@).push(cur@);
    parts.push(cur);
    assert(pieces(parts@) =~= before);
    assert(s@.take(s@.len() as int) =~= s@);
    parts
}

/// The length of the `rgb(` or `rgba(` that `t` starts with, or 0.
fn prefix_length(t: &[u8]) -> (n: usize)
    ensures
        n == functional_prefix_len(t@),
{
    if t.len() >= 4 && t[0] == 0x72 && t[1] == 0x67 && t[2] == 0x62 && t[3] == 0x28 {
        assert(t@.take(4) =~= rgb_prefix());
        return 4;
    }
    if t.len() >= 4 {
        assert(t@.take(4)[0] == t@[0] && t@.take(4)[1] == t@[1] && t@.take(4)[2] == t@[2]
            && t@.take(4)[3] == t@[3]);
        assert(rgb_prefix()[0] == 0x72 && rgb_prefix()[1] == 0x67 && rgb_prefix()[2] == 0x62
            && rgb_prefix()[3] == 0x28);
    }
    if t.len() >= 5 && t[0] == 0x72 && t[1] == 0x67 && t[2] == 0x62 && t[3] == 0x61 && t[4]
        == 0x28 {
        assert(t@.take(5) =~= rgba_prefix());
        return 5;
    }
    if t.len() >= 5 {
        assert(t@.take(5)[0] == t@[0] && t@.take(5)[1] == t@[1] && t@.take(5)[2] == t@[2]
            && t@.take(5)[3] == t@[3] && t@.take(5)[4] == t@[4]);
        assert(rgba_prefix()[0] == 0x72 && rgba_prefix()[1] == 0x67 && rgba_prefix()[2] == 0x62
            && rgba_prefix()[3] == 0x61 && rgba_prefix()[4] == 0x28);
    }
    0
}

fn parse_rgb(t: &[u8]) -> (r: Option<Color>)
    ensures
        r == rgb_color(t@),
{
    let n = prefix_length(t);
    if n == 0 || t.len() < n + 1 || t[t.len() - 1] != 0x29 {
        return None;
    }
    let inner = slice_subrange(t, n, t.len() - 1);
    let parts = split_on_commas(inner);
    let ghost dv = pieces(parts@);
    assert(dv.len() == parts@.len());
    let expected: usize = if n == 4 { 3 } else { 4 };
    if parts.len() != expected {
        return None;
    }
    assert(dv[0] == parts@[0]@ && dv[1] == parts@[1]@ && dv[2] == parts@[2]@);
    let r = parse_channel(parts[0].as_slice());
    let g = parse_channel(parts[1].as_slice());
    let b = parse_channel(parts[2].as_slice());
    let a = if parts.len() == 4 {
        assert(dv[3] == parts@[3]@);
        parse_alpha(parts[3].as_slice())
    } else {
        Some(255u8)
    };
    match (r, g, b, a) {
        (Some(r), Some(g), Some(b), Some(a)) => Some(Color { r, g, b, a }),
        _ => None,
    }
}

/// Parses CSS colour text; the outcome is `css_color` of its bytes.
pub fn parse_color_bytes(s: &[u8]) -> (r: Option<Color>)
    ensures
        r == css_color(s@),
{
    let (lo, hi) = trim_bounds(s);
    let t = slice_subrange(s, lo, hi);
    if t.len() > 0 && t[0] == 0x23 {
        parse_hex(t)
    } else {
        parse_rgb(t)
    }
}

/// Reads `rrggbb`, with or without leading `#` characters, as an opaque colour.
pub fn parse_hex_color(hex: &str) -> (r: Option<Color>)
    ensures
        r == bare_hex_color(hex.spec_bytes()),
{
    let b = hex.as_bytes();
    let mut i: usize = 0;
    assert(b@.subrange(0, b@.len() as int) =~= b@);
    while i < b.len() && b[i] == 0x23
        invariant
            i <= b@.len(),
            strip_hashes(b@) == strip_hashes(b@.subrange(i as int, b@.len() as int)),
        decreases b@.len() - i,
    {
        assert(b@.subrange(i as int, b@.len() as int).drop_first() =~= b@.subrange(
            i + 1,
            b@.len() as int,
        ));
        i = i + 1;
    }
    let h = slice_subrange(b, i, b.len());
    assert(strip_hashes(b@) == h@);
    if h.len() != 6 {
        return None;
    }
    match (hex_byte(h, 0), hex_byte(h, 2), hex_byte(h, 4)) {
        (Some(r), Some(g), Some(bl)) => {
            assert forall|k: int| 0 <= k < 6 implies is_hex_digit(#[trigger] h@[k]) by {
                if k == 1 || k == 3 || k == 5 {
                    assert(is_hex_digit(h@[k - 1 + 1]));
                }
            }
            Some(Color { r, g, b: bl, a: 255 })
        },
        _ => None,
    }
}

/// Why a colour could not be read.
#[derive(Debug, Clone)]
pub enum CssParseError {
    /// The text starts like a supported colour but is malformed.
    InvalidColor(String),
    /// The text is in no supported colour syntax.
    UnsupportedFormat(String),
    /// The document holding the styles could not be reached.
    DomAccessFailed,
}

/// Reads colours written in CSS syntax.
pub struct CssParser;

impl CssParser {
    /// Parses `#rrggbb`, `rgb(r, g, b)` or `rgba(r, g, b, a)`, with whitespace
    /// allowed around the value and around each channel. An error carries the
    /// input text.
    pub fn parse_color_from_css(css_value: &str) -> (r: Result<Color, CssParseError>)
        ensures
            r is Ok <==> css_color(css_value.spec_bytes()) is Some,
            r matches Ok(c) ==> css_color(css_value.spec_bytes()) == Some(c),
            r matches Err(CssParseError::InvalidColor(m)) ==> m@ == css_value@ && looks_like_color(
                css_value.spec_bytes(),
            ),
            r matches Err(CssParseError::UnsupportedFormat(m)) ==> m@ == css_value@
                && !looks_like_color(css_value.spec_bytes()),
            !(r matches Err(CssParseError::DomAccessFailed)),
    {
        broadcast use vstd::string::to_string_from_display_ensures_for_str;

        let bytes = css_value.as_bytes();
        let (lo, hi) = trim_bounds(bytes);
        let t = slice_subrange(bytes, lo, hi);
        let looks = (t.len() > 0 && t[0] == 0x23) || prefix_length(t) != 0;
        match parse_color_bytes(bytes) {
            Some(c) => Ok(c),
            None => {
                if looks {
                    Err(CssParseError::InvalidColor(css_value.to_string()))
                } else {
                    Err(CssParseError::UnsupportedFormat(css_value.to_string()))
                }
            },
        }
    }
}

} // verus!
