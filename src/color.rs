//! Colour arithmetic: hex colour parsing, white-point correction and
//! RGB to HSV conversion, all on 8-bit channels with exact integer rounding.
use vstd::prelude::*;

verus! {

/// Nearest integer to `n / d`; a value exactly halfway rounds up.
pub open spec fn round_div(n: nat, d: nat) -> nat
    recommends
        d > 0,
{
    ((2 * n + d) / (2 * d)) as nat
}

/// A colour-correction triple: each channel of a colour is scaled by
/// `channel / 255`. A zero channel would discard that channel entirely, so
/// every channel lies in 1..=255 for a value built by [`WhitePoint::new`].
#[derive(Debug, Clone, Copy, PartialEq, Eq)]
pub struct WhitePoint(pub [u8; 3]);

/// `c` scaled by `w / 255`, rounded to the nearest integer.
pub open spec fn scale_channel(c: u8, w: u8) -> nat {
    round_div(c as nat * w as nat, 255)
}

impl WhitePoint {
    /// Every channel is non-zero.
    pub open spec fn wf(self) -> bool {
        self.0[0] != 0 && self.0[1] != 0 && self.0[2] != 0
    }

    /// The triple as a white point, or `None` when any channel is zero.
    pub fn new(rgb: [u8; 3]) -> (r: Option<Self>)
        ensures
            r is Some <==> (rgb[0] != 0 && rgb[1] != 0 && rgb[2] != 0),
            r matches Some(w) ==> w.0 == rgb && w.wf(),
    {
        if rgb[0] == 0 || rgb[1] == 0 || rgb[2] == 0 {
            None
        } else {
            Some(WhitePoint(rgb))
        }
    }

    /// Scales each channel of `(r, g, b)` by the matching channel of the
    /// white point over 255, rounded to the nearest integer.
    pub fn apply(self, r: u8, g: u8, b: u8) -> (res: (u8, u8, u8))
        ensures
            res.0 as nat == scale_channel(r, self.0[0]),
            res.1 as nat == scale_channel(g, self.0[1]),
            res.2 as nat == scale_channel(b, self.0[2]),
    {
        (scale(r, self.0[0]), scale(g, self.0[1]), scale(b, self.0[2]))
    }
}

fn scale(c: u8, w: u8) -> (r: u8)
    ensures
        r as nat == scale_channel(c, w),
{
    assert(c as u32 * w as u32 <= 255 * 255) by (nonlinear_arith)
        requires
            c <= 255,
            w <= 255,
    ;
    let p: u32 = c as u32 * w as u32;
    let q: u32 = (2 * p + 255) / 510;
    assert(q <= 255);
    q as u8
}

/// Applying the white point `[255, 255, 255]` leaves every colour unchanged.
pub proof fn lemma_full_white_point_is_identity(c: u8)
    ensures
        scale_channel(c, 255) == c as nat,
{
    assert((2 * (c as nat * 255) + 255) / 510 == c as nat) by (nonlinear_arith)
        requires
            c <= 255,
    ;
}

/// The value of a hexadecimal digit (either case), if `c` is one.
pub open spec fn hex_digit_value(c: char) -> Option<u8> {
    if '0' <= c && c <= '9' {
        Some((c as u32 - '0' as u32) as u8)
    } else if 'a' <= c && c <= 'f' {
        Some((c as u32 - 'a' as u32 + 10) as u8)
    } else if 'A' <= c && c <= 'F' {
        Some((c as u32 - 'A' as u32 + 10) as u8)
    } else {
        None
    }
}

pub open spec fn is_hex_digit(c: char) -> bool {
    hex_digit_value(c) is Some
}

/// The byte written by the two hex digits `hi` and `lo`.
pub open spec fn hex_pair(hi: char, lo: char) -> u8 {
    (16 * hex_digit_value(hi)->0 + hex_digit_value(lo)->0) as u8
}

/// The text with one leading `#` removed, if it has one.
pub open spec fn without_hash(s: Seq<char>) -> Seq<char> {
    if s.len() > 0 && s[0] == '#' {
        s.drop_first()
    } else {
        s
    }
}

/// Why a hex colour was rejected.
#[derive(Debug, Clone, Copy, PartialEq, Eq)]
pub enum ColorError {
    /// Not exactly six characters after an optional leading `#`.
    Length,
    /// Six characters, but not all of them hexadecimal digits.
    Digit,
}

/// Every character is a hexadecimal digit.
pub open spec fn all_hex(t: Seq<char>) -> bool {
    forall|i: int| 0 <= i < t.len() ==> is_hex_digit(#[trigger] t[i])
}

/// The colour that the text `RRGGBB` or `#RRGGBB` names.
pub open spec fn hex_rgb_of(s: Seq<char>) -> Result<(u8, u8, u8), ColorError> {
    let t = without_hash(s);
    if t.len() != 6 {
        Err(ColorError::Length)
    } else if !all_hex(t) {
        Err(ColorError::Digit)
    } else {
        Ok((hex_pair(t[0], t[1]), hex_pair(t[2], t[3]), hex_pair(t[4], t[5])))
    }
}

fn hex_digit(c: char) -> (r: Option<u8>)
    ensures
        r == hex_digit_value(c),
{
    if '0' <= c && c <= '9' {
        Some((c as u32 - '0' as u32) as u8)
    } else if 'a' <= c && c <= 'f' {
        Some((c as u32 - 'a' as u32 + 10) as u8)
    } else if 'A' <= c && c <= 'F' {
        Some((c as u32 - 'A' as u32 + 10) as u8)
    } else {
        None
    }
}

/// Parses `RRGGBB` or `#RRGGBB` (hex digits of either case) into red, green
/// and blue bytes.
pub fn parse_hex_rgb(hex: &str) -> (r: Result<(u8, u8, u8), ColorError>)
    ensures
        r == hex_rgb_of(hex@),
{
    let n = hex.unicode_len();
    let start: usize = if n > 0 && hex.get_char(0) == '#' { 1 } else { 0 };
    let ghost t = without_hash(hex@);
    assert(t =~= hex@.subrange(start as int, n as int));
    if n - start != 6 {
        return Err(ColorError::Length);
    }
    let mut digits: Vec<u8> = Vec::new();
    let mut i: usize = 0;
    while i < 6
        invariant
            0 <= i <= 6,
            n == hex@.len(),
            n - start == 6,
            t == without_hash(hex@),
            t =~= hex@.subrange(start as int, n as int),
            digits@.len() == i,
            forall|k: int| 0 <= k < i ==> is_hex_digit(#[trigger] t[k]),
            forall|k: int| 0 <= k < i ==> Some(#[trigger] digits@[k]) == hex_digit_value(t[k]),
        decreases 6 - i,
    {
        match hex_digit(hex.get_char(start + i)) {
            Some(d) => digits.push(d),
            None => {
                assert(!is_hex_digit(t[i as int]));
                return Err(ColorError::Digit);
            },
        }
        i = i + 1;
    }
    assert(forall|k: int| 0 <= k < 6 ==> digits@[k] < 16);
    Ok((16 * digits[0] + digits[1], 16 * digits[2] + digits[3], 16 * digits[4] + digits[5]))
}

/// The lowercase hex digit of a value below 16.
pub open spec fn hex_char(v: u8) -> char {
    if v < 10 {
        (('0' as u32) + v as u32) as char
    } else {
        (('a' as u32) + v as u32 - 10) as char
    }
}

/// The uppercase hex digit of a value below 16.
pub open spec fn hex_char_upper(v: u8) -> char {
    if v < 10 {
        (('0' as u32) + v as u32) as char
    } else {
        (('A' as u32) + v as u32 - 10) as char
    }
}

/// Two hex digits for a byte, high digit first.
pub open spec fn byte_hex(b: u8, upper: bool) -> Seq<char> {
    let hi = (b / 16) as u8;
    let lo = (b % 16) as u8;
    if upper {
        seq![hex_char_upper(hi), hex_char_upper(lo)]
    } else {
        seq![hex_char(hi), hex_char(lo)]
    }
}

/// `RRGGBB` for a colour, optionally after a `#`.
pub open spec fn rgb_hex(r: u8, g: u8, b: u8, upper: bool, hash: bool) -> Seq<char> {
    let body = byte_hex(r, upper) + byte_hex(g, upper) + byte_hex(b, upper);
    if hash {
        seq!['#'] + body
    } else {
        body
    }
}

proof fn lemma_byte_hex_parses(b: u8, upper: bool)
    ensures
        is_hex_digit(byte_hex(b, upper)[0]),
        is_hex_digit(byte_hex(b, upper)[1]),
        hex_pair(byte_hex(b, upper)[0], byte_hex(b, upper)[1]) == b,
{
}

/// Any colour written as six hex digits, in either case and with or without
/// a leading `#`, parses back to the same three bytes.
pub proof fn lemma_hex_round_trip(r: u8, g: u8, b: u8, upper: bool, hash: bool)
    ensures
        hex_rgb_of(rgb_hex(r, g, b, upper, hash)) == Ok::<(u8, u8, u8), ColorError>((r, g, b)),
{
    lemma_byte_hex_parses(r, upper);
    lemma_byte_hex_parses(g, upper);
    lemma_byte_hex_parses(b, upper);
    let body = byte_hex(r, upper) + byte_hex(g, upper) + byte_hex(b, upper);
    assert(without_hash(rgb_hex(r, g, b, upper, hash)) =~= body);
    assert(body[0] == byte_hex(r, upper)[0]);
    assert(body[1] == byte_hex(r, upper)[1]);
    assert(body[2] == byte_hex(g, upper)[0]);
    assert(body[3] == byte_hex(g, upper)[1]);
    assert(body[4] == byte_hex(b, upper)[0]);
    assert(body[5] == byte_hex(b, upper)[1]);
}

pub open spec fn max3(r: u8, g: u8, b: u8) -> u8 {
    if r >= g && r >= b {
        r
    } else if g >= b {
        g
    } else {
        b
    }
}

pub open spec fn min3(r: u8, g: u8, b: u8) -> u8 {
    if r <= g && r <= b {
        r
    } else if g <= b {
        g
    } else {
        b
    }
}

/// The hue angle times `(max - min) / 60 degrees`: the hue's position on the
/// colour wheel in sixths, scaled by the colour's chroma so that it stays an
/// integer. Red is checked first, then green, when channels tie for maximum.
pub open spec fn hue_sixths(r: u8, g: u8, b: u8) -> int {
    let m = max3(r, g, b) as int;
    let d = m - min3(r, g, b) as int;
    if d == 0 {
        0
    } else if m == r as int {
        if g >= b {
            g as int - b as int
        } else {
            g as int - b as int + 6 * d
        }
    } else if m == g as int {
        b as int - r as int + 2 * d
    } else {
        r as int - g as int + 4 * d
    }
}

/// The HSV form of an RGB colour, each component scaled to 0..=255 and
/// rounded to the nearest integer: hue as a fraction of a full turn, the
/// saturation as chroma over value, the value as the largest channel.
pub open spec fn hsv_of(r: u8, g: u8, b: u8) -> (nat, nat, nat) {
    let m = max3(r, g, b) as nat;
    let d = (m - min3(r, g, b)) as nat;
    let h = if d == 0 {
        0
    } else {
        round_div((85 * hue_sixths(r, g, b)) as nat, 2 * d)
    };
    let s = if m == 0 {
        0
    } else {
        round_div(255 * d, m)
    };
    (h, s, m)
}

/// Converts an RGB colour to hue, saturation and value, each on 0..=255,
/// computed exactly and rounded to the nearest integer (halves round up).
pub fn rgb_to_hsv(r: u8, g: u8, b: u8) -> (res: (u8, u8, u8))
    ensures
        (res.0 as nat, res.1 as nat, res.2 as nat) == hsv_of(r, g, b),
{
    let m: u8 = if r >= g && r >= b {
        r
    } else if g >= b {
        g
    } else {
        b
    };
    let lo: u8 = if r <= g && r <= b {
        r
    } else if g <= b {
        g
    } else {
        b
    };
    let d: u32 = (m - lo) as u32;
    let h: u8 = if d == 0 {
        0
    } else {
        let six: u32 = if m == r {
            if g >= b {
                (g - b) as u32
            } else {
                6 * d + g as u32 - b as u32
            }
        } else if m == g {
            2 * d + b as u32 - r as u32
        } else {
            4 * d + r as u32 - g as u32
        };
        assert(six == hue_sixths(r, g, b));
        assert(six < 6 * d);
        let q: u32 = (170 * six + 2 * d) / (4 * d);
        assert(q < 256) by (nonlinear_arith)
            requires
                six < 6 * d,
                d > 0,
                q == (170 * six + 2 * d) / (4 * d),
        ;
        q as u8
    };
    let s: u8 = if m == 0 {
        0
    } else {
        let q: u32 = (510 * d + m as u32) / (2 * m as u32);
        assert(q <= 255) by (nonlinear_arith)
            requires
                d <= m,
                m > 0,
                q == (510 * d + m) / (2 * m),
        ;
        q as u8
    };
    (h, s, m)
}

/// Unicode white space, the characters that `str::trim` removes.
pub open spec fn is_space(c: char) -> bool {
    ('\u{9}' <= c && c <= '\u{d}') || c == ' ' || c == '\u{85}' || c == '\u{a0}' || c
        == '\u{1680}' || ('\u{2000}' <= c && c <= '\u{200a}') || c == '\u{2028}' || c
        == '\u{2029}' || c == '\u{202f}' || c == '\u{205f}' || c == '\u{3000}'
}

fn space(c: char) -> (r: bool)
    ensures
        r == is_space(c),
{
    ('\u{9}' <= c && c <= '\u{d}') || c == ' ' || c == '\u{85}' || c == '\u{a0}' || c
        == '\u{1680}' || ('\u{2000}' <= c && c <= '\u{200a}') || c == '\u{2028}' || c
        == '\u{2029}' || c == '\u{202f}' || c == '\u{205f}' || c == '\u{3000}'
}

pub open spec fn trim_start(s: Seq<char>) -> Seq<char>
    decreases s.len(),
{
    if s.len() > 0 && is_space(s[0]) {
        trim_start(s.drop_first())
    } else {
        s
    }
}

pub open spec fn trim_end(s: Seq<char>) -> Seq<char>
    decreases s.len(),
{
    if s.len() > 0 && is_space(s.last()) {
        trim_end(s.drop_last())
    } else {
        s
    }
}

/// The text without leading and trailing white space.
pub open spec fn trim(s: Seq<char>) -> Seq<char> {
    trim_end(trim_start(s))
}

pub open spec fn is_decimal(c: char) -> bool {
    '0' <= c && c <= '9'
}

/// The number that a run of decimal digits writes.
pub open spec fn decimal_value(s: Seq<char>) -> nat
    decreases s.len(),
{
    if s.len() == 0 {
        0
    } else {
        decimal_value(s.drop_last()) * 10 + (s.last() as nat - '0' as nat) as nat
    }
}

pub open spec fn all_decimal(d: Seq<char>) -> bool {
    forall|i: int| 0 <= i < d.len() ==> is_decimal(#[trigger] d[i])
}

/// At least one decimal digit, for a value of at most 255 (leading zeros
/// allowed).
pub open spec fn decimal_byte(d: Seq<char>) -> Option<u8> {
    if d.len() == 0 || !all_decimal(d) || decimal_value(d) > 255 {
        None
    } else {
        Some(decimal_value(d) as u8)
    }
}

/// A byte written in decimal, after an optional `+`.
pub open spec fn byte_of(t: Seq<char>) -> Option<u8> {
    if t.len() > 0 && t[0] == '+' {
        decimal_byte(t.drop_first())
    } else {
        decimal_byte(t)
    }
}

/// The pieces of the text between commas, in order; `n` commas give
/// `n + 1` pieces.
pub open spec fn split_commas(s: Seq<char>) -> Seq<Seq<char>>
    decreases s.len(),
{
    if s.len() == 0 {
        seq![Seq::empty()]
    } else {
        let rest = split_commas(s.drop_first());
        if s[0] == ',' {
            seq![Seq::empty()] + rest
        } else {
            rest.update(0, seq![s[0]] + rest[0])
        }
    }
}

proof fn lemma_split_nonempty(s: Seq<char>)
    ensures
        split_commas(s).len() >= 1,
    decreases s.len(),
{
    if s.len() > 0 {
        lemma_split_nonempty(s.drop_first());
    }
}

/// Splitting at the first comma `p` (or at the end, when there is none).
proof fn lemma_split_at_first_comma(s: Seq<char>, p: int)
    requires
        0 <= p <= s.len(),
        forall|j: int| 0 <= j < p ==> s[j] != ',',
        p < s.len() ==> s[p] == ',',
    ensures
        p == s.len() ==> split_commas(s) == seq![s],
        p < s.len() ==> split_commas(s) == seq![s.take(p)] + split_commas(s.skip(p + 1)),
    decreases p,
{
    if p > 0 {
        let t = s.drop_first();
        lemma_split_at_first_comma(t, p - 1);
        lemma_split_nonempty(t);
        if p == s.len() {
            assert(seq![s[0]] + t =~= s);
            assert(split_commas(s) =~= seq![s]);
        } else {
            assert(seq![s[0]] + t.take(p - 1) =~= s.take(p));
            assert(t.skip(p) =~= s.skip(p + 1));
            assert(split_commas(s) =~= seq![s.take(p)] + split_commas(s.skip(p + 1)));
        }
    } else if s.len() > 0 {
        assert(s.drop_first() =~= s.skip(1));
        assert(s.take(0) =~= Seq::<char>::empty());
    } else {
        assert(s =~= Seq::<char>::empty());
    }
}

/// The channels that `R,G,B` gives: three comma-separated decimal bytes,
/// each with surrounding white space allowed.
pub open spec fn channels_of(s: Seq<char>) -> Option<(u8, u8, u8)> {
    let p = split_commas(s);
    if p.len() != 3 {
        None
    } else {
        match (byte_of(trim(p[0])), byte_of(trim(p[1])), byte_of(trim(p[2]))) {
            (Some(r), Some(g), Some(b)) => Some((r, g, b)),
            _ => None,
        }
    }
}

/// The white point that `R,G,B` names: its channels, all non-zero.
pub open spec fn white_point_of(s: Seq<char>) -> Option<(u8, u8, u8)> {
    match channels_of(s) {
        Some((r, g, b)) => if r != 0 && g != 0 && b != 0 {
            Some((r, g, b))
        } else {
            None
        },
        None => None,
    }
}

/// The byte written in `v[a..e]`, trimmed of white space first.
fn parse_channel(v: &Vec<char>, a: usize, e: usize) -> (r: Option<u8>)
    requires
        a <= e <= v@.len(),
    ensures
        r == byte_of(trim(v@.subrange(a as int, e as int))),
{
    let ghost piece = v@.subrange(a as int, e as int);
    let mut start: usize = a;
    while start < e && space(v[start])
        invariant
            a <= start <= e <= v@.len(),
            piece == v@.subrange(a as int, e as int),
            trim_start(piece) == trim_start(v@.subrange(start as int, e as int)),
        decreases e - start,
    {
        assert(v@.subrange(start as int, e as int).drop_first() =~= v@.subrange(
            start + 1,
            e as int,
        ));
        start = start + 1;
    }
    let mut end: usize = e;
    while end > start && space(v[end - 1])
        invariant
            a <= start <= end <= e <= v@.len(),
            piece == v@.subrange(a as int, e as int),
            trim(piece) == trim_end(v@.subrange(start as int, end as int)),
        decreases end - start,
    {
        assert(v@.subrange(start as int, end as int).drop_last() =~= v@.subrange(
            start as int,
            end - 1,
        ));
        end = end - 1;
    }
    let ghost t = v@.subrange(start as int, end as int);
    assert(trim(piece) == t);
    let mut i: usize = start;
    if i < end && v[i] == '+' {
        assert(t.drop_first() =~= v@.subrange(start + 1, end as int));
        i = i + 1;
    }
    let ghost d = v@.subrange(i as int, end as int);
    assert(byte_of(trim(piece)) == decimal_byte(d));
    if i == end {
        return None;
    }
    let mut value: u32 = 0;
    let mut over = false;
    let mut k: usize = i;
    while k < end
        invariant
            start <= i < end <= v@.len(),
            i <= k <= end,
            d == v@.subrange(i as int, end as int),
            byte_of(trim(v@.subrange(a as int, e as int))) == decimal_byte(d),
            forall|j: int| i <= j < k ==> is_decimal(#[trigger] v@[j]),
            !over ==> value as nat == decimal_value(v@.subrange(i as int, k as int)) && value
                <= 255,
            over ==> decimal_value(v@.subrange(i as int, k as int)) > 255,
        decreases end - k,
    {
        let c = v[k];
        if !('0' <= c && c <= '9') {
            assert(!is_decimal(d[k - i]));
            return None;
        }
        assert(v@.subrange(i as int, k + 1).drop_last() =~= v@.subrange(i as int, k as int));
        let digit: u32 = c as u32 - '0' as u32;
        if !over {
            value = value * 10 + digit;
            if value > 255 {
                over = true;
            }
        }
        k = k + 1;
    }
    assert(v@.subrange(i as int, k as int) =~= d);
    assert forall|j: int| 0 <= j < d.len() implies is_decimal(#[trigger] d[j]) by {
        assert(d[j] == v@[i + j]);
    }
    if over {
        None
    } else {
        Some(value as u8)
    }
}

/// The first comma in `v` at or after `from`, or the length of `v`.
fn find_comma(v: &Vec<char>, from: usize) -> (p: usize)
    requires
        from <= v@.len(),
    ensures
        from <= p <= v@.len(),
        forall|j: int| from <= j < p ==> v@[j] != ',',
        p < v@.len() ==> v@[p as int] == ',',
{
    let mut p: usize = from;
    while p < v.len() && v[p] != ','
        invariant
            from <= p <= v@.len(),
            forall|j: int| from <= j < p ==> v@[j] != ',',
        decreases v@.len() - p,
    {
        p = p + 1;
    }
    p
}

/// Parses a white point written `R,G,B`: three comma-separated decimal
/// bytes, white space around each allowed, none of them zero.
pub fn parse_white_point(s: &str) -> (r: Result<WhitePoint, String>)
    ensures
        r is Ok <==> white_point_of(s@) is Some,
        r matches Ok(w) ==> w.wf() && white_point_of(s@) == Some((w.0[0], w.0[1], w.0[2])),
{
    let n = s.unicode_len();
    let mut v: Vec<char> = Vec::new();
    let mut i: usize = 0;
    while i < n
        invariant
            n == s@.len(),
            i <= n,
            v@ == s@.take(i as int),
        decreases n - i,
    {
        v.push(s.get_char(i));
        i = i + 1;
        assert(v@ =~= s@.take(i as int));
    }
    assert(v@ =~= s@);
    let count_error = "expected 3 comma-separated values, e.g. 200,255,230";
    let ghost w = v@;
    let p1 = find_comma(&v, 0);
    proof {
        lemma_split_at_first_comma(w, p1 as int);
    }
    if p1 == n {
        return Err(String::from_str(count_error));
    }
    let ghost w1 = w.skip(p1 + 1);
    let p2 = find_comma(&v, p1 + 1);
    proof {
        lemma_split_at_first_comma(w1, p2 - p1 - 1);
    }
    if p2 == n {
        return Err(String::from_str(count_error));
    }
    let ghost w2 = w1.skip(p2 - p1);
    assert(w2 =~= w.skip(p2 + 1));
    let p3 = find_comma(&v, p2 + 1);
    proof {
        lemma_split_at_first_comma(w2, p3 - p2 - 1);
    }
    if p3 != n {
        proof {
            lemma_split_nonempty(w2.skip(p3 - p2));
        }
        return Err(String::from_str(count_error));
    }
    assert(w.take(p1 as int) =~= v@.subrange(0, p1 as int));
    assert(w1.take(p2 - p1 - 1) =~= v@.subrange(p1 + 1, p2 as int));
    assert(w2 =~= v@.subrange(p2 + 1, n as int));
    let r = parse_channel(&v, 0, p1);
    let g = parse_channel(&v, p1 + 1, p2);
    let b = parse_channel(&v, p2 + 1, n);
    match (r, g, b) {
        (Some(r), Some(g), Some(b)) => match WhitePoint::new([r, g, b]) {
            Some(w) => Ok(w),
            None => Err(String::from_str("white point channels must be 1-255")),
        },
        (None, _, _) => Err(String::from_str("red: expected an integer from 1 to 255")),
        (_, None, _) => Err(String::from_str("green: expected an integer from 1 to 255")),
        (_, _, None) => Err(String::from_str("blue: expected an integer from 1 to 255")),
    }
}

} // verus!
