//! NMEA 0183 sentence handling with epoch consistency.
//!
//! A GGA sentence (position) is buffered until an RMC sentence (kinematics)
//! with the same UTC timestamp arrives; the two are then applied together.
//! Trimble `PTNL,GGK` sentences are self-contained and bypass the pairing.
//!
//! Numeric fields are handed on as text: turning them into numbers (and
//! checking the minutes of a coordinate) is done where the floating-point
//! state lives.

use vstd::prelude::*;
use vstd::string::*;
use vstd::utf8::{encode_utf8, decode_utf8, is_char_boundary, valid_utf8};
use crate::chars::{
    count_char, first_index, leading_count, trim_end, split, parse_u8, chars_of, trim_end_at,
    split_ranges, parse_u8_at, ascii, is_ascii_text, lemma_ascii_char_boundaries,
    lemma_ascii_subrange, lemma_ascii_trim_end, lemma_ascii_split,
};
use crate::types::AltitudeDatum;

verus! {

broadcast use vstd::utf8::group_utf8_lib;

/// Value of an ASCII hexadecimal digit byte.
pub open spec fn hex_val(b: u8) -> Option<nat> {
    if 48 <= b && b <= 57 {
        Some((b - 48) as nat)
    } else if 97 <= b && b <= 102 {
        Some((b - 87) as nat)
    } else if 65 <= b && b <= 70 {
        Some((b - 55) as nat)
    } else {
        None
    }
}

/// `u8::from_str_radix(s, 16)` of the two-byte string `[b0, b1]`: either two
/// hex digits, or `+` and one hex digit.
pub open spec fn hex_pair(b0: u8, b1: u8) -> Option<u8> {
    if b0 == 43 {
        match hex_val(b1) {
            Some(y) => Some(y as u8),
            None => None,
        }
    } else {
        match (hex_val(b0), hex_val(b1)) {
            (Some(x), Some(y)) => Some((x * 16 + y) as u8),
            _ => None,
        }
    }
}

/// XOR of all bytes.
pub open spec fn xor_all(b: Seq<u8>) -> u8
    decreases b.len(),
{
    if b.len() == 0 {
        0
    } else {
        xor_all(b.drop_last()) ^ b.last()
    }
}

/// A sentence framed as `$<body>*<checksum>`: leading `$` and exactly one `*`.
pub open spec fn framed(s: Seq<char>) -> bool {
    s.len() > 0 && s[0] == '$' && count_char(s, '*') == 1
}

/// UTF-8 bytes of the checksum text after `*`, trailing whitespace removed.
pub open spec fn checksum_text(s: Seq<char>) -> Seq<u8> {
    encode_utf8(trim_end(s.subrange(first_index(s, '*') + 1int, s.len() as int)))
}

/// The checksum of a framed sentence is valid: the first two bytes after
/// `*` read as a hexadecimal `u8` equal the XOR of the body bytes between
/// `$` and `*`.
pub open spec fn checksum_ok(s: Seq<char>) -> bool {
    framed(s) && checksum_text(s).len() >= 2 && hex_pair(checksum_text(s)[0], checksum_text(s)[1])
        == Some(xor_all(encode_utf8(s.subrange(1, first_index(s, '*') as int))))
}

/// Inputs on which taking the first two checksum bytes as text would cut a
/// multi-byte character; such sentences are outside the reader's domain.
pub open spec fn checksum_panics(s: Seq<char>) -> bool {
    framed(s) && checksum_text(s).len() >= 2 && !is_char_boundary(checksum_text(s), 2)
}

fn hex_val_exec(b: u8) -> (r: Option<u8>)
    ensures
        match hex_val(b) {
            Some(v) => r == Some(v as u8),
            None => r is None,
        },
{
    if 48 <= b && b <= 57 {
        Some(b - 48)
    } else if 97 <= b && b <= 102 {
        Some(b - 87)
    } else if 65 <= b && b <= 70 {
        Some(b - 55)
    } else {
        None
    }
}

fn hex_pair_exec(b0: u8, b1: u8) -> (r: Option<u8>)
    ensures
        r == hex_pair(b0, b1),
{
    if b0 == 43 {
        hex_val_exec(b1)
    } else {
        match (hex_val_exec(b0), hex_val_exec(b1)) {
            (Some(x), Some(y)) => Some(x * 16 + y),
            _ => None,
        }
    }
}

fn xor_bytes(b: &[u8]) -> (x: u8)
    ensures
        x == xor_all(b@),
{
    let mut x: u8 = 0;
    let mut i: usize = 0;
    while i < b.len()
        invariant
            i <= b.len(),
            x == xor_all(b@.take(i as int)),
        decreases b.len() - i,
    {
        assert(b@.take(i + 1).drop_last() =~= b@.take(i as int));
        x = x ^ b[i];
        i = i + 1;
    }
    assert(b@.take(i as int) =~= b@);
    x
}

/// Position of the first `c` in `s[from..]` (or `s.len()`) and the number of
/// occurrences of `c` in `s`.
fn find_and_count(s: &Vec<char>, c: char) -> (r: (usize, usize))
    ensures
        r.0 == first_index(s@, c),
        r.1 == count_char(s@, c),
{
    let mut first = s.len();
    let mut count: usize = 0;
    let mut i: usize = 0;
    while i < s.len()
        invariant
            i <= s@.len(),
            count == count_char(s@.take(i as int), c),
            count <= i,
            first == (if first_index(s@.take(i as int), c) < i {
                first_index(s@.take(i as int), c) as int
            } else {
                s@.len() as int
            }),
        decreases s.len() - i,
    {
        proof {
            let t = s@.take(i + 1);
            assert(t.drop_last() =~= s@.take(i as int));
            lemma_first_index_push(s@.take(i as int), s@[i as int], c);
            assert(s@.take(i as int).push(s@[i as int]) =~= t);
        }
        if s[i] == c {
            if first == s.len() {
                first = i;
            }
            count = count + 1;
        }
        i = i + 1;
    }
    assert(s@.take(i as int) =~= s@);
    proof {
        lemma_first_index_bound(s@, c);
    }
    (first, count)
}

proof fn lemma_first_index_bound(s: Seq<char>, c: char)
    ensures
        first_index(s, c) <= s.len(),
        first_index(s, c) < s.len() ==> s[first_index(s, c) as int] == c,
        forall|k: int| 0 <= k < first_index(s, c) ==> s[k] != c,
    decreases s.len(),
{
    if s.len() > 0 && s[0] != c {
        lemma_first_index_bound(s.drop_first(), c);
        assert forall|k: int| 0 <= k < first_index(s, c) implies s[k] != c by {
            if k > 0 {
                assert(s[k] == s.drop_first()[k - 1]);
            }
        }
    }
}

proof fn lemma_first_index_push(s: Seq<char>, x: char, c: char)
    ensures
        first_index(s.push(x), c) == (if first_index(s, c) < s.len() {
            first_index(s, c)
        } else if x == c {
            s.len()
        } else {
            s.len() + 1
        }),
    decreases s.len(),
{
    lemma_first_index_bound(s, c);
    if s.len() == 0 {
        assert(s.push(x).drop_first() =~= Seq::<char>::empty());
        assert(first_index(Seq::<char>::empty(), c) == 0);
    } else {
        assert(s.push(x)[0] == s[0]);
        assert(s.push(x).drop_first() =~= s.drop_first().push(x));
        lemma_first_index_push(s.drop_first(), x, c);
    }
}

/// Validate the `*hh` checksum of an NMEA sentence.
pub fn validate_checksum(sentence: &str) -> (ok: bool)
    requires
        !checksum_panics(sentence@),
    ensures
        ok == checksum_ok(sentence@),
{
    let cs = chars_of(sentence);
    let n = cs.len();
    if n == 0 || cs[0] != '$' {
        return false;
    }
    let (star, count) = find_and_count(&cs, '*');
    if count != 1 {
        return false;
    }
    proof {
        lemma_first_index_bound(cs@, '*');
        if star == n {
            lemma_count_zero_when_absent(cs@, '*');
        }
    }
    let end = trim_end_at(&cs, star + 1, n);
    let trimmed = sentence.substring_char(star + 1, end);
    let tb = trimmed.as_bytes();
    if tb.len() < 2 {
        return false;
    }
    let body = sentence.substring_char(1, star);
    let x = xor_bytes(body.as_bytes());
    match hex_pair_exec(tb[0], tb[1]) {
        Some(v) => v == x,
        None => false,
    }
}

proof fn lemma_count_zero_when_absent(s: Seq<char>, c: char)
    requires
        first_index(s, c) == s.len(),
    ensures
        count_char(s, c) == 0,
    decreases s.len(),
{
    lemma_first_index_bound(s, c);
    if s.len() > 0 {
        let t = s.drop_last();
        lemma_first_index_bound(t, c);
        assert forall|k: int| 0 <= k < t.len() implies t[k] != c by {
            assert(t[k] == s[k]);
        }
        lemma_first_index_absent(t, c);
        lemma_count_zero_when_absent(t, c);
        assert(s.last() == s[s.len() - 1]);
    }
}

proof fn lemma_first_index_absent(s: Seq<char>, c: char)
    requires
        forall|k: int| 0 <= k < s.len() ==> s[k] != c,
    ensures
        first_index(s, c) == s.len(),
    decreases s.len(),
{
    if s.len() > 0 {
        assert forall|k: int| 0 <= k < s.drop_first().len() implies s.drop_first()[k] != c by {
            assert(s.drop_first()[k] == s[k + 1]);
        }
        lemma_first_index_absent(s.drop_first(), c);
    }
}


// ---------------------------------------------------------------------------
// Sentence structure
// ---------------------------------------------------------------------------

/// Body of a framed sentence: the text before the `*`, with every leading
/// `$` removed.
pub open spec fn body(s: Seq<char>) -> Seq<char> {
    let p = s.take(first_index(s, '*') as int);
    p.skip(leading_count(p, '$') as int)
}

/// Comma-separated fields of the body.
pub open spec fn nmea_fields(s: Seq<char>) -> Seq<Seq<char>> {
    split(body(s), ',')
}

/// Kinds of sentence the parser acts on.
pub enum SentenceKind {
    Ggk,
    Gga,
    Rmc,
    Other,
}

/// `PTNL,GGK` is recognised by its first two fields; a standard sentence
/// by the formatter after its two-byte talker id (`GGA`, `RMC`).
pub open spec fn kind_of(f: Seq<Seq<char>>) -> SentenceKind {
    let fb = encode_utf8(f[0]);
    if f[0] == "PTNL"@ && f.len() > 1 && f[1] == "GGK"@ {
        SentenceKind::Ggk
    } else if fb.len() < 5 {
        SentenceKind::Other
    } else if fb.skip(2) == seq![71u8, 71u8, 65u8] {
        SentenceKind::Gga
    } else if fb.skip(2) == seq![82u8, 77u8, 67u8] {
        SentenceKind::Rmc
    } else {
        SentenceKind::Other
    }
}

/// Taking the formatter would cut a multi-byte character of the talker field.
pub open spec fn formatter_panics(f: Seq<Seq<char>>) -> bool {
    !(f[0] == "PTNL"@ && f.len() > 1 && f[1] == "GGK"@) && encode_utf8(f[0]).len() >= 5
        && !is_char_boundary(encode_utf8(f[0]), 2)
}

/// Hemisphere marker that negates a coordinate.
pub open spec fn is_negative_dir(dir: Seq<char>) -> bool {
    dir == seq!['S'] || dir == seq!['W']
}

pub open spec fn is_valid_dir(dir: Seq<char>) -> bool {
    dir == seq!['N'] || dir == seq!['S'] || dir == seq!['E'] || dir == seq!['W']
}

/// A coordinate split into its degree and minute texts.
pub struct CoordText {
    pub degrees: Seq<char>,
    pub minutes: Seq<char>,
    pub negative: bool,
}

/// An NMEA coordinate `ddmm.mmmm` / `dddmm.mmmm` with hemisphere `dir`:
/// non-empty, a hemisphere of `N`, `S`, `E` or `W`, at least `deg_len + 2`
/// bytes; split after `deg_len` bytes into degrees and minutes, negative in
/// the southern and western hemispheres. Its value is
/// ±(degrees + minutes / 60), with minutes in [0, 60).
pub open spec fn coord_of(val: Seq<char>, dir: Seq<char>, deg_len: nat) -> Option<CoordText> {
    let vb = encode_utf8(val);
    if val.len() == 0 || dir.len() == 0 || !is_valid_dir(dir) || vb.len() < deg_len + 2
        || !is_char_boundary(vb, deg_len as int) {
        None
    } else {
        Some(
            CoordText {
                degrees: decode_utf8(vb.take(deg_len as int)),
                minutes: decode_utf8(vb.skip(deg_len as int)),
                negative: is_negative_dir(dir),
            },
        )
    }
}

/// Splitting the coordinate would cut a multi-byte character.
pub open spec fn coord_panics(val: Seq<char>, dir: Seq<char>, deg_len: nat) -> bool {
    val.len() > 0 && dir.len() > 0 && is_valid_dir(dir) && encode_utf8(val).len() >= deg_len + 2
        && !is_char_boundary(encode_utf8(val), deg_len as int)
}

/// Fields of a GGA sentence kept until the matching RMC arrives.
pub struct GgaText {
    pub utc_time: Seq<char>,
    pub lat: CoordText,
    pub lon: CoordText,
    pub fix_quality: u8,
    pub satellites_in_use: u8,
    pub hdop: Seq<char>,
    pub alt: Seq<char>,
    pub geoid_separation: Seq<char>,
}

/// A GGA sentence is usable with at least 12 fields, a UTC time, valid
/// coordinates and a fix quality; a missing satellite count reads as 0.
pub open spec fn gga_of(f: Seq<Seq<char>>) -> Option<GgaText> {
    if f.len() < 12 || f[1].len() == 0 {
        None
    } else {
        match (coord_of(f[2], f[3], 2), coord_of(f[4], f[5], 3), parse_u8(f[6])) {
            (Some(la), Some(lo), Some(q)) => Some(
                GgaText {
                    utc_time: f[1],
                    lat: la,
                    lon: lo,
                    fix_quality: q,
                    satellites_in_use: match parse_u8(f[7]) {
                        Some(n) => n,
                        None => 0,
                    },
                    hdop: f[8],
                    alt: f[9],
                    geoid_separation: f[11],
                },
            ),
            _ => None,
        }
    }
}

/// Kinematic fields of an RMC sentence.
pub struct RmcText {
    pub utc_time: Option<Seq<char>>,
    pub speed_knots: Seq<char>,
    pub course_deg: Seq<char>,
    pub utc_date: Option<Seq<char>>,
}

/// An RMC sentence is usable with at least 9 fields and status `A`.
pub open spec fn rmc_of(f: Seq<Seq<char>>) -> Option<RmcText> {
    if f.len() < 9 || f[2] != seq!['A'] {
        None
    } else {
        Some(
            RmcText {
                utc_time: if f[1].len() > 0 {
                    Some(f[1])
                } else {
                    None
                },
                speed_knots: f[7],
                course_deg: f[8],
                utc_date: if f.len() > 9 && f[9].len() > 0 {
                    Some(f[9])
                } else {
                    None
                },
            },
        )
    }
}

/// Fields of a Trimble GGK sentence.
pub struct GgkText {
    pub lat: Option<CoordText>,
    pub lon: Option<CoordText>,
    pub fix_quality: Option<u8>,
    pub ellipsoidal_height: Seq<char>,
}

/// Trimble RTK quality codes mapped to GGA codes: 3 (fixed) → 4, 2 (float) → 5.
pub open spec fn ggk_quality(q: u8) -> u8 {
    if q == 3 {
        4
    } else if q == 2 {
        5
    } else {
        q
    }
}

/// `s` with every leading `EHT` removed.
pub open spec fn strip_eht(s: Seq<char>) -> Seq<char>
    decreases s.len(),
{
    if s.len() >= 3 && s.take(3) == "EHT"@ {
        strip_eht(s.skip(3))
    } else {
        s
    }
}

/// A GGK sentence is usable with at least 12 fields.
pub open spec fn ggk_of(f: Seq<Seq<char>>) -> Option<GgkText> {
    if f.len() < 12 {
        None
    } else {
        Some(
            GgkText {
                lat: coord_of(f[4], f[5], 2),
                lon: coord_of(f[6], f[7], 3),
                fix_quality: match parse_u8(f[8]) {
                    Some(q) => Some(ggk_quality(q)),
                    None => None,
                },
                ellipsoidal_height: strip_eht(f[11]),
            },
        )
    }
}

/// What feeding a sentence did.
pub enum UpdateText {
    /// Not applied (bad checksum, unknown or malformed sentence).
    Rejected,
    /// A GGA sentence was buffered.
    Buffered,
    /// RMC kinematics to apply, with the buffered GGA of the same UTC time.
    Rmc(RmcText, Option<GgaText>),
    /// A self-contained GGK fix to apply.
    Ggk(GgkText),
}

/// Inputs whose fields the reader would have to slice inside a multi-byte
/// character (the talker, a coordinate or the checksum); such sentences
/// are outside the reader's domain. NMEA text is ASCII, where this never
/// happens.
pub open spec fn parse_panics(s: Seq<char>) -> bool {
    checksum_panics(s) || (checksum_ok(s) && {
        let f = nmea_fields(s);
        ||| formatter_panics(f)
        ||| (kind_of(f) == SentenceKind::Ggk && f.len() >= 12 && (coord_panics(f[4], f[5], 2)
            || coord_panics(f[6], f[7], 3)))
        ||| (kind_of(f) == SentenceKind::Gga && f.len() >= 12 && f[1].len() > 0 && coord_panics(
            f[2],
            f[3],
            2,
        ))
    })
}

proof fn lemma_leading_count_bound(s: Seq<char>, c: char)
    ensures
        leading_count(s, c) <= s.len(),
    decreases s.len(),
{
    if s.len() > 0 && s[0] == c {
        lemma_leading_count_bound(s.drop_first(), c);
    }
}

/// ASCII sentences are in the reader's domain: no field of one is cut
/// inside a character.
pub proof fn lemma_ascii_in_domain(s: Seq<char>)
    requires
        ascii(s),
    ensures
        !parse_panics(s),
{
    let fi = first_index(s, '*');
    lemma_first_index_bound(s, '*');
    if framed(s) {
        if fi == s.len() {
            lemma_count_zero_when_absent(s, '*');
        }
        let tail = s.subrange(fi + 1int, s.len() as int);
        lemma_ascii_subrange(s, fi + 1int, s.len() as int);
        lemma_ascii_trim_end(tail);
        lemma_ascii_char_boundaries(trim_end(tail));
    }
    let p = s.take(fi as int);
    lemma_ascii_subrange(s, 0, fi as int);
    assert(p =~= s.subrange(0, fi as int));
    lemma_leading_count_bound(p, '$');
    let lead = leading_count(p, '$') as int;
    lemma_ascii_subrange(p, lead, p.len() as int);
    assert(body(s) =~= p.subrange(lead, p.len() as int));
    lemma_ascii_split(body(s), ',');
    let f = nmea_fields(s);
    assert(ascii(f[0]));
    lemma_ascii_char_boundaries(f[0]);
    if f.len() >= 12 {
        assert(ascii(f[2]) && ascii(f[4]) && ascii(f[6]));
        lemma_ascii_char_boundaries(f[2]);
        lemma_ascii_char_boundaries(f[4]);
        lemma_ascii_char_boundaries(f[6]);
    }
}

/// Whether the sentence is ASCII, as NMEA 0183 text is. An ASCII sentence
/// is in the reader's domain.
pub fn is_ascii_sentence(sentence: &str) -> (b: bool)
    ensures
        b == ascii(sentence@),
        b ==> !parse_panics(sentence@),
{
    let b = is_ascii_text(sentence);
    proof {
        if b {
            lemma_ascii_in_domain(sentence@);
        }
    }
    b
}

/// One step of the epoch-consistent parser: the new buffered GGA and what
/// the sentence does. GGK clears the buffer; GGA replaces it; a usable RMC
/// consumes it and pairs with it only when both carry the same non-empty
/// UTC time.
pub open spec fn spec_parse(pending: Option<GgaText>, s: Seq<char>) -> (Option<GgaText>, UpdateText) {
    if !checksum_ok(s) {
        (pending, UpdateText::Rejected)
    } else {
        let f = nmea_fields(s);
        match kind_of(f) {
            SentenceKind::Ggk => (
                None,
                match ggk_of(f) {
                    Some(g) => UpdateText::Ggk(g),
                    None => UpdateText::Rejected,
                },
            ),
            SentenceKind::Gga => (gga_of(f), UpdateText::Buffered),
            SentenceKind::Rmc => match rmc_of(f) {
                None => (pending, UpdateText::Rejected),
                Some(r) => (
                    None,
                    UpdateText::Rmc(
                        r,
                        match pending {
                            Some(g) => if f[1].len() > 0 && g.utc_time == f[1] {
                                Some(g)
                            } else {
                                None
                            },
                            None => None,
                        },
                    ),
                ),
            },
            SentenceKind::Other => (pending, UpdateText::Rejected),
        }
    }
}

/// Whether the update changes the telemetry state.
pub open spec fn applies(u: UpdateText) -> bool {
    u is Rmc || u is Ggk
}

// ---------------------------------------------------------------------------
// Executable types
// ---------------------------------------------------------------------------

/// A coordinate split into degree and minute texts; its value is
/// ±(degrees + minutes / 60).
pub struct NmeaCoord {
    pub degrees: String,
    pub minutes: String,
    pub negative: bool,
}

impl View for NmeaCoord {
    type V = CoordText;

    open spec fn view(&self) -> CoordText {
        CoordText { degrees: self.degrees@, minutes: self.minutes@, negative: self.negative }
    }
}

pub open spec fn opt_view(o: Option<String>) -> Option<Seq<char>> {
    match o {
        Some(s) => Some(s@),
        None => None,
    }
}

pub open spec fn opt_coord_view(o: Option<NmeaCoord>) -> Option<CoordText> {
    match o {
        Some(c) => Some(c@),
        None => None,
    }
}

/// GGA position fix, numeric fields as text; heights are EGM96 orthometric.
pub struct GgaFix {
    pub utc_time: String,
    pub lat: NmeaCoord,
    pub lon: NmeaCoord,
    pub fix_quality: u8,
    pub satellites_in_use: u8,
    pub hdop: String,
    pub alt: String,
    pub geoid_separation: String,
}

impl GgaFix {
    /// Vertical datum of GGA altitudes.
    pub fn alt_datum(&self) -> (d: AltitudeDatum)
        ensures
            d == AltitudeDatum::Egm96,
    {
        AltitudeDatum::Egm96
    }
}

impl View for GgaFix {
    type V = GgaText;

    open spec fn view(&self) -> GgaText {
        GgaText {
            utc_time: self.utc_time@,
            lat: self.lat@,
            lon: self.lon@,
            fix_quality: self.fix_quality,
            satellites_in_use: self.satellites_in_use,
            hdop: self.hdop@,
            alt: self.alt@,
            geoid_separation: self.geoid_separation@,
        }
    }
}

/// RMC kinematics, numeric fields as text (speed in knots, course in degrees true).
pub struct RmcFix {
    pub utc_time: Option<String>,
    pub speed_knots: String,
    pub course_deg: String,
    pub utc_date: Option<String>,
}

impl View for RmcFix {
    type V = RmcText;

    open spec fn view(&self) -> RmcText {
        RmcText {
            utc_time: opt_view(self.utc_time),
            speed_knots: self.speed_knots@,
            course_deg: self.course_deg@,
            utc_date: opt_view(self.utc_date),
        }
    }
}

/// Trimble GGK fix, numeric fields as text; the height is ellipsoidal.
pub struct GgkFix {
    pub lat: Option<NmeaCoord>,
    pub lon: Option<NmeaCoord>,
    pub fix_quality: Option<u8>,
    pub ellipsoidal_height: String,
}

impl GgkFix {
    /// Vertical datum of GGK heights.
    pub fn alt_datum(&self) -> (d: AltitudeDatum)
        ensures
            d == AltitudeDatum::Wgs84Ellipsoidal,
    {
        AltitudeDatum::Wgs84Ellipsoidal
    }
}

impl View for GgkFix {
    type V = GgkText;

    open spec fn view(&self) -> GgkText {
        GgkText {
            lat: opt_coord_view(self.lat),
            lon: opt_coord_view(self.lon),
            fix_quality: self.fix_quality,
            ellipsoidal_height: self.ellipsoidal_height@,
        }
    }
}

pub open spec fn opt_gga_view(o: Option<GgaFix>) -> Option<GgaText> {
    match o {
        Some(g) => Some(g@),
        None => None,
    }
}

/// What feeding one sentence did.
pub enum NmeaUpdate {
    Rejected,
    Buffered,
    Rmc(RmcFix, Option<GgaFix>),
    Ggk(GgkFix),
}

impl View for NmeaUpdate {
    type V = UpdateText;

    open spec fn view(&self) -> UpdateText {
        match self {
            NmeaUpdate::Rejected => UpdateText::Rejected,
            NmeaUpdate::Buffered => UpdateText::Buffered,
            NmeaUpdate::Rmc(r, g) => UpdateText::Rmc(r@, opt_gga_view(*g)),
            NmeaUpdate::Ggk(g) => UpdateText::Ggk(g@),
        }
    }
}

impl NmeaUpdate {
    /// `true` when the sentence changes the telemetry state (RMC or GGK).
    pub fn applies(&self) -> (b: bool)
        ensures
            b == applies(self@),
    {
        match self {
            NmeaUpdate::Rmc(_, _) => true,
            NmeaUpdate::Ggk(_) => true,
            _ => false,
        }
    }
}

// ---------------------------------------------------------------------------
// Field access
// ---------------------------------------------------------------------------

/// The text of `s` between character positions `r.0` and `r.1`.
fn field_str<'a>(s: &'a str, r: (usize, usize)) -> (t: &'a str)
    requires
        r.0 <= r.1 <= s@.len(),
    ensures
        t@ == s@.subrange(r.0 as int, r.1 as int),
{
    s.substring_char(r.0, r.1)
}

fn field_string(s: &str, r: (usize, usize)) -> (t: String)
    requires
        r.0 <= r.1 <= s@.len(),
    ensures
        t@ == s@.subrange(r.0 as int, r.1 as int),
{
    String::from_str(field_str(s, r))
}

/// Whether `cs[r.0..r.1]` equals `lit`.
fn field_is(cs: &Vec<char>, r: (usize, usize), lit: &str) -> (b: bool)
    requires
        r.0 <= r.1 <= cs@.len(),
    ensures
        b == (cs@.subrange(r.0 as int, r.1 as int) == lit@),
{
    let n = lit.unicode_len();
    if r.1 - r.0 != n {
        return false;
    }
    let mut k: usize = 0;
    while k < n
        invariant
            k <= n,
            n == lit@.len(),
            r.1 - r.0 == n,
            r.0 <= r.1 <= cs@.len(),
            forall|j: int| 0 <= j < k ==> cs@[r.0 + j] == lit@[j],
        decreases n - k,
    {
        if cs[r.0 + k] != lit.get_char(k) {
            assert(cs@.subrange(r.0 as int, r.1 as int)[k as int] != lit@[k as int]);
            return false;
        }
        k = k + 1;
    }
    assert(cs@.subrange(r.0 as int, r.1 as int) =~= lit@);
    true
}

/// Whether `cs[r.0..r.1]` is the single character `c`.
fn field_is_char(cs: &Vec<char>, r: (usize, usize), c: char) -> (b: bool)
    requires
        r.0 <= r.1 <= cs@.len(),
    ensures
        b == (cs@.subrange(r.0 as int, r.1 as int) == seq![c]),
{
    if r.1 - r.0 == 1 && cs[r.0] == c {
        assert(cs@.subrange(r.0 as int, r.1 as int) =~= seq![c]);
        true
    } else {
        proof {
            if r.1 - r.0 == 1 {
                assert(cs@.subrange(r.0 as int, r.1 as int)[0] != c);
            } else {
                assert(cs@.subrange(r.0 as int, r.1 as int).len() != seq![c].len());
            }
        }
        false
    }
}

/// Number of leading `c` in `s[0..end]`.
fn leading_run(s: &Vec<char>, end: usize, c: char) -> (n: usize)
    requires
        end <= s@.len(),
    ensures
        n == leading_count(s@.take(end as int), c),
        n <= end,
{
    let mut n: usize = 0;
    assert(s@.take(end as int).skip(0) =~= s@.take(end as int));
    while n < end && s[n] == c
        invariant
            n <= end <= s@.len(),
            leading_count(s@.take(end as int), c) == n + leading_count(
                s@.take(end as int).skip(n as int),
                c,
            ),
        decreases end - n,
    {
        assert(s@.take(end as int).skip(n as int).drop_first() =~= s@.take(end as int).skip(
            n + 1,
        ));
        n = n + 1;
    }
    n
}

/// Split a coordinate field at `deg_len` bytes.
fn coord_at(s: &str, cs: &Vec<char>, val: (usize, usize), dir: (usize, usize), deg_len: usize) -> (c:
    Option<NmeaCoord>)
    requires
        cs@ == s@,
        val.0 <= val.1 <= s@.len(),
        dir.0 <= dir.1 <= s@.len(),
        deg_len <= usize::MAX - 2,
    ensures
        opt_coord_view(c) == coord_of(
            s@.subrange(val.0 as int, val.1 as int),
            s@.subrange(dir.0 as int, dir.1 as int),
            deg_len as nat,
        ),
{
    let ghost vs = s@.subrange(val.0 as int, val.1 as int);
    let ghost ds = s@.subrange(dir.0 as int, dir.1 as int);
    if val.1 == val.0 || dir.1 == dir.0 {
        return None;
    }
    let neg = field_is_char(cs, dir, 'S') || field_is_char(cs, dir, 'W');
    let valid = neg || field_is_char(cs, dir, 'N') || field_is_char(cs, dir, 'E');
    if !valid {
        assert(!is_valid_dir(ds));
        return None;
    }
    assert(is_valid_dir(ds));
    assert(neg == is_negative_dir(ds));
    let v = field_str(s, val);
    if v.as_bytes().len() < deg_len + 2 {
        return None;
    }
    if !v.is_char_boundary(deg_len) {
        return None;
    }
    let (d, m) = v.split_at(deg_len);
    let degrees = String::from_str(d);
    let minutes = String::from_str(m);
    proof {
        assert(d.spec_bytes() == encode_utf8(d@));
        assert(decode_utf8(encode_utf8(d@)) == d@);
        assert(decode_utf8(encode_utf8(m@)) == m@);
        assert(v.spec_bytes().subrange(0, deg_len as int) =~= encode_utf8(vs).take(deg_len as int));
        assert(v.spec_bytes().subrange(deg_len as int, v.spec_bytes().len() as int)
            =~= encode_utf8(vs).skip(deg_len as int));
    }
    Some(NmeaCoord { degrees, minutes, negative: neg })
}

/// Split an NMEA coordinate field `val` (`ddmm.mmmm` with `deg_len` degree
/// digits) with hemisphere `dir` into its degree and minute texts (see
/// [`coord_of`]); `None` for an empty field, an unknown hemisphere or a
/// field shorter than `deg_len + 2` bytes. The coordinate's value is
/// ±(degrees + minutes / 60), valid when both texts are numbers and the
/// minutes lie in [0, 60).
pub fn parse_nmea_coordinate(val: &str, dir: &str, deg_len: usize) -> (c: Option<NmeaCoord>)
    requires
        deg_len <= usize::MAX - 2,
    ensures
        opt_coord_view(c) == coord_of(val@, dir@, deg_len as nat),
{
    let mut joined = String::from_str(val);
    joined.append(dir);
    let cs = chars_of(joined.as_str());
    let nv = val.unicode_len();
    let nd = dir.unicode_len();
    assert(joined@.subrange(0, nv as int) =~= val@);
    assert(joined@.subrange(nv as int, (nv + nd) as int) =~= dir@);
    coord_at(joined.as_str(), &cs, (0, nv), (nv, nv + nd), deg_len)
}

/// Trimble `EHT` prefixes stripped from `s[r.0..r.1]`: the start of the rest.
fn strip_eht_at(cs: &Vec<char>, r: (usize, usize)) -> (start: usize)
    requires
        r.0 <= r.1 <= cs@.len(),
    ensures
        r.0 <= start <= r.1,
        cs@.subrange(start as int, r.1 as int) == strip_eht(cs@.subrange(r.0 as int, r.1 as int)),
{
    let mut a = r.0;
    while r.1 - a >= 3 && cs[a] == 'E' && cs[a + 1] == 'H' && cs[a + 2] == 'T'
        invariant
            r.0 <= a <= r.1 <= cs@.len(),
            strip_eht(cs@.subrange(a as int, r.1 as int)) == strip_eht(
                cs@.subrange(r.0 as int, r.1 as int),
            ),
        decreases r.1 - a,
    {
        proof {
            reveal_strlit("EHT");
            let t = cs@.subrange(a as int, r.1 as int);
            assert(t.take(3) =~= "EHT"@);
            assert(t.skip(3) =~= cs@.subrange(a + 3, r.1 as int));
        }
        a = a + 3;
    }
    proof {
        reveal_strlit("EHT");
        let t = cs@.subrange(a as int, r.1 as int);
        if t.len() >= 3 && t.take(3) == "EHT"@ {
            assert(t.take(3)[0] == cs@[a as int]);
            assert(t.take(3)[1] == cs@[a + 1]);
            assert(t.take(3)[2] == cs@[a + 2]);
        }
    }
    a
}


/// The fields' character ranges describe `fs`.
pub open spec fn ranges_match(cs: Seq<char>, f: Seq<(usize, usize)>, fs: Seq<Seq<char>>) -> bool {
    f.len() == fs.len() && forall|k: int|
        0 <= k < f.len() ==> (#[trigger] f[k]).0 <= f[k].1 <= cs.len() && cs.subrange(
            f[k].0 as int,
            f[k].1 as int,
        ) == fs[k]
}

/// Whether splitting a coordinate field at `deg_len` bytes would cut a
/// multi-byte character (see [`coord_panics`]).
fn coord_panics_at(s: &str, cs: &Vec<char>, val: (usize, usize), dir: (usize, usize), deg_len: usize) -> (b: bool)
    requires
        cs@ == s@,
        val.0 <= val.1 <= s@.len(),
        dir.0 <= dir.1 <= s@.len(),
        deg_len <= usize::MAX - 2,
    ensures
        b == coord_panics(
            s@.subrange(val.0 as int, val.1 as int),
            s@.subrange(dir.0 as int, dir.1 as int),
            deg_len as nat,
        ),
{
    let ghost ds = s@.subrange(dir.0 as int, dir.1 as int);
    if val.1 == val.0 || dir.1 == dir.0 {
        return false;
    }
    let valid = field_is_char(cs, dir, 'S') || field_is_char(cs, dir, 'W') || field_is_char(
        cs,
        dir,
        'N',
    ) || field_is_char(cs, dir, 'E');
    if !valid {
        assert(!is_valid_dir(ds));
        return false;
    }
    let v = field_str(s, val);
    v.as_bytes().len() >= deg_len + 2 && !v.is_char_boundary(deg_len)
}

/// Whether [`NmeaParser::parse`] would have to slice the sentence inside a
/// multi-byte character (see [`parse_panics`]): such a sentence is outside
/// the reader's domain.
pub fn parse_would_panic(sentence: &str) -> (b: bool)
    ensures
        b == parse_panics(sentence@),
{
    let cs = chars_of(sentence);
    let n = cs.len();
    if n == 0 || cs[0] != '$' {
        return false;
    }
    let (star, count) = find_and_count(&cs, '*');
    if count != 1 {
        return false;
    }
    proof {
        lemma_first_index_bound(cs@, '*');
        if star == n {
            lemma_count_zero_when_absent(cs@, '*');
        }
    }
    let end = trim_end_at(&cs, star + 1, n);
    let trimmed = sentence.substring_char(star + 1, end);
    if trimmed.as_bytes().len() >= 2 && !trimmed.is_char_boundary(2) {
        return true;
    }
    if !validate_checksum(sentence) {
        return false;
    }
    let lead = leading_run(&cs, star, '$');
    let f = split_ranges(&cs, lead, star, ',');
    let ghost fs = nmea_fields(sentence@);
    proof {
        assert(cs@.subrange(lead as int, star as int) =~= body(sentence@));
        assert(ranges_match(cs@, f@, fs));
    }
    if field_is(&cs, f[0], "PTNL") && f.len() > 1 && field_is(&cs, f[1], "GGK") {
        return f.len() >= 12 && (coord_panics_at(sentence, &cs, f[4], f[5], 2) || coord_panics_at(
            sentence,
            &cs,
            f[6],
            f[7],
            3,
        ));
    }
    let f0 = field_str(sentence, f[0]);
    let fb = f0.as_bytes();
    if fb.len() < 5 {
        return false;
    }
    if !f0.is_char_boundary(2) {
        return true;
    }
    let is_gga = fb.len() == 5 && fb[2] == 71 && fb[3] == 71 && fb[4] == 65;
    proof {
        let b = encode_utf8(fs[0]);
        assert(fb@ == b);
        if b.len() == 5 {
            assert(b.skip(2) =~= seq![b[2], b[3], b[4]]);
        }
        if b.skip(2) == seq![71u8, 71u8, 65u8] {
            assert(b.skip(2).len() == 3);
        }
    }
    is_gga && f.len() >= 12 && f[1].1 > f[1].0 && coord_panics_at(sentence, &cs, f[2], f[3], 2)
}

fn extract_gga(s: &str, cs: &Vec<char>, f: &Vec<(usize, usize)>, Ghost(fs): Ghost<Seq<Seq<char>>>) -> (g:
    Option<GgaFix>)
    requires
        cs@ == s@,
        ranges_match(cs@, f@, fs),
    ensures
        opt_gga_view(g) == gga_of(fs),
{
    if f.len() < 12 || f[1].1 == f[1].0 {
        return None;
    }
    let lat = coord_at(s, cs, f[2], f[3], 2);
    let lon = coord_at(s, cs, f[4], f[5], 3);
    let q = parse_u8_at(cs, f[6].0, f[6].1);
    match (lat, lon, q) {
        (Some(lat), Some(lon), Some(q)) => {
            let sats = match parse_u8_at(cs, f[7].0, f[7].1) {
                Some(n) => n,
                None => 0,
            };
            Some(
                GgaFix {
                    utc_time: field_string(s, f[1]),
                    lat,
                    lon,
                    fix_quality: q,
                    satellites_in_use: sats,
                    hdop: field_string(s, f[8]),
                    alt: field_string(s, f[9]),
                    geoid_separation: field_string(s, f[11]),
                },
            )
        },
        _ => None,
    }
}

fn extract_ggk(s: &str, cs: &Vec<char>, f: &Vec<(usize, usize)>, Ghost(fs): Ghost<Seq<Seq<char>>>) -> (g:
    Option<GgkFix>)
    requires
        cs@ == s@,
        ranges_match(cs@, f@, fs),
    ensures
        match ggk_of(fs) {
            Some(t) => g matches Some(x) && x@ == t,
            None => g is None,
        },
{
    if f.len() < 12 {
        return None;
    }
    let lat = coord_at(s, cs, f[4], f[5], 2);
    let lon = coord_at(s, cs, f[6], f[7], 3);
    let q = match parse_u8_at(cs, f[8].0, f[8].1) {
        Some(q) => Some(
            if q == 3 {
                4
            } else if q == 2 {
                5
            } else {
                q
            },
        ),
        None => None,
    };
    let e0 = strip_eht_at(cs, f[11]);
    let eht = field_string(s, (e0, f[11].1));
    Some(GgkFix { lat, lon, fix_quality: q, ellipsoidal_height: eht })
}

fn extract_rmc(s: &str, cs: &Vec<char>, f: &Vec<(usize, usize)>, Ghost(fs): Ghost<Seq<Seq<char>>>) -> (r:
    Option<RmcFix>)
    requires
        cs@ == s@,
        ranges_match(cs@, f@, fs),
    ensures
        match rmc_of(fs) {
            Some(t) => r matches Some(x) && x@ == t,
            None => r is None,
        },
{
    if f.len() < 9 || !field_is_char(cs, f[2], 'A') {
        return None;
    }
    let utc_time = if f[1].1 > f[1].0 {
        Some(field_string(s, f[1]))
    } else {
        None
    };
    let utc_date = if f.len() > 9 && f[9].1 > f[9].0 {
        Some(field_string(s, f[9]))
    } else {
        None
    };
    Some(
        RmcFix {
            utc_time,
            speed_knots: field_string(s, f[7]),
            course_deg: field_string(s, f[8]),
            utc_date,
        },
    )
}

/// Stateful parser for NMEA 0183 sentences with epoch consistency: GGA is
/// buffered until an RMC with the same UTC timestamp arrives, and both are
/// then applied as one update.
pub struct NmeaParser {
    pending_gga: Option<GgaFix>,
}

impl View for NmeaParser {
    type V = Option<GgaText>;

    closed spec fn view(&self) -> Option<GgaText> {
        opt_gga_view(self.pending_gga)
    }
}

impl NmeaParser {
    /// A parser with no buffered GGA.
    pub fn new() -> (p: Self)
        ensures
            p@ is None,
    {
        NmeaParser { pending_gga: None }
    }

    /// Feed one sentence.
    ///
    /// - bad checksum, unknown or malformed sentence: `Rejected`, buffer kept;
    /// - GGA: buffered (replacing any earlier one), `Buffered`;
    /// - RMC with status `A`: `Rmc`, carrying the buffered GGA when its UTC
    ///   time equals the RMC's; the buffer is emptied either way;
    /// - `PTNL,GGK`: `Ggk`, buffer emptied.
    ///
    /// `applies()` of the result is the "state was updated" flag.
    pub fn parse(&mut self, sentence: &str) -> (u: NmeaUpdate)
        requires
            !parse_panics(sentence@),
        ensures
            (final(self)@, u@) == spec_parse(old(self)@, sentence@),
    {
        if !validate_checksum(sentence) {
            return NmeaUpdate::Rejected;
        }
        let cs = chars_of(sentence);
        let (star, _count) = find_and_count(&cs, '*');
        proof {
            lemma_first_index_bound(cs@, '*');
        }
        let lead = leading_run(&cs, star, '$');
        let f = split_ranges(&cs, lead, star, ',');
        let ghost fs = nmea_fields(sentence@);
        proof {
            assert(cs@.subrange(lead as int, star as int) =~= body(sentence@));
            assert(ranges_match(cs@, f@, fs));
        }
        if field_is(&cs, f[0], "PTNL") && f.len() > 1 && field_is(&cs, f[1], "GGK") {
            self.pending_gga = None;
            return match extract_ggk(sentence, &cs, &f, Ghost(fs)) {
                Some(g) => NmeaUpdate::Ggk(g),
                None => NmeaUpdate::Rejected,
            };
        }
        let f0 = field_str(sentence, f[0]);
        let fb = f0.as_bytes();
        if fb.len() < 5 {
            return NmeaUpdate::Rejected;
        }
        let is_gga = fb.len() == 5 && fb[2] == 71 && fb[3] == 71 && fb[4] == 65;
        let is_rmc = fb.len() == 5 && fb[2] == 82 && fb[3] == 77 && fb[4] == 67;
        proof {
            let b = encode_utf8(fs[0]);
            assert(fb@ == b);
            if b.len() == 5 {
                assert(b.skip(2) =~= seq![b[2], b[3], b[4]]);
            }
            if b.skip(2) == seq![71u8, 71u8, 65u8] || b.skip(2) == seq![82u8, 77u8, 67u8] {
                assert(b.skip(2).len() == 3);
            }
        }
        if is_gga {
            self.pending_gga = extract_gga(sentence, &cs, &f, Ghost(fs));
            return NmeaUpdate::Buffered;
        }
        if is_rmc {
            let rmc = match extract_rmc(sentence, &cs, &f, Ghost(fs)) {
                Some(r) => r,
                None => {
                    return NmeaUpdate::Rejected;
                },
            };
            let mut pending: Option<GgaFix> = None;
            std::mem::swap(&mut pending, &mut self.pending_gga);
            let merged = match pending {
                Some(g) => {
                    if f[1].1 > f[1].0 && field_is(&cs, f[1], g.utc_time.as_str()) {
                        Some(g)
                    } else {
                        None
                    }
                },
                None => None,
            };
            return NmeaUpdate::Rmc(rmc, merged);
        }
        NmeaUpdate::Rejected
    }
}


// ---------------------------------------------------------------------------
// Laws of the epoch pairing
// ---------------------------------------------------------------------------

/// A usable GGA followed by a usable RMC stamped with the same UTC time
/// yields one update carrying both: the RMC kinematics and that GGA fix.
pub proof fn law_gga_then_matching_rmc_merges(pending: Option<GgaText>, gga: Seq<char>, rmc: Seq<char>)
    requires
        checksum_ok(gga),
        kind_of(nmea_fields(gga)) == SentenceKind::Gga,
        gga_of(nmea_fields(gga)) is Some,
        checksum_ok(rmc),
        kind_of(nmea_fields(rmc)) == SentenceKind::Rmc,
        rmc_of(nmea_fields(rmc)) is Some,
        nmea_fields(rmc)[1] == nmea_fields(gga)[1],
    ensures
        spec_parse(spec_parse(pending, gga).0, rmc) == (
            None::<GgaText>,
            UpdateText::Rmc(rmc_of(nmea_fields(rmc))->0, gga_of(nmea_fields(gga))),
        ),
{
}

/// An RMC never carries a GGA fix whose UTC time differs from its own, and
/// after any applied RMC or GGK nothing stays buffered: a position fix is
/// applied at most once.
pub proof fn law_no_stale_position(pending: Option<GgaText>, s: Seq<char>)
    ensures
        spec_parse(pending, s).1 matches UpdateText::Rmc(_, Some(g)) ==> pending == Some(g)
            && g.utc_time == nmea_fields(s)[1] && g.utc_time.len() > 0,
        applies(spec_parse(pending, s).1) ==> spec_parse(pending, s).0 is None,
{
}

/// A sentence with a bad checksum changes nothing and is not applied.
pub proof fn law_bad_checksum_ignored(pending: Option<GgaText>, s: Seq<char>)
    requires
        !checksum_ok(s),
    ensures
        spec_parse(pending, s) == (pending, UpdateText::Rejected),
{
}

/// A buffered GGA is only ever the GGA of the last GGA sentence: whatever is
/// buffered after a step was either buffered before or comes from that step's
/// own GGA sentence.
pub proof fn law_buffer_source(pending: Option<GgaText>, s: Seq<char>)
    ensures
        spec_parse(pending, s).0 is Some ==> spec_parse(pending, s).0 == pending || (checksum_ok(s)
            && kind_of(nmea_fields(s)) == SentenceKind::Gga && spec_parse(pending, s).0 == gga_of(
            nmea_fields(s),
        )),
{
}

/// A Trimble `PTNL,GGK` fix reports its RTK quality in GGA's codes: a float
/// solution (Trimble 2) becomes 5 and a fixed one (Trimble 3) becomes 4, so
/// the two stay distinct; any other code is kept as it is, and an
/// unreadable code gives no quality.
pub proof fn law_ggk_quality_in_gga_codes(pending: Option<GgaText>, s: Seq<char>)
    requires
        checksum_ok(s),
        kind_of(nmea_fields(s)) == SentenceKind::Ggk,
        nmea_fields(s).len() >= 12,
    ensures
        spec_parse(pending, s).1 matches UpdateText::Ggk(g) && {
            let code = parse_u8(nmea_fields(s)[8]);
            &&& code == Some(2u8) ==> g.fix_quality == Some(5u8)
            &&& code == Some(3u8) ==> g.fix_quality == Some(4u8)
            &&& forall|q: u8| q != 2 && q != 3 && code == Some(q) ==> g.fix_quality == Some(q)
            &&& code is None ==> g.fix_quality is None
        },
        spec_parse(pending, s).0 is None,
{
}

/// Splitting a coordinate loses nothing: its degree and minute texts put
/// back together give the field, the degree text is exactly `deg_len`
/// bytes, and the value is negative exactly in the southern and western
/// hemispheres.
pub proof fn law_coordinate_split_is_lossless(val: Seq<char>, dir: Seq<char>, deg_len: nat)
    ensures
        coord_of(val, dir, deg_len) matches Some(c) ==> {
            &&& encode_utf8(c.degrees) + encode_utf8(c.minutes) == encode_utf8(val)
            &&& encode_utf8(c.degrees).len() == deg_len
            &&& c.negative <==> (dir == seq!['S'] || dir == seq!['W'])
            &&& (dir == seq!['N'] || dir == seq!['S'] || dir == seq!['E'] || dir == seq!['W'])
        },
{
    if let Some(c) = coord_of(val, dir, deg_len) {
        let vb = encode_utf8(val);
        let d = deg_len as int;
        assert(vb.take(d) =~= vb.subrange(0, d));
        assert(vb.skip(d) =~= vb.subrange(d, vb.len() as int));
        assert(valid_utf8(vb.subrange(0, d)));
        assert(valid_utf8(vb.subrange(d, vb.len() as int)));
        assert(encode_utf8(c.degrees) == vb.take(d));
        assert(encode_utf8(c.minutes) == vb.skip(d));
        assert(vb.take(d) + vb.skip(d) =~= vb);
    }
}

} // verus!
