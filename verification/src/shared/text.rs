//! Character-level helpers shared by the parsers and renderers of the library.
//!
//! Strings are handled through their `Seq<char>` views. The splitting helpers
//! are specified by recursive spec functions that walk the text from its end,
//! so that left-to-right loops can keep "the pieces of the prefix read so far"
//! as their invariant.
use vstd::prelude::*;

verus! {

/// Appends one character to a `String` (`String::push`).
#[verifier::external_body]
pub(crate) fn push_char(s: &mut String, c: char)
    ensures
        final(s)@ == old(s)@.push(c),
{
    s.push(c);
}

/// What `String::from_utf8` reports for invalid input: the `Display` text of
/// its error, which depends on the bytes alone.
pub uninterp spec fn utf8_error_text(bytes: Seq<u8>) -> Seq<char>;

/// Decodes bytes as UTF-8 (`String::from_utf8`): `Ok` exactly for valid UTF-8,
/// holding the decoded characters; otherwise the error's text.
#[verifier::external_body]
pub(crate) fn decode_utf8_bytes(bytes: Vec<u8>) -> (r: Result<String, String>)
    ensures
        r is Ok <==> vstd::utf8::valid_utf8(bytes@),
        r matches Ok(s) ==> s@ == vstd::utf8::decode_utf8(bytes@),
        r matches Err(m) ==> m@ == utf8_error_text(bytes@),
{
    String::from_utf8(bytes).map_err(|e| e.to_string())
}

/// Appends the UTF-8 encoding of a character to a byte vector: one byte
/// below 0x80, then two, three or four, the leading byte carrying the
/// width and the top bits, each continuation byte six more bits.
pub fn push_utf8_char(bytes: &mut Vec<u8>, c: char)
    ensures
        final(bytes)@ == old(bytes)@ + vstd::utf8::encode_utf8(seq![c]),
{
    let v: u32 = c as u32;
    let ghost start = bytes@;
    proof {
        vstd::utf8::char_is_scalar(c);
        reveal_with_fuel(vstd::utf8::encode_utf8, 2);
        assert(seq![c].drop_first() =~= Seq::<char>::empty());
        assert(vstd::utf8::encode_utf8(seq![c]) =~= vstd::utf8::encode_scalar(v));
    }
    if v <= 0x7F {
        bytes.push((v & 0x7F) as u8);
    } else if v <= 0x7FF {
        bytes.push(0xC0 | ((v >> 6) & 0x1F) as u8);
        bytes.push(0x80 | (v & 0x3F) as u8);
    } else if v <= 0xFFFF {
        bytes.push(0xE0 | ((v >> 12) & 0x0F) as u8);
        bytes.push(0x80 | ((v >> 6) & 0x3F) as u8);
        bytes.push(0x80 | (v & 0x3F) as u8);
    } else {
        bytes.push(0xF0 | ((v >> 18) & 0x7) as u8);
        bytes.push(0x80 | ((v >> 12) & 0x3F) as u8);
        bytes.push(0x80 | ((v >> 6) & 0x3F) as u8);
        bytes.push(0x80 | (v & 0x3F) as u8);
    }
    proof {
        assert(bytes@ =~= start + vstd::utf8::encode_scalar(v));
    }
}

/// The characters of a string slice, in order.
pub fn chars_of(s: &str) -> (v: Vec<char>)
    ensures
        v@ == s@,
{
    let mut v: Vec<char> = Vec::new();
    for c in it: s.chars()
        invariant
            v@ == it.seq().take(it.index() as int),
    {
        v.push(c);
    }
    proof {
        assert(v@ =~= s@);
    }
    v
}

/// A `String` holding `v[lo..hi]`.
pub fn string_from_range(v: &Vec<char>, lo: usize, hi: usize) -> (s: String)
    requires
        lo <= hi <= v.len(),
    ensures
        s@ == v@.subrange(lo as int, hi as int),
{
    let mut s = String::new();
    let mut i = lo;
    while i < hi
        invariant
            lo <= i <= hi <= v.len(),
            s@ == v@.subrange(lo as int, i as int),
        decreases hi - i,
    {
        push_char(&mut s, v[i]);
        i = i + 1;
        proof {
            assert(s@ =~= v@.subrange(lo as int, i as int));
        }
    }
    s
}

/// Appends `v[lo..hi]`.
pub fn push_range(out: &mut String, v: &Vec<char>, lo: usize, hi: usize)
    requires
        lo <= hi <= v.len(),
    ensures
        final(out)@ == old(out)@ + v@.subrange(lo as int, hi as int),
{
    let ghost start = out@;
    let mut i = lo;
    while i < hi
        invariant
            lo <= i <= hi <= v.len(),
            out@ == start + v@.subrange(lo as int, i as int),
        decreases hi - i,
    {
        push_char(out, v[i]);
        i = i + 1;
        proof {
            assert(out@ =~= start + v@.subrange(lo as int, i as int));
        }
    }
}

/// A `String` holding all of `v`.
pub fn string_from_chars(v: &Vec<char>) -> (s: String)
    ensures
        s@ == v@,
{
    let s = string_from_range(v, 0, v.len());
    proof {
        assert(v@.subrange(0, v@.len() as int) =~= v@);
    }
    s
}

/// Appends a string slice (`push_str`).
pub fn append_str(s: &mut String, t: &str)
    ensures
        final(s)@ == old(s)@ + t@,
{
    s.append(t);
}

/// `a == b` on character sequences held in vectors.
pub fn chars_eq(a: &Vec<char>, b: &Vec<char>) -> (r: bool)
    ensures
        r == (a@ == b@),
{
    if a.len() != b.len() {
        return false;
    }
    let mut i: usize = 0;
    while i < a.len()
        invariant
            a.len() == b.len(),
            0 <= i <= a.len(),
            forall|j: int| 0 <= j < i ==> a@[j] == b@[j],
        decreases a.len() - i,
    {
        if a[i] != b[i] {
            return false;
        }
        i = i + 1;
    }
    proof {
        assert(a@ =~= b@);
    }
    true
}

/// Compares a character vector with a string slice.
pub fn chars_eq_str(a: &Vec<char>, b: &str) -> (r: bool)
    ensures
        r == (a@ == b@),
{
    let bv = chars_of(b);
    chars_eq(a, &bv)
}

/// `s` begins with `p`.
pub open spec fn has_prefix(s: Seq<char>, p: Seq<char>) -> bool {
    p.len() <= s.len() && s.take(p.len() as int) == p
}

/// Whether `v` begins with the characters of `p`.
pub fn starts_with_str(v: &Vec<char>, p: &str) -> (r: bool)
    ensures
        r == has_prefix(v@, p@),
{
    let pv = chars_of(p);
    if pv.len() > v.len() {
        return false;
    }
    let mut i: usize = 0;
    while i < pv.len()
        invariant
            pv@ == p@,
            pv.len() <= v.len(),
            0 <= i <= pv.len(),
            forall|j: int| 0 <= j < i ==> v@[j] == pv@[j],
        decreases pv.len() - i,
    {
        if v[i] != pv[i] {
            proof {
                assert(v@.take(pv@.len() as int)[i as int] != pv@[i as int]);
                assert(v@.take(pv@.len() as int) != pv@);
                assert(!has_prefix(v@, p@));
            }
            return false;
        }
        i = i + 1;
    }
    proof {
        assert(v@.take(pv@.len() as int) =~= pv@);
    }
    true
}

// ---------------------------------------------------------------------------
// Splitting
// ---------------------------------------------------------------------------

/// Which characters separate the pieces of a split.
#[derive(Clone, Copy, PartialEq, Eq, Debug)]
pub enum Separator {
    Slash,
    Newline,
    Whitespace,
}

/// Unicode `White_Space` characters, as `char::is_whitespace` defines them.
pub open spec fn is_unicode_whitespace(c: char) -> bool {
    ||| ('\u{9}' <= c && c <= '\u{d}')
    ||| c == ' '
    ||| c == '\u{85}'
    ||| c == '\u{a0}'
    ||| c == '\u{1680}'
    ||| ('\u{2000}' <= c && c <= '\u{200a}')
    ||| c == '\u{2028}'
    ||| c == '\u{2029}'
    ||| c == '\u{202f}'
    ||| c == '\u{205f}'
    ||| c == '\u{3000}'
}

/// Whether `c` is Unicode white space.
pub fn is_unicode_whitespace_exec(c: char) -> (r: bool)
    ensures
        r == is_unicode_whitespace(c),
{
    ('\u{9}' <= c && c <= '\u{d}') || c == ' ' || c == '\u{85}' || c == '\u{a0}' || c
        == '\u{1680}' || ('\u{2000}' <= c && c <= '\u{200a}') || c == '\u{2028}' || c
        == '\u{2029}' || c == '\u{202f}' || c == '\u{205f}' || c == '\u{3000}'
}

pub open spec fn is_separator(sep: Separator, c: char) -> bool {
    match sep {
        Separator::Slash => c == '/',
        Separator::Newline => c == '\n',
        Separator::Whitespace => is_unicode_whitespace(c),
    }
}

/// Whether `c` separates pieces for `sep`.
pub fn is_separator_exec(sep: Separator, c: char) -> (r: bool)
    ensures
        r == is_separator(sep, c),
{
    match sep {
        Separator::Slash => c == '/',
        Separator::Newline => c == '\n',
        Separator::Whitespace => is_unicode_whitespace_exec(c),
    }
}

/// The pieces between separators, empty pieces included; never empty
/// (`"".split('/')` yields one empty piece).
pub open spec fn split_on(s: Seq<char>, sep: Separator) -> Seq<Seq<char>>
    decreases s.len(),
{
    if s.len() == 0 {
        seq![Seq::<char>::empty()]
    } else {
        let rest = split_on(s.drop_last(), sep);
        if is_separator(sep, s.last()) {
            rest.push(Seq::<char>::empty())
        } else {
            rest.update(rest.len() - 1, rest.last().push(s.last()))
        }
    }
}

/// Splitting always yields at least one piece.
pub proof fn lemma_split_on_nonempty(s: Seq<char>, sep: Separator)
    ensures
        split_on(s, sep).len() >= 1,
    decreases s.len(),
{
    if s.len() > 0 {
        lemma_split_on_nonempty(s.drop_last(), sep);
    }
}

/// No piece of a split holds a separator.
pub proof fn lemma_split_on_pieces_have_no_separator(s: Seq<char>, sep: Separator)
    ensures
        forall|i: int, j: int|
            0 <= i < split_on(s, sep).len() && 0 <= j < split_on(s, sep)[i].len()
                ==> !is_separator(sep, #[trigger] split_on(s, sep)[i][j]),
    decreases s.len(),
{
    if s.len() > 0 {
        lemma_split_on_pieces_have_no_separator(s.drop_last(), sep);
        lemma_split_on_nonempty(s.drop_last(), sep);
        let rest = split_on(s.drop_last(), sep);
        assert forall|i: int, j: int|
            0 <= i < split_on(s, sep).len() && 0 <= j < split_on(s, sep)[i].len()
                implies !is_separator(sep, #[trigger] split_on(s, sep)[i][j]) by {
            if !is_separator(sep, s.last()) && i == rest.len() - 1 {
                if j < rest.last().len() {
                    assert(split_on(s, sep)[i][j] == rest[i][j]);
                }
            } else if i < rest.len() {
                assert(split_on(s, sep)[i] == rest[i]);
            }
        }
    }
}

/// A text without separators splits into itself.
pub proof fn lemma_split_on_without_separator(p: Seq<char>, sep: Separator)
    requires
        forall|j: int| 0 <= j < p.len() ==> !is_separator(sep, #[trigger] p[j]),
    ensures
        split_on(p, sep) == seq![p],
    decreases p.len(),
{
    if p.len() > 0 {
        lemma_split_on_without_separator(p.drop_last(), sep);
        assert(p.drop_last().push(p.last()) =~= p);
        assert(split_on(p, sep) =~= seq![p]);
    } else {
        assert(p =~= Seq::<char>::empty());
    }
}

/// Splitting `a`, a separator `c`, then a separator-free `b`, appends `b` to
/// the pieces of `a`.
pub proof fn lemma_split_on_append(a: Seq<char>, c: char, b: Seq<char>, sep: Separator)
    requires
        is_separator(sep, c),
        forall|j: int| 0 <= j < b.len() ==> !is_separator(sep, #[trigger] b[j]),
    ensures
        split_on(a + seq![c] + b, sep) == split_on(a, sep).push(b),
    decreases b.len(),
{
    lemma_split_on_nonempty(a, sep);
    if b.len() == 0 {
        assert((a + seq![c] + b).drop_last() =~= a);
        assert(b =~= Seq::<char>::empty());
    } else {
        let b2 = b.drop_last();
        lemma_split_on_append(a, c, b2, sep);
        assert((a + seq![c] + b).drop_last() =~= a + seq![c] + b2);
        assert(b2.push(b.last()) =~= b);
        assert(split_on(a + seq![c] + b, sep) =~= split_on(a, sep).push(b));
    }
}

/// The pieces that are not empty, in order.
pub open spec fn nonempty_pieces(ps: Seq<Seq<char>>) -> Seq<Seq<char>>
    decreases ps.len(),
{
    if ps.len() == 0 {
        Seq::empty()
    } else {
        let rest = nonempty_pieces(ps.drop_last());
        if ps.last().len() == 0 {
            rest
        } else {
            rest.push(ps.last())
        }
    }
}

/// `str::split_whitespace`: the maximal runs of non-whitespace characters.
pub open spec fn whitespace_fields(s: Seq<char>) -> Seq<Seq<char>> {
    nonempty_pieces(split_on(s, Separator::Whitespace))
}

/// Splits `v[lo..hi]` on `sep` into the ranges of its pieces.
pub fn split_ranges(v: &Vec<char>, lo: usize, hi: usize, sep: Separator) -> (r: Vec<(usize, usize)>)
    requires
        lo <= hi <= v.len(),
    ensures
        r@.len() == split_on(v@.subrange(lo as int, hi as int), sep).len(),
        forall|k: int|
            #![trigger r@[k]]
            0 <= k < r@.len() ==> {
                &&& lo <= r@[k].0 <= r@[k].1 <= hi
                &&& v@.subrange(r@[k].0 as int, r@[k].1 as int) == split_on(
                    v@.subrange(lo as int, hi as int),
                    sep,
                )[k]
            },
{
    let mut r: Vec<(usize, usize)> = Vec::new();
    r.push((lo, lo));
    let mut i = lo;
    proof {
        assert(v@.subrange(lo as int, lo as int) =~= Seq::<char>::empty());
        assert(split_on(v@.subrange(lo as int, lo as int), sep) =~= seq![Seq::<char>::empty()]);
    }
    while i < hi
        invariant
            lo <= i <= hi <= v.len(),
            r@.len() >= 1,
            r@.len() == split_on(v@.subrange(lo as int, i as int), sep).len(),
            r@.last().1 == i,
            forall|k: int|
                #![trigger r@[k]]
                0 <= k < r@.len() ==> {
                    &&& lo <= r@[k].0 <= r@[k].1 <= i
                    &&& v@.subrange(r@[k].0 as int, r@[k].1 as int) == split_on(
                        v@.subrange(lo as int, i as int),
                        sep,
                    )[k]
                },
        decreases hi - i,
    {
        let c = v[i];
        let ghost prev = split_on(v@.subrange(lo as int, i as int), sep);
        proof {
            assert(v@.subrange(lo as int, i + 1).drop_last() =~= v@.subrange(lo as int, i as int));
            assert(v@.subrange(lo as int, i + 1).last() == c);
        }
        if is_separator_exec(sep, c) {
            r.push((i + 1, i + 1));
            proof {
                assert forall|k: int| #![trigger r@[k]] 0 <= k < r@.len() implies {
                    &&& lo <= r@[k].0 <= r@[k].1 <= i + 1
                    &&& v@.subrange(r@[k].0 as int, r@[k].1 as int) == split_on(
                        v@.subrange(lo as int, i + 1),
                        sep,
                    )[k]
                } by {
                    if k == r@.len() - 1 {
                        assert(v@.subrange(i + 1, i + 1) =~= Seq::<char>::empty());
                    }
                }
            }
        } else {
            let ghost old_r = r@;
            let last = r.pop().unwrap();
            proof {
                assert(last == old_r[old_r.len() - 1]);
                assert(lo <= last.0 <= last.1 <= i);
            }
            r.push((last.0, i + 1));
            proof {
                assert forall|k: int| #![trigger r@[k]] 0 <= k < r@.len() implies {
                    &&& lo <= r@[k].0 <= r@[k].1 <= i + 1
                    &&& v@.subrange(r@[k].0 as int, r@[k].1 as int) == split_on(
                        v@.subrange(lo as int, i + 1),
                        sep,
                    )[k]
                } by {
                    if k == r@.len() - 1 {
                        assert(v@.subrange(last.0 as int, i + 1) =~= v@.subrange(
                            last.0 as int,
                            i as int,
                        ).push(c));
                    }
                }
            }
        }
        i = i + 1;
    }
    r
}

// ---------------------------------------------------------------------------
// Numbers
// ---------------------------------------------------------------------------

pub open spec fn decimal_digit(d: nat) -> char {
    if d == 0 {
        '0'
    } else if d == 1 {
        '1'
    } else if d == 2 {
        '2'
    } else if d == 3 {
        '3'
    } else if d == 4 {
        '4'
    } else if d == 5 {
        '5'
    } else if d == 6 {
        '6'
    } else if d == 7 {
        '7'
    } else if d == 8 {
        '8'
    } else {
        '9'
    }
}

/// The decimal rendering of a natural number (no sign, no leading zeros).
pub open spec fn decimal(n: nat) -> Seq<char>
    decreases n,
{
    if n < 10 {
        seq![decimal_digit(n)]
    } else {
        decimal(n / 10).push(decimal_digit(n % 10))
    }
}

fn digit_char(d: u64) -> (c: char)
    requires
        d < 10,
    ensures
        c == decimal_digit(d as nat),
{
    if d == 0 {
        '0'
    } else if d == 1 {
        '1'
    } else if d == 2 {
        '2'
    } else if d == 3 {
        '3'
    } else if d == 4 {
        '4'
    } else if d == 5 {
        '5'
    } else if d == 6 {
        '6'
    } else if d == 7 {
        '7'
    } else if d == 8 {
        '8'
    } else {
        '9'
    }
}

/// Appends the decimal rendering of `n`.
pub fn push_decimal(out: &mut String, n: u64)
    ensures
        final(out)@ == old(out)@ + decimal(n as nat),
    decreases n,
{
    if n >= 10 {
        push_decimal(out, n / 10);
    }
    push_char(out, digit_char(n % 10));
    proof {
        if n >= 10 {
            assert(decimal(n as nat) == decimal((n / 10) as nat).push(decimal_digit((n % 10) as nat)));
        }
        assert(final(out)@ =~= old(out)@ + decimal(n as nat));
    }
}

/// Lower-case hexadecimal digit.
pub open spec fn hex_digit(d: nat) -> char {
    if d < 10 {
        decimal_digit(d)
    } else if d == 10 {
        'a'
    } else if d == 11 {
        'b'
    } else if d == 12 {
        'c'
    } else if d == 13 {
        'd'
    } else if d == 14 {
        'e'
    } else {
        'f'
    }
}

fn hex_digit_char(d: u8) -> (c: char)
    requires
        d < 16,
    ensures
        c == hex_digit(d as nat),
{
    if d < 10 {
        digit_char(d as u64)
    } else if d == 10 {
        'a'
    } else if d == 11 {
        'b'
    } else if d == 12 {
        'c'
    } else if d == 13 {
        'd'
    } else if d == 14 {
        'e'
    } else {
        'f'
    }
}

/// `format!("{b:02x}")`: two lower-case hexadecimal digits.
pub open spec fn hex_byte(b: u8) -> Seq<char> {
    seq![hex_digit((b / 16) as nat), hex_digit((b % 16) as nat)]
}

/// Appends a byte as two lowercase hex digits.
pub fn push_hex_byte(out: &mut String, b: u8)
    ensures
        final(out)@ == old(out)@ + hex_byte(b),
{
    push_char(out, hex_digit_char(b / 16));
    push_char(out, hex_digit_char(b % 16));
    proof {
        assert(final(out)@ =~= old(out)@ + hex_byte(b));
    }
}

/// Why an unsigned integer failed to parse (`std::num::IntErrorKind`).
#[derive(Clone, Copy, PartialEq, Eq, Debug)]
pub enum IntParseError {
    Empty,
    InvalidDigit,
    PosOverflow,
}

/// The value of `c` as a digit in base `radix` (10 or 16), as `char::to_digit`.
pub open spec fn digit_value(c: char, radix: nat) -> Option<nat> {
    if '0' <= c && c <= '9' {
        Some((c as nat - '0' as nat) as nat)
    } else if radix == 16 && 'a' <= c && c <= 'f' {
        Some((c as nat - 'a' as nat + 10) as nat)
    } else if radix == 16 && 'A' <= c && c <= 'F' {
        Some((c as nat - 'A' as nat + 10) as nat)
    } else {
        None
    }
}

/// Left-to-right accumulation of digits as `u64::from_str_radix` performs it.
pub open spec fn accumulate_digits(ds: Seq<char>, radix: nat, acc: nat) -> Result<nat, IntParseError>
    decreases ds.len(),
{
    if ds.len() == 0 {
        Ok(acc)
    } else {
        match digit_value(ds[0], radix) {
            None => Err(IntParseError::InvalidDigit),
            Some(d) => {
                let next = acc * radix + d;
                if next > u64::MAX {
                    Err(IntParseError::PosOverflow)
                } else {
                    accumulate_digits(ds.drop_first(), radix, next)
                }
            },
        }
    }
}

/// `u64::from_str_radix(s, radix)`: an optional leading `+`, then at least
/// one digit.
pub open spec fn parse_u64_spec(s: Seq<char>, radix: nat) -> Result<nat, IntParseError> {
    if s.len() == 0 {
        Err(IntParseError::Empty)
    } else if s[0] == '+' && s.len() == 1 {
        Err(IntParseError::InvalidDigit)
    } else if s[0] == '+' {
        accumulate_digits(s.drop_first(), radix, 0)
    } else {
        accumulate_digits(s, radix, 0)
    }
}

fn digit_value_exec(c: char, radix: u32) -> (r: Option<u64>)
    requires
        radix == 10 || radix == 16,
    ensures
        r matches Some(d) ==> digit_value(c, radix as nat) == Some(d as nat) && d < radix,
        r is None ==> digit_value(c, radix as nat) is None,
{
    if '0' <= c && c <= '9' {
        Some((c as u32 - '0' as u32) as u64)
    } else if radix == 16 && 'a' <= c && c <= 'f' {
        Some((c as u32 - 'a' as u32 + 10) as u64)
    } else if radix == 16 && 'A' <= c && c <= 'F' {
        Some((c as u32 - 'A' as u32 + 10) as u64)
    } else {
        None
    }
}

/// Parses `v[lo..hi]` as an unsigned 64-bit integer in base `radix`.
pub fn parse_u64_range(v: &Vec<char>, lo: usize, hi: usize, radix: u32) -> (r: Result<u64, IntParseError>)
    requires
        lo <= hi <= v.len(),
        radix == 10 || radix == 16,
    ensures
        match (r, parse_u64_spec(v@.subrange(lo as int, hi as int), radix as nat)) {
            (Ok(n), Ok(m)) => n as nat == m,
            (Err(e), Err(f)) => e == f,
            _ => false,
        },
{
    let ghost s = v@.subrange(lo as int, hi as int);
    if lo == hi {
        return Err(IntParseError::Empty);
    }
    let mut i = lo;
    if v[lo] == '+' {
        if hi - lo == 1 {
            return Err(IntParseError::InvalidDigit);
        }
        i = lo + 1;
    }
    let ghost digits = v@.subrange(i as int, hi as int);
    proof {
        if v@[lo as int] == '+' {
            assert(digits =~= s.drop_first());
        } else {
            assert(digits =~= s);
        }
    }
    let mut acc: u64 = 0;
    while i < hi
        invariant
            lo <= i <= hi <= v.len(),
            radix == 10 || radix == 16,
            parse_u64_spec(v@.subrange(lo as int, hi as int), radix as nat) == accumulate_digits(
                v@.subrange(i as int, hi as int),
                radix as nat,
                acc as nat,
            ),
        decreases hi - i,
    {
        let ghost rest = v@.subrange(i as int, hi as int);
        proof {
            assert(rest[0] == v@[i as int]);
            assert(rest.drop_first() =~= v@.subrange(i + 1, hi as int));
        }
        match digit_value_exec(v[i], radix) {
            None => {
                proof {
                    assert(accumulate_digits(rest, radix as nat, acc as nat) == Err::<nat, IntParseError>(IntParseError::InvalidDigit));
                }
                return Err(IntParseError::InvalidDigit);
            },
            Some(d) => {
                let m = acc.checked_mul(radix as u64);
                match m {
                    None => {
                        proof {
                            assert(acc * radix + d > u64::MAX) by (nonlinear_arith)
                                requires
                                    acc * radix > u64::MAX,
                                    d >= 0,
                            ;
                        }
                        proof {
                            assert(accumulate_digits(rest, radix as nat, acc as nat) == Err::<nat, IntParseError>(IntParseError::PosOverflow));
                        }
                        return Err(IntParseError::PosOverflow);
                    },
                    Some(m) => {
                        match m.checked_add(d) {
                            None => {
                                proof {
                                    assert(accumulate_digits(rest, radix as nat, acc as nat) == Err::<nat, IntParseError>(IntParseError::PosOverflow));
                                }
                                return Err(IntParseError::PosOverflow);
                            },
                            Some(next) => {
                                acc = next;
                            },
                        }
                    },
                }
            },
        }
        i = i + 1;
    }
    proof {
        assert(v@.subrange(hi as int, hi as int) =~= Seq::<char>::empty());
    }
    Ok(acc)
}

// ---------------------------------------------------------------------------
// Lines and fields
// ---------------------------------------------------------------------------

/// A line with the `\r` of a `\r\n` ending removed.
pub open spec fn strip_cr(p: Seq<char>) -> Seq<char> {
    if p.len() > 0 && p.last() == '\r' {
        p.drop_last()
    } else {
        p
    }
}

/// `str::lines`: the pieces between `\n`s, each that ended in `\n` without a
/// trailing `\r`, and no final empty piece.
pub open spec fn text_lines(s: Seq<char>) -> Seq<Seq<char>> {
    let ps = split_on(s, Separator::Newline);
    let init = ps.drop_last().map_values(|p: Seq<char>| strip_cr(p));
    if ps.last().len() == 0 {
        init
    } else {
        init.push(ps.last())
    }
}

/// The ranges of the lines of `v`, as `str::lines` yields them.
pub fn line_ranges(v: &Vec<char>) -> (r: Vec<(usize, usize)>)
    ensures
        r@.len() == text_lines(v@).len(),
        forall|k: int|
            #![trigger r@[k]]
            0 <= k < r@.len() ==> {
                &&& r@[k].0 <= r@[k].1 <= v.len()
                &&& v@.subrange(r@[k].0 as int, r@[k].1 as int) == text_lines(v@)[k]
            },
{
    let pieces = split_ranges(v, 0, v.len(), Separator::Newline);
    let ghost whole = v@.subrange(0, v.len() as int);
    proof {
        assert(whole =~= v@);
        lemma_split_on_nonempty(v@, Separator::Newline);
    }
    let ghost ps = split_on(v@, Separator::Newline);
    let ghost init = ps.drop_last().map_values(|p: Seq<char>| strip_cr(p));
    let mut r: Vec<(usize, usize)> = Vec::new();
    let n = pieces.len() - 1;
    let mut k: usize = 0;
    while k < n
        invariant
            whole == v@,
            ps == split_on(v@, Separator::Newline),
            init == ps.drop_last().map_values(|p: Seq<char>| strip_cr(p)),
            n + 1 == pieces@.len() == ps.len(),
            forall|j: int|
                #![trigger pieces@[j]]
                0 <= j < pieces@.len() ==> {
                    &&& 0 <= pieces@[j].0 <= pieces@[j].1 <= v.len()
                    &&& v@.subrange(pieces@[j].0 as int, pieces@[j].1 as int) == ps[j]
                },
            k <= n,
            r@.len() == k,
            forall|j: int|
                #![trigger r@[j]]
                0 <= j < k ==> {
                    &&& r@[j].0 <= r@[j].1 <= v.len()
                    &&& v@.subrange(r@[j].0 as int, r@[j].1 as int) == init[j]
                },
        decreases n - k,
    {
        let (a, b) = pieces[k];
        let ghost p = ps[k as int];
        if b > a && v[b - 1] == '\r' {
            r.push((a, b - 1));
            proof {
                assert(p.last() == v@[b - 1]);
                assert(v@.subrange(a as int, b - 1) =~= p.drop_last());
            }
        } else {
            r.push((a, b));
        }
        proof {
            assert(init[k as int] == strip_cr(p));
        }
        k = k + 1;
    }
    let (a, b) = pieces[n];
    if b > a {
        r.push((a, b));
    }
    proof {
        assert(ps.drop_last().len() == n);
        assert(v@.subrange(a as int, b as int) == ps.last());
        if b > a {
            assert(text_lines(v@) == init.push(ps.last()));
            assert forall|j: int|
                #![trigger r@[j]]
                0 <= j < r@.len() implies {
                    &&& r@[j].0 <= r@[j].1 <= v.len()
                    &&& v@.subrange(r@[j].0 as int, r@[j].1 as int) == text_lines(v@)[j]
                } by {
                if j < n {
                    assert(text_lines(v@)[j] == init[j]);
                }
            }
        } else {
            assert(text_lines(v@) == init);
        }
    }
    r
}

/// The ranges of the whitespace-separated fields of `v[lo..hi]`, as
/// `str::split_whitespace` yields them.
pub fn field_ranges(v: &Vec<char>, lo: usize, hi: usize) -> (r: Vec<(usize, usize)>)
    requires
        lo <= hi <= v.len(),
    ensures
        r@.len() == whitespace_fields(v@.subrange(lo as int, hi as int)).len(),
        forall|k: int|
            #![trigger r@[k]]
            0 <= k < r@.len() ==> {
                &&& lo <= r@[k].0 <= r@[k].1 <= hi
                &&& v@.subrange(r@[k].0 as int, r@[k].1 as int) == whitespace_fields(
                    v@.subrange(lo as int, hi as int),
                )[k]
            },
{
    let pieces = split_ranges(v, lo, hi, Separator::Whitespace);
    let ghost ps = split_on(v@.subrange(lo as int, hi as int), Separator::Whitespace);
    let mut r: Vec<(usize, usize)> = Vec::new();
    let mut k: usize = 0;
    proof {
        assert(ps.take(0) =~= Seq::<Seq<char>>::empty());
    }
    while k < pieces.len()
        invariant
            lo <= hi <= v.len(),
            ps == split_on(v@.subrange(lo as int, hi as int), Separator::Whitespace),
            pieces@.len() == ps.len(),
            forall|j: int|
                #![trigger pieces@[j]]
                0 <= j < pieces@.len() ==> {
                    &&& lo <= pieces@[j].0 <= pieces@[j].1 <= hi
                    &&& v@.subrange(pieces@[j].0 as int, pieces@[j].1 as int) == ps[j]
                },
            k <= pieces.len(),
            r@.len() == nonempty_pieces(ps.take(k as int)).len(),
            forall|j: int|
                #![trigger r@[j]]
                0 <= j < r@.len() ==> {
                    &&& lo <= r@[j].0 <= r@[j].1 <= hi
                    &&& v@.subrange(r@[j].0 as int, r@[j].1 as int) == nonempty_pieces(
                        ps.take(k as int),
                    )[j]
                },
        decreases pieces.len() - k,
    {
        let (a, b) = pieces[k];
        proof {
            assert(ps.take(k + 1).drop_last() =~= ps.take(k as int));
            assert(ps.take(k + 1).last() == ps[k as int]);
        }
        if a < b {
            r.push((a, b));
        }
        k = k + 1;
    }
    proof {
        assert(ps.take(pieces.len() as int) =~= ps);
    }
    r
}

} // verus!
