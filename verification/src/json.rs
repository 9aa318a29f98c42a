//! Line-oriented JSON: a value model, a parser from bytes, and the string
//! escaping that the encoder needs.
//!
//! The protocol frames one JSON value per line, so the parser works on the
//! bytes of a single line. Every parsing function exists twice: a `spec`
//! function that defines the grammar mathematically over `Seq<u8>`, and an
//! executable function proved to return exactly what the spec function says.
//! Nesting is bounded by [`JSON_MAX_DEPTH`]; input nested deeper is rejected,
//! which keeps the parser total on arbitrary lines.
//!
//! Strings hold the unescaped content as raw bytes: escape sequences,
//! including `\uXXXX` with surrogate pairs, are decoded to UTF-8 bytes, and
//! bytes outside ASCII are carried through unchanged (the transport is
//! UTF-8 text). Numbers keep their exact value when they are integers that
//! fit `i64` — the only numbers the protocol reads — and are otherwise kept
//! only as the marker [`JsonValue::BigNum`].

use vstd::prelude::*;

verus! {

/// How deep values may nest before the parser gives up.
pub const JSON_MAX_DEPTH: u32 = 128;

/// A JSON value parsed from one line.
pub enum JsonValue {
    Null,
    Bool(bool),
    /// A number written as an integer that fits `i64`.
    Int(i64),
    /// A syntactically valid number that is no `i64` integer (a fraction,
    /// an exponent, or out of range); the protocol never reads one, so only
    /// its presence is kept.
    BigNum,
    /// String content, unescaped, as UTF-8 bytes.
    Str(Vec<u8>),
    Arr(Vec<JsonValue>),
    /// Members in line order; keys may repeat here, validation rejects
    /// repeats of the keys it reads.
    Obj(Vec<(Vec<u8>, JsonValue)>),
}

/// The mathematical shape of a JSON value.
pub enum JsonV {
    Null,
    Bool(bool),
    Int(i64),
    BigNum,
    Str(Seq<u8>),
    Arr(Seq<JsonV>),
    Obj(Seq<(Seq<u8>, JsonV)>),
}

/// The shapes of a sequence of array elements.
pub open spec fn elems_view(v: Seq<JsonValue>) -> Seq<JsonV>
    decreases v,
{
    if v.len() == 0 {
        Seq::empty()
    } else {
        elems_view(v.drop_last()).push(v[v.len() - 1]@)
    }
}

/// The shapes of a sequence of object members.
pub open spec fn members_view(v: Seq<(Vec<u8>, JsonValue)>) -> Seq<(Seq<u8>, JsonV)>
    decreases v,
{
    if v.len() == 0 {
        Seq::empty()
    } else {
        members_view(v.drop_last()).push((v[v.len() - 1].0@, v[v.len() - 1].1@))
    }
}

impl View for JsonValue {
    type V = JsonV;

    open spec fn view(&self) -> JsonV
        decreases self,
    {
        match self {
            JsonValue::Null => JsonV::Null,
            JsonValue::Bool(b) => JsonV::Bool(*b),
            JsonValue::Int(n) => JsonV::Int(*n),
            JsonValue::BigNum => JsonV::BigNum,
            JsonValue::Str(b) => JsonV::Str(b@),
            JsonValue::Arr(elems) => JsonV::Arr(elems_view(elems@)),
            JsonValue::Obj(members) => JsonV::Obj(members_view(members@)),
        }
    }
}

/// A member sequence's shapes line up with the members.
pub broadcast proof fn lemma_members_view(v: Seq<(Vec<u8>, JsonValue)>)
    ensures
        (#[trigger] members_view(v)).len() == v.len(),
        forall|i: int|
            0 <= i < v.len() ==> members_view(v)[i] == (v[i].0@, v[i].1@),
    decreases v.len(),
{
    if v.len() > 0 {
        lemma_members_view(v.drop_last());
        assert(members_view(v) == members_view(v.drop_last()).push(
            (v[v.len() - 1].0@, v[v.len() - 1].1@),
        ));
        assert(members_view(v.drop_last()).len() == v.drop_last().len());
        assert(v.drop_last().len() == v.len() - 1);
        assert forall|i: int|
            0 <= i < v.len() implies members_view(v)[i] == (v[i].0@, v[i].1@) by {
            if i < v.len() - 1 {
                assert(v.drop_last()[i] == v[i]);
                assert(members_view(v.drop_last())[i] == (v.drop_last()[i].0@, v.drop_last()[i].1@));
            }
        }
    }
}

// ---------------------------------------------------------------------------
// The grammar, as spec functions over the line's bytes.
// ---------------------------------------------------------------------------

/// JSON insignificant whitespace.
pub open spec fn is_ws(b: u8) -> bool {
    b == 0x20 || b == 0x09 || b == 0x0a || b == 0x0d
}

/// The first index at or after `i` that holds no whitespace.
pub open spec fn sp_ws(s: Seq<u8>, i: int) -> int
    decreases s.len() - i,
{
    if 0 <= i < s.len() && is_ws(s[i]) {
        sp_ws(s, i + 1)
    } else {
        i
    }
}

/// The value of a hexadecimal digit.
pub open spec fn hex_val(b: u8) -> Option<int> {
    if 0x30u8 <= b <= 0x39u8 {
        Some((b - 0x30u8) as int)
    } else if 0x61u8 <= b <= 0x66u8 {
        Some(b - 0x61u8 + 10)
    } else if 0x41u8 <= b <= 0x46u8 {
        Some(b - 0x41u8 + 10)
    } else {
        None
    }
}

/// Four hexadecimal digits starting at `i`.
pub open spec fn sp_hex4(s: Seq<u8>, i: int) -> Option<int> {
    if 0 <= i && i + 4 <= s.len() {
        match (hex_val(s[i]), hex_val(s[i + 1]), hex_val(s[i + 2]), hex_val(s[i + 3])) {
            (Some(a), Some(b), Some(c), Some(d)) => Some(a * 0x1000 + b * 0x100 + c * 0x10 + d),
            _ => None,
        }
    } else {
        None
    }
}

/// The UTF-8 encoding of a code point (meaningful up to 0x10FFFF).
pub open spec fn utf8_bytes(cp: int) -> Seq<u8> {
    if cp < 0x80 {
        seq![cp as u8]
    } else if cp < 0x800 {
        seq![(0xC0 + cp / 0x40) as u8, (0x80 + cp % 0x40) as u8]
    } else if cp < 0x10000 {
        seq![
            (0xE0 + cp / 0x1000) as u8,
            (0x80 + (cp / 0x40) % 0x40) as u8,
            (0x80 + cp % 0x40) as u8,
        ]
    } else {
        seq![
            (0xF0 + cp / 0x40000) as u8,
            (0x80 + (cp / 0x1000) % 0x40) as u8,
            (0x80 + (cp / 0x40) % 0x40) as u8,
            (0x80 + cp % 0x40) as u8,
        ]
    }
}

/// One escape sequence, `i` standing just past the backslash: the bytes it
/// denotes and the index past it. A `\uXXXX` high surrogate must be followed
/// by a low surrogate escape; the pair denotes one supplementary code point.
pub open spec fn sp_escape(s: Seq<u8>, i: int) -> Option<(Seq<u8>, int)> {
    if !(0 <= i < s.len()) {
        None
    } else {
        let b = s[i];
        if b == 0x22u8 {
            Some((seq![0x22u8], i + 1))
        } else if b == 0x5cu8 {
            Some((seq![0x5cu8], i + 1))
        } else if b == 0x2fu8 {
            Some((seq![0x2fu8], i + 1))
        } else if b == 0x62u8 {
            Some((seq![0x08u8], i + 1))
        } else if b == 0x66u8 {
            Some((seq![0x0cu8], i + 1))
        } else if b == 0x6eu8 {
            Some((seq![0x0au8], i + 1))
        } else if b == 0x72u8 {
            Some((seq![0x0du8], i + 1))
        } else if b == 0x74u8 {
            Some((seq![0x09u8], i + 1))
        } else if b == 0x75u8 {
            match sp_hex4(s, i + 1) {
                None => None,
                Some(cp) => {
                    if 0xD800 <= cp < 0xDC00 {
                        if i + 7 <= s.len() && s[i + 5] == 0x5cu8 && s[i + 6] == 0x75u8 {
                            match sp_hex4(s, i + 7) {
                                None => None,
                                Some(lo) => {
                                    if 0xDC00 <= lo < 0xE000 {
                                        Some((
                                            utf8_bytes(
                                                0x10000 + (cp - 0xD800) * 0x400 + (lo - 0xDC00),
                                            ),
                                            i + 11,
                                        ))
                                    } else {
                                        None
                                    }
                                },
                            }
                        } else {
                            None
                        }
                    } else if 0xDC00 <= cp < 0xE000 {
                        None
                    } else {
                        Some((utf8_bytes(cp), i + 5))
                    }
                },
            }
        } else {
            None
        }
    }
}

/// Prefixes a parsed tail with already-parsed content.
pub open spec fn opt_join<T>(pre: Seq<T>, r: Option<(Seq<T>, int)>) -> Option<(Seq<T>, int)> {
    match r {
        Some((rest, e)) => Some((pre + rest, e)),
        None => None,
    }
}

/// The body of a string, `i` standing just past the opening quote: the
/// unescaped content bytes and the index past the closing quote. Raw
/// control characters are refused; bytes outside ASCII pass through.
pub open spec fn sp_str_body(s: Seq<u8>, i: int) -> Option<(Seq<u8>, int)>
    decreases s.len() - i,
{
    if !(0 <= i < s.len()) {
        None
    } else if s[i] == 0x22u8 {
        Some((Seq::empty(), i + 1))
    } else if s[i] == 0x5cu8 {
        match sp_escape(s, i + 1) {
            None => None,
            Some((piece, j)) => {
                if i < j <= s.len() {
                    opt_join(piece, sp_str_body(s, j))
                } else {
                    None
                }
            },
        }
    } else if s[i] < 0x20 {
        None
    } else {
        opt_join(seq![s[i]], sp_str_body(s, i + 1))
    }
}

/// The first index at or after `i` that holds no decimal digit.
pub open spec fn digits_end(s: Seq<u8>, i: int) -> int
    decreases s.len() - i,
{
    if 0 <= i < s.len() && 0x30u8 <= s[i] <= 0x39u8 {
        digits_end(s, i + 1)
    } else {
        i
    }
}

/// The number written by the digits in `s[a..b]`.
pub open spec fn digits_val(s: Seq<u8>, a: int, b: int) -> int
    decreases b - a,
{
    if b <= a {
        0
    } else {
        digits_val(s, a, b - 1) * 10 + (s[b - 1] - 0x30u8)
    }
}

/// A number token starting at `i`: its `i64` value where it is a plain
/// integer in range (`None` where it carries a fraction, an exponent, or
/// overflows), and the index past the token.
pub open spec fn sp_number(s: Seq<u8>, i: int) -> Option<(Option<i64>, int)> {
    if !(0 <= i < s.len()) {
        None
    } else {
        let neg = s[i] == 0x2du8;
        let i1 = if neg {
            i + 1
        } else {
            i
        };
        let i2 = digits_end(s, i1);
        if i2 == i1 {
            None
        } else if s[i1] == 0x30u8 && i2 != i1 + 1 {
            None
        } else {
            let i3 = if i2 < s.len() && s[i2] == 0x2eu8 {
                if digits_end(s, i2 + 1) > i2 + 1 {
                    digits_end(s, i2 + 1)
                } else {
                    -1
                }
            } else {
                i2
            };
            if i3 < 0 {
                None
            } else {
                let i4 = if i3 < s.len() && (s[i3] == 0x65u8 || s[i3] == 0x45u8) {
                    let i5 = if i3 + 1 < s.len() && (s[i3 + 1] == 0x2bu8 || s[i3 + 1] == 0x2du8) {
                        i3 + 2
                    } else {
                        i3 + 1
                    };
                    if digits_end(s, i5) > i5 {
                        digits_end(s, i5)
                    } else {
                        -1
                    }
                } else {
                    i3
                };
                if i4 < 0 {
                    None
                } else {
                    let magnitude = digits_val(s, i1, i2);
                    let value = if neg {
                        -magnitude
                    } else {
                        magnitude
                    };
                    let int_part_only = i3 == i2 && i4 == i3;
                    let io = if int_part_only && i64::MIN <= value <= i64::MAX {
                        Some(value as i64)
                    } else {
                        None
                    };
                    Some((io, i4))
                }
            }
        }
    }
}

/// One JSON value starting at `i`, nesting at most `d` containers deep:
/// its shape and the index past it.
pub open spec fn sp_value(s: Seq<u8>, i: int, d: nat) -> Option<(JsonV, int)>
    decreases d, s.len() - i, 0int,
{
    if !(0 <= i < s.len()) {
        None
    } else {
        let b = s[i];
        if b == 0x22u8 {
            match sp_str_body(s, i + 1) {
                None => None,
                Some((content, j)) => Some((JsonV::Str(content), j)),
            }
        } else if b == 0x7bu8 {
            if d == 0 {
                None
            } else {
                let j = sp_ws(s, i + 1);
                if j < s.len() && s[j] == 0x7du8 {
                    Some((JsonV::Obj(Seq::empty()), j + 1))
                } else if j > i {
                    match sp_members(s, j, (d - 1) as nat) {
                        None => None,
                        Some((ms, e)) => Some((JsonV::Obj(ms), e)),
                    }
                } else {
                    None
                }
            }
        } else if b == 0x5bu8 {
            if d == 0 {
                None
            } else {
                let j = sp_ws(s, i + 1);
                if j < s.len() && s[j] == 0x5du8 {
                    Some((JsonV::Arr(Seq::empty()), j + 1))
                } else if j > i {
                    match sp_elems(s, j, (d - 1) as nat) {
                        None => None,
                        Some((es, e)) => Some((JsonV::Arr(es), e)),
                    }
                } else {
                    None
                }
            }
        } else if b == 0x74u8 {
            if i + 4 <= s.len() && s[i + 1] == 0x72u8 && s[i + 2] == 0x75u8 && s[i + 3] == 0x65u8 {
                Some((JsonV::Bool(true), i + 4))
            } else {
                None
            }
        } else if b == 0x66u8 {
            if i + 5 <= s.len() && s[i + 1] == 0x61u8 && s[i + 2] == 0x6cu8 && s[i + 3] == 0x73u8
                && s[i + 4] == 0x65u8 {
                Some((JsonV::Bool(false), i + 5))
            } else {
                None
            }
        } else if b == 0x6eu8 {
            if i + 4 <= s.len() && s[i + 1] == 0x75u8 && s[i + 2] == 0x6cu8 && s[i + 3] == 0x6cu8 {
                Some((JsonV::Null, i + 4))
            } else {
                None
            }
        } else if b == 0x2du8 || (0x30u8 <= b && b <= 0x39u8) {
            match sp_number(s, i) {
                None => None,
                Some((io, e)) => Some((
                    match io {
                        Some(n) => JsonV::Int(n),
                        None => JsonV::BigNum,
                    },
                    e,
                )),
            }
        } else {
            None
        }
    }
}

/// Array elements starting at the first element: `value (ws ',' ws value)*
/// ws ']'`, giving the shapes and the index past the closing bracket.
pub open spec fn sp_elems(s: Seq<u8>, i: int, d: nat) -> Option<(Seq<JsonV>, int)>
    decreases d, s.len() - i, 1int,
{
    match sp_value(s, i, d) {
        None => None,
        Some((v, j)) => {
            let k = sp_ws(s, j);
            if k < s.len() && s[k] == 0x2cu8 {
                let m = sp_ws(s, k + 1);
                if i < m <= s.len() {
                    opt_join(seq![v], sp_elems(s, m, d))
                } else {
                    None
                }
            } else if k < s.len() && s[k] == 0x5du8 {
                Some((seq![v], k + 1))
            } else {
                None
            }
        },
    }
}

/// Object members starting at the first key's quote: `key ws ':' ws value
/// (ws ',' ws ...)* ws '}'`, giving the pairs and the index past the brace.
pub open spec fn sp_members(s: Seq<u8>, i: int, d: nat) -> Option<(Seq<(Seq<u8>, JsonV)>, int)>
    decreases d, s.len() - i, 1int,
{
    if !(0 <= i < s.len() && s[i] == 0x22u8) {
        None
    } else {
        match sp_str_body(s, i + 1) {
            None => None,
            Some((key, j)) => {
                let k = sp_ws(s, j);
                if k < s.len() && s[k] == 0x3au8 {
                    let m = sp_ws(s, k + 1);
                    if i < m <= s.len() {
                        match sp_value(s, m, d) {
                            None => None,
                            Some((v, j2)) => {
                                let k2 = sp_ws(s, j2);
                                if k2 < s.len() && s[k2] == 0x2cu8 {
                                    let m2 = sp_ws(s, k2 + 1);
                                    if i < m2 <= s.len() {
                                        opt_join(seq![(key, v)], sp_members(s, m2, d))
                                    } else {
                                        None
                                    }
                                } else if k2 < s.len() && s[k2] == 0x7du8 {
                                    Some((seq![(key, v)], k2 + 1))
                                } else {
                                    None
                                }
                            },
                        }
                    } else {
                        None
                    }
                } else {
                    None
                }
            },
        }
    }
}

/// One line as a JSON document: whitespace, one value, whitespace, end.
pub open spec fn sp_parse(s: Seq<u8>) -> Option<JsonV> {
    match sp_value(s, sp_ws(s, 0), JSON_MAX_DEPTH as nat) {
        None => None,
        Some((v, j)) => {
            if sp_ws(s, j) == s.len() {
                Some(v)
            } else {
                None
            }
        },
    }
}


// ---------------------------------------------------------------------------
// The parser, as executable functions proved against the grammar.
// ---------------------------------------------------------------------------

/// The executable step returned exactly what the grammar says (byte payload).
pub open spec fn bytes_step_ok(r: Option<(Vec<u8>, usize)>, g: Option<(Seq<u8>, int)>) -> bool {
    match (r, g) {
        (Some(rp), Some(gp)) => rp.0@ == gp.0 && rp.1 as int == gp.1,
        (None, None) => true,
        _ => false,
    }
}

/// The executable step returned exactly what the grammar says (number payload).
pub open spec fn num_step_ok(r: Option<(Option<i64>, usize)>, g: Option<(Option<i64>, int)>) -> bool {
    match (r, g) {
        (Some(rp), Some(gp)) => rp.0 == gp.0 && rp.1 as int == gp.1,
        (None, None) => true,
        _ => false,
    }
}

/// The executable step returned exactly what the grammar says (one value).
pub open spec fn value_step_ok(r: Option<(JsonValue, usize)>, g: Option<(JsonV, int)>) -> bool {
    match (r, g) {
        (Some(rp), Some(gp)) => rp.0@ == gp.0 && rp.1 as int == gp.1,
        (None, None) => true,
        _ => false,
    }
}

/// The executable step returned exactly what the grammar says (elements).
pub open spec fn elems_step_ok(r: Option<(Vec<JsonValue>, usize)>, g: Option<(Seq<JsonV>, int)>) -> bool {
    match (r, g) {
        (Some(rp), Some(gp)) => elems_view(rp.0@) == gp.0 && rp.1 as int == gp.1,
        (None, None) => true,
        _ => false,
    }
}

/// The executable step returned exactly what the grammar says (members).
pub open spec fn members_step_ok(
    r: Option<(Vec<(Vec<u8>, JsonValue)>, usize)>,
    g: Option<(Seq<(Seq<u8>, JsonV)>, int)>,
) -> bool {
    match (r, g) {
        (Some(rp), Some(gp)) => members_view(rp.0@) == gp.0 && rp.1 as int == gp.1,
        (None, None) => true,
        _ => false,
    }
}

/// Executable mirror of [`sp_ws`].
fn skip_ws(s: &[u8], i: usize) -> (r: usize)
    requires
        i <= s@.len(),
    ensures
        r as int == sp_ws(s@, i as int),
        i <= r <= s@.len(),
{
    let mut j = i;
    while j < s.len() && (s[j] == 0x20 || s[j] == 0x09 || s[j] == 0x0a || s[j] == 0x0d)
        invariant
            i <= j <= s@.len(),
            sp_ws(s@, i as int) == sp_ws(s@, j as int),
        decreases s@.len() - j,
    {
        j = j + 1;
    }
    j
}

/// Executable mirror of [`hex_val`].
fn hex_digit(b: u8) -> (r: Option<u8>)
    ensures
        match (r, hex_val(b)) {
            (Some(x), Some(v)) => x as int == v,
            (None, None) => true,
            _ => false,
        },
{
    if 0x30 <= b && b <= 0x39 {
        Some(b - 0x30)
    } else if 0x61 <= b && b <= 0x66 {
        Some(b - 0x61 + 10)
    } else if 0x41 <= b && b <= 0x46 {
        Some(b - 0x41 + 10)
    } else {
        None
    }
}

/// Executable mirror of [`sp_hex4`].
fn parse_hex4(s: &[u8], i: usize) -> (r: Option<u32>)
    requires
        i <= s@.len(),
    ensures
        match (r, sp_hex4(s@, i as int)) {
            (Some(x), Some(v)) => x as int == v && x <= 0xFFFF,
            (None, None) => true,
            _ => false,
        },
{
    if s.len() - i >= 4 {
        match (hex_digit(s[i]), hex_digit(s[i + 1]), hex_digit(s[i + 2]), hex_digit(s[i + 3])) {
            (Some(a), Some(b), Some(c), Some(d)) => Some(
                a as u32 * 0x1000 + b as u32 * 0x100 + c as u32 * 0x10 + d as u32,
            ),
            _ => None,
        }
    } else {
        None
    }
}

/// Appends one byte; a named step so the callers' sequence algebra stays short.
pub(crate) fn push_byte(out: &mut Vec<u8>, b: u8)
    ensures
        final(out)@ == old(out)@ + seq![b],
{
    out.push(b);
    proof {
        assert(out@ =~= old(out)@ + seq![b]);
    }
}

/// Appends the UTF-8 encoding of `cp`; executable mirror of [`utf8_bytes`].
fn push_utf8(out: &mut Vec<u8>, cp: u32)
    requires
        cp <= 0x10FFFF,
    ensures
        final(out)@ == old(out)@ + utf8_bytes(cp as int),
{
    let ghost o0 = out@;
    if cp < 0x80 {
        out.push(cp as u8);
    } else if cp < 0x800 {
        out.push((0xC0 + cp / 0x40) as u8);
        out.push((0x80 + cp % 0x40) as u8);
    } else if cp < 0x10000 {
        out.push((0xE0 + cp / 0x1000) as u8);
        out.push((0x80 + (cp / 0x40) % 0x40) as u8);
        out.push((0x80 + cp % 0x40) as u8);
    } else {
        out.push((0xF0 + cp / 0x40000) as u8);
        out.push((0x80 + (cp / 0x1000) % 0x40) as u8);
        out.push((0x80 + (cp / 0x40) % 0x40) as u8);
        out.push((0x80 + cp % 0x40) as u8);
    }
    proof {
        assert(out@ =~= o0 + utf8_bytes(cp as int));
    }
}

/// Executable mirror of [`sp_escape`]; appends the denoted bytes to `out`.
fn parse_escape(s: &[u8], i: usize, out: &mut Vec<u8>) -> (r: Option<usize>)
    requires
        i <= s@.len(),
    ensures
        match (r, sp_escape(s@, i as int)) {
            (Some(j), Some(gp)) => j as int == gp.1 && final(out)@ == old(out)@ + gp.0 && i < j
                <= s@.len(),
            (None, None) => final(out)@ == old(out)@,
            _ => false,
        },
{
    if i >= s.len() {
        return None;
    }
    let b = s[i];
    if b == 0x22 {
        push_byte(out, 0x22);
        Some(i + 1)
    } else if b == 0x5c {
        push_byte(out, 0x5c);
        Some(i + 1)
    } else if b == 0x2f {
        push_byte(out, 0x2f);
        Some(i + 1)
    } else if b == 0x62 {
        push_byte(out, 0x08);
        Some(i + 1)
    } else if b == 0x66 {
        push_byte(out, 0x0c);
        Some(i + 1)
    } else if b == 0x6e {
        push_byte(out, 0x0a);
        Some(i + 1)
    } else if b == 0x72 {
        push_byte(out, 0x0d);
        Some(i + 1)
    } else if b == 0x74 {
        push_byte(out, 0x09);
        Some(i + 1)
    } else if b == 0x75 {
        match parse_hex4(s, i + 1) {
            None => None,
            Some(cp) => {
                if 0xD800 <= cp && cp < 0xDC00 {
                    if s.len() - i >= 7 && s[i + 5] == 0x5c && s[i + 6] == 0x75 {
                        match parse_hex4(s, i + 7) {
                            None => None,
                            Some(lo) => {
                                if 0xDC00 <= lo && lo < 0xE000 {
                                    push_utf8(out, 0x10000 + (cp - 0xD800) * 0x400 + (lo - 0xDC00));
                                    Some(i + 11)
                                } else {
                                    None
                                }
                            },
                        }
                    } else {
                        None
                    }
                } else if 0xDC00 <= cp && cp < 0xE000 {
                    None
                } else {
                    push_utf8(out, cp);
                    Some(i + 5)
                }
            },
        }
    } else {
        None
    }
}

/// Executable mirror of [`sp_str_body`].
fn parse_string_body(s: &[u8], i: usize) -> (r: Option<(Vec<u8>, usize)>)
    requires
        i <= s@.len(),
    ensures
        bytes_step_ok(r, sp_str_body(s@, i as int)),
        match r {
            Some(p) => i < p.1 && p.1 <= s@.len(),
            None => true,
        },
{
    let mut acc: Vec<u8> = Vec::new();
    let mut cur = i;
    loop
        invariant
            i <= cur <= s@.len(),
            opt_join(acc@, sp_str_body(s@, cur as int)) == sp_str_body(s@, i as int),
        decreases s@.len() - cur,
    {
        if cur >= s.len() {
            return None;
        }
        let b = s[cur];
        if b == 0x22 {
            proof {
                assert(acc@ + Seq::<u8>::empty() =~= acc@);
            }
            return Some((acc, cur + 1));
        } else if b == 0x5c {
            let ghost acc0 = acc@;
            match parse_escape(s, cur + 1, &mut acc) {
                None => {
                    return None;
                },
                Some(j) => {
                    proof {
                        match sp_escape(s@, cur as int + 1) {
                            Some((piece, je)) => {
                                match sp_str_body(s@, j as int) {
                                    Some((rest, e)) => {
                                        assert((acc0 + piece) + rest =~= acc0 + (piece + rest));
                                    },
                                    None => {},
                                }
                            },
                            None => {
                                assert(false);
                            },
                        }
                    }
                    cur = j;
                },
            }
        } else if b < 0x20 {
            return None;
        } else {
            let ghost acc0 = acc@;
            push_byte(&mut acc, b);
            proof {
                match sp_str_body(s@, cur as int + 1) {
                    Some((rest, e)) => {
                        assert((acc0 + seq![b]) + rest =~= acc0 + (seq![b] + rest));
                    },
                    None => {},
                }
            }
            cur = cur + 1;
        }
    }
}

/// Executable mirror of [`digits_end`].
fn scan_digits(s: &[u8], i: usize) -> (r: usize)
    requires
        i <= s@.len(),
    ensures
        r as int == digits_end(s@, i as int),
        i <= r <= s@.len(),
{
    let mut j = i;
    while j < s.len() && 0x30 <= s[j] && s[j] <= 0x39
        invariant
            i <= j <= s@.len(),
            digits_end(s@, i as int) == digits_end(s@, j as int),
        decreases s@.len() - j,
    {
        j = j + 1;
    }
    j
}

/// Every position scanned by [`digits_end`] holds a digit.
proof fn lemma_digits_span(s: Seq<u8>, i: int)
    requires
        0 <= i <= s.len(),
    ensures
        i <= digits_end(s, i) <= s.len(),
        forall|k: int| i <= k < digits_end(s, i) ==> 0x30 <= #[trigger] s[k] <= 0x39,
    decreases s.len() - i,
{
    if 0 <= i < s.len() && 0x30 <= s[i] <= 0x39 {
        lemma_digits_span(s, i + 1);
    }
}

/// A digit run's value is never negative.
proof fn lemma_digits_val_nonneg(s: Seq<u8>, a: int, b: int)
    requires
        forall|k: int| a <= k < b ==> 0x30 <= #[trigger] s[k] <= 0x39,
    ensures
        digits_val(s, a, b) >= 0,
    decreases b - a,
{
    if b > a {
        lemma_digits_val_nonneg(s, a, b - 1);
        assert(digits_val(s, a, b - 1) * 10 >= 0) by (nonlinear_arith)
            requires
                digits_val(s, a, b - 1) >= 0,
        ;
    }
}

/// Executable mirror of [`digits_val`]: the run's value where it fits `u64`.
fn digits_value(s: &[u8], a: usize, b: usize) -> (r: Option<u64>)
    requires
        a <= b <= s@.len(),
        forall|k: int| a <= k < b ==> 0x30 <= #[trigger] s@[k] <= 0x39,
    ensures
        match r {
            Some(v) => v as int == digits_val(s@, a as int, b as int),
            None => digits_val(s@, a as int, b as int) > u64::MAX,
        },
{
    let mut j = a;
    let mut acc: u64 = 0;
    let mut over = false;
    while j < b
        invariant
            a <= j <= b <= s@.len(),
            forall|k: int| a <= k < b ==> 0x30 <= #[trigger] s@[k] <= 0x39,
            !over ==> acc as int == digits_val(s@, a as int, j as int),
            over ==> digits_val(s@, a as int, j as int) > u64::MAX,
        decreases b - j,
    {
        let d = s[j] - 0x30;
        proof {
            assert(digits_val(s@, a as int, j as int + 1) == digits_val(s@, a as int, j as int)
                * 10 + (s@[j as int] - 0x30));
        }
        if !over {
            let with_digit = match acc.checked_mul(10) {
                Some(m) => m.checked_add(d as u64),
                None => None,
            };
            match with_digit {
                Some(n) => {
                    acc = n;
                },
                None => {
                    proof {
                        assert(acc * 10 + d > u64::MAX);
                    }
                    over = true;
                },
            }
        } else {
            proof {
                lemma_digits_val_nonneg(s@, a as int, j as int);
                assert(digits_val(s@, a as int, j as int) * 10 >= digits_val(
                    s@,
                    a as int,
                    j as int,
                )) by (nonlinear_arith)
                    requires
                        digits_val(s@, a as int, j as int) >= 0,
                ;
            }
        }
        j = j + 1;
    }
    if over {
        None
    } else {
        Some(acc)
    }
}

/// Executable mirror of [`sp_number`].
fn parse_number(s: &[u8], i: usize) -> (r: Option<(Option<i64>, usize)>)
    requires
        i <= s@.len(),
    ensures
        num_step_ok(r, sp_number(s@, i as int)),
        match r {
            Some(p) => i < p.1 && p.1 <= s@.len(),
            None => true,
        },
{
    if i >= s.len() {
        return None;
    }
    let neg = s[i] == 0x2d;
    let i1 = if neg {
        i + 1
    } else {
        i
    };
    let i2 = scan_digits(s, i1);
    if i2 == i1 {
        return None;
    }
    if s[i1] == 0x30 && i2 != i1 + 1 {
        return None;
    }
    let mut end = i2;
    let mut int_only = true;
    if i2 < s.len() && s[i2] == 0x2e {
        let f = scan_digits(s, i2 + 1);
        if f == i2 + 1 {
            return None;
        }
        end = f;
        int_only = false;
    }
    if end < s.len() && (s[end] == 0x65 || s[end] == 0x45) {
        let estart = if end + 1 < s.len() && (s[end + 1] == 0x2b || s[end + 1] == 0x2d) {
            end + 2
        } else {
            end + 1
        };
        let e = scan_digits(s, estart);
        if e == estart {
            return None;
        }
        end = e;
        int_only = false;
    }
    let io: Option<i64> = if int_only {
        proof {
            lemma_digits_span(s@, i1 as int);
            lemma_digits_val_nonneg(s@, i1 as int, i2 as int);
        }
        match digits_value(s, i1, i2) {
            None => None,
            Some(mag) => {
                if !neg {
                    if mag <= i64::MAX as u64 {
                        Some(mag as i64)
                    } else {
                        None
                    }
                } else {
                    if mag <= i64::MAX as u64 {
                        Some(-(mag as i64))
                    } else if mag == i64::MAX as u64 + 1 {
                        Some(i64::MIN)
                    } else {
                        None
                    }
                }
            },
        }
    } else {
        None
    };
    Some((io, end))
}


/// Executable mirror of [`sp_value`].
fn parse_value(s: &[u8], i: usize, d: u32) -> (r: Option<(JsonValue, usize)>)
    requires
        i <= s@.len(),
    ensures
        value_step_ok(r, sp_value(s@, i as int, d as nat)),
        match r {
            Some(p) => i < p.1 && p.1 <= s@.len(),
            None => true,
        },
    decreases d, 0int,
{
    if i >= s.len() {
        return None;
    }
    let b = s[i];
    if b == 0x22 {
        match parse_string_body(s, i + 1) {
            None => None,
            Some((content, j)) => Some((JsonValue::Str(content), j)),
        }
    } else if b == 0x7b {
        if d == 0 {
            return None;
        }
        let j = skip_ws(s, i + 1);
        if j < s.len() && s[j] == 0x7d {
            let no_members: Vec<(Vec<u8>, JsonValue)> = Vec::new();
            proof {
                assert(members_view(no_members@) =~= Seq::<(Seq<u8>, JsonV)>::empty());
            }
            Some((JsonValue::Obj(no_members), j + 1))
        } else {
            match parse_members(s, j, d - 1) {
                None => None,
                Some((ms, e)) => Some((JsonValue::Obj(ms), e)),
            }
        }
    } else if b == 0x5b {
        if d == 0 {
            return None;
        }
        let j = skip_ws(s, i + 1);
        if j < s.len() && s[j] == 0x5d {
            let no_elems: Vec<JsonValue> = Vec::new();
            proof {
                assert(elems_view(no_elems@) =~= Seq::<JsonV>::empty());
            }
            Some((JsonValue::Arr(no_elems), j + 1))
        } else {
            match parse_elems(s, j, d - 1) {
                None => None,
                Some((es, e)) => Some((JsonValue::Arr(es), e)),
            }
        }
    } else if b == 0x74 {
        if s.len() - i >= 4 && s[i + 1] == 0x72 && s[i + 2] == 0x75 && s[i + 3] == 0x65 {
            Some((JsonValue::Bool(true), i + 4))
        } else {
            None
        }
    } else if b == 0x66 {
        if s.len() - i >= 5 && s[i + 1] == 0x61 && s[i + 2] == 0x6c && s[i + 3] == 0x73 && s[i + 4]
            == 0x65 {
            Some((JsonValue::Bool(false), i + 5))
        } else {
            None
        }
    } else if b == 0x6e {
        if s.len() - i >= 4 && s[i + 1] == 0x75 && s[i + 2] == 0x6c && s[i + 3] == 0x6c {
            Some((JsonValue::Null, i + 4))
        } else {
            None
        }
    } else if b == 0x2d || (0x30 <= b && b <= 0x39) {
        match parse_number(s, i) {
            None => None,
            Some((io, e)) => match io {
                Some(n) => Some((JsonValue::Int(n), e)),
                None => Some((JsonValue::BigNum, e)),
            },
        }
    } else {
        None
    }
}

/// Executable mirror of [`sp_elems`].
fn parse_elems(s: &[u8], i: usize, d: u32) -> (r: Option<(Vec<JsonValue>, usize)>)
    requires
        i <= s@.len(),
    ensures
        elems_step_ok(r, sp_elems(s@, i as int, d as nat)),
        match r {
            Some(p) => i < p.1 && p.1 <= s@.len(),
            None => true,
        },
    decreases d, 1int,
{
    let mut acc: Vec<JsonValue> = Vec::new();
    let mut cur = i;
    proof {
        assert(elems_view(acc@) =~= Seq::<JsonV>::empty());
        assert(opt_join(elems_view(acc@), sp_elems(s@, i as int, d as nat)) == sp_elems(
            s@,
            i as int,
            d as nat,
        ));
    }
    loop
        invariant
            i <= cur <= s@.len(),
            opt_join(elems_view(acc@), sp_elems(s@, cur as int, d as nat)) == sp_elems(
                s@,
                i as int,
                d as nat,
            ),
        decreases s@.len() - cur,
    {
        let vr = parse_value(s, cur, d);
        let (val, j) = match vr {
            None => {
                return None;
            },
            Some(p) => p,
        };
        let k = skip_ws(s, j);
        let ghost acc0 = acc@;
        let ghost vv = val@;
        if k < s.len() && s[k] == 0x2c {
            let m = skip_ws(s, k + 1);
            acc.push(val);
            proof {
                assert(acc@.drop_last() =~= acc0);
                assert(elems_view(acc@) =~= elems_view(acc0) + seq![vv]);
                match sp_elems(s@, m as int, d as nat) {
                    Some((rest, e)) => {
                        assert((elems_view(acc0) + seq![vv]) + rest =~= elems_view(acc0) + (
                        seq![vv] + rest));
                    },
                    None => {},
                }
            }
            cur = m;
        } else if k < s.len() && s[k] == 0x5d {
            acc.push(val);
            proof {
                assert(acc@.drop_last() =~= acc0);
                assert(elems_view(acc@) =~= elems_view(acc0) + seq![vv]);
            }
            return Some((acc, k + 1));
        } else {
            return None;
        }
    }
}

/// Executable mirror of [`sp_members`].
fn parse_members(s: &[u8], i: usize, d: u32) -> (r: Option<(Vec<(Vec<u8>, JsonValue)>, usize)>)
    requires
        i <= s@.len(),
    ensures
        members_step_ok(r, sp_members(s@, i as int, d as nat)),
        match r {
            Some(p) => i < p.1 && p.1 <= s@.len(),
            None => true,
        },
    decreases d, 1int,
{
    let mut acc: Vec<(Vec<u8>, JsonValue)> = Vec::new();
    let mut cur = i;
    proof {
        assert(members_view(acc@) =~= Seq::<(Seq<u8>, JsonV)>::empty());
        assert(opt_join(members_view(acc@), sp_members(s@, i as int, d as nat)) == sp_members(
            s@,
            i as int,
            d as nat,
        ));
    }
    loop
        invariant
            i <= cur <= s@.len(),
            opt_join(members_view(acc@), sp_members(s@, cur as int, d as nat)) == sp_members(
                s@,
                i as int,
                d as nat,
            ),
        decreases s@.len() - cur,
    {
        if !(cur < s.len() && s[cur] == 0x22) {
            return None;
        }
        let (key, j) = match parse_string_body(s, cur + 1) {
            None => {
                return None;
            },
            Some(p) => p,
        };
        let k = skip_ws(s, j);
        if !(k < s.len() && s[k] == 0x3a) {
            return None;
        }
        let m = skip_ws(s, k + 1);
        let (val, j2) = match parse_value(s, m, d) {
            None => {
                return None;
            },
            Some(p) => p,
        };
        let k2 = skip_ws(s, j2);
        let ghost acc0 = acc@;
        let ghost kv = (key@, val@);
        if k2 < s.len() && s[k2] == 0x2c {
            let m2 = skip_ws(s, k2 + 1);
            acc.push((key, val));
            proof {
                assert(acc@.drop_last() =~= acc0);
                assert(members_view(acc@) =~= members_view(acc0) + seq![kv]);
                match sp_members(s@, m2 as int, d as nat) {
                    Some((rest, e)) => {
                        assert((members_view(acc0) + seq![kv]) + rest =~= members_view(acc0) + (
                        seq![kv] + rest));
                    },
                    None => {},
                }
            }
            cur = m2;
        } else if k2 < s.len() && s[k2] == 0x7d {
            acc.push((key, val));
            proof {
                assert(acc@.drop_last() =~= acc0);
                assert(members_view(acc@) =~= members_view(acc0) + seq![kv]);
            }
            return Some((acc, k2 + 1));
        } else {
            return None;
        }
    }
}

/// Parses one line as a JSON document: exactly the lines on which
/// [`sp_parse`] yields a value, and that value.
pub fn parse_json(s: &[u8]) -> (r: Option<JsonValue>)
    ensures
        match (r, sp_parse(s@)) {
            (Some(v), Some(g)) => v@ == g,
            (None, None) => true,
            _ => false,
        },
{
    let i = skip_ws(s, 0);
    match parse_value(s, i, JSON_MAX_DEPTH) {
        None => None,
        Some((v, j)) => {
            let e = skip_ws(s, j);
            if e == s.len() {
                Some(v)
            } else {
                None
            }
        },
    }
}


// ---------------------------------------------------------------------------
// String escaping, for the encoder.
// ---------------------------------------------------------------------------

/// The lowercase hexadecimal digit for `n` (meaningful below 16).
pub open spec fn hex_char(n: u8) -> u8 {
    if n < 10 {
        (0x30 + n) as u8
    } else {
        (0x61 + n - 10) as u8
    }
}

/// How one content byte is written inside a JSON string: quote and backslash
/// get a backslash, control characters the `\u00XX` form, the rest stand as
/// they are.
pub open spec fn esc_byte(b: u8) -> Seq<u8> {
    if b == 0x22 {
        seq![0x5cu8, 0x22]
    } else if b == 0x5c {
        seq![0x5cu8, 0x5c]
    } else if b < 0x20 {
        seq![0x5cu8, 0x75, 0x30, 0x30, hex_char(b / 16), hex_char(b % 16)]
    } else {
        seq![b]
    }
}

/// The escaped form of a whole string's content.
pub open spec fn esc_all(s: Seq<u8>) -> Seq<u8>
    decreases s.len(),
{
    if s.len() == 0 {
        Seq::empty()
    } else {
        esc_all(s.drop_last()) + esc_byte(s.last())
    }
}

/// Appends `s` in escaped form; executable mirror of [`esc_all`].
pub(crate) fn append_escaped(out: &mut Vec<u8>, s: &[u8])
    ensures
        final(out)@ == old(out)@ + esc_all(s@),
{
    let ghost o0 = out@;
    let n = s.len();
    let mut i: usize = 0;
    proof {
        assert(esc_all(s@.take(0)) =~= Seq::<u8>::empty());
        assert(out@ =~= o0 + esc_all(s@.take(0)));
    }
    while i < n
        invariant
            n == s@.len(),
            i <= n,
            out@ == o0 + esc_all(s@.take(i as int)),
        decreases n - i,
    {
        let b = s[i];
        proof {
            assert(s@.take(i as int + 1).drop_last() =~= s@.take(i as int));
            assert(s@.take(i as int + 1).last() == s@[i as int]);
            assert(esc_all(s@.take(i as int + 1)) == esc_all(s@.take(i as int)) + esc_byte(b));
        }
        let ghost before = out@;
        if b == 0x22 {
            out.push(0x5c);
            out.push(0x22);
        } else if b == 0x5c {
            out.push(0x5c);
            out.push(0x5c);
        } else if b < 0x20 {
            out.push(0x5c);
            out.push(0x75);
            out.push(0x30);
            out.push(0x30);
            out.push(if b / 16 < 10 {
                0x30 + b / 16
            } else {
                0x61 + b / 16 - 10
            });
            out.push(if b % 16 < 10 {
                0x30 + b % 16
            } else {
                0x61 + b % 16 - 10
            });
        } else {
            out.push(b);
        }
        proof {
            assert(out@ =~= before + esc_byte(b));
            assert(out@ =~= o0 + esc_all(s@.take(i as int + 1)));
        }
        i = i + 1;
    }
    proof {
        assert(s@.take(n as int) =~= s@);
    }
}

/// Appends a copy of `piece`.
pub(crate) fn append_bytes(out: &mut Vec<u8>, piece: &[u8])
    ensures
        final(out)@ == old(out)@ + piece@,
{
    let ghost o0 = out@;
    let n = piece.len();
    let mut i: usize = 0;
    while i < n
        invariant
            n == piece@.len(),
            i <= n,
            out@ == o0 + piece@.take(i as int),
        decreases n - i,
    {
        out.push(piece[i]);
        proof {
            assert((o0 + piece@.take(i as int)).push(piece@[i as int]) =~= o0 + piece@.take(
                i as int + 1,
            ));
        }
        i = i + 1;
    }
    proof {
        assert(piece@.take(n as int) =~= piece@);
    }
}


/// [`esc_all`] decomposes at the front as well as at the back.
proof fn lemma_esc_all_front(s: Seq<u8>)
    requires
        s.len() > 0,
    ensures
        esc_all(s) == esc_byte(s[0]) + esc_all(s.drop_first()),
    decreases s.len(),
{
    if s.len() == 1 {
        assert(s.drop_last() =~= Seq::<u8>::empty());
        assert(s.drop_first() =~= Seq::<u8>::empty());
        assert(esc_all(s) =~= esc_byte(s[0]) + esc_all(s.drop_first()));
    } else {
        let d = s.drop_last();
        lemma_esc_all_front(d);
        assert(d[0] == s[0]);
        assert(d.drop_first() =~= s.drop_first().drop_last());
        assert(s.drop_first().last() == s.last());
        assert(esc_all(s) == (esc_byte(s[0]) + esc_all(d.drop_first())) + esc_byte(s.last()));
        assert(esc_all(s.drop_first()) == esc_all(s.drop_first().drop_last()) + esc_byte(
            s.drop_first().last(),
        ));
        assert((esc_byte(s[0]) + esc_all(d.drop_first())) + esc_byte(s.last()) =~= esc_byte(s[0])
            + (esc_all(s.drop_first().drop_last()) + esc_byte(s.drop_first().last())));
    }
}

/// [`hex_char`] writes a digit that [`hex_val`] reads back.
proof fn lemma_hex_char_val(n: u8)
    requires
        n < 16,
    ensures
        hex_val(hex_char(n)) == Some(n as int),
{
}

/// An escaped string body parses back to the string it was made from: if the
/// bytes of `t` from `i` hold `esc_all(s)`, then one closing quote, the
/// string body grammar returns exactly `s` and stops past that quote.
#[verifier::rlimit(100)]
#[verifier::spinoff_prover]
pub proof fn lemma_escaped_parses_back(t: Seq<u8>, i: int, s: Seq<u8>)
    requires
        0 <= i,
        i + esc_all(s).len() < t.len(),
        t.subrange(i, i + esc_all(s).len()) == esc_all(s),
        t[i + esc_all(s).len()] == 0x22u8,
    ensures
        sp_str_body(t, i) == Some((s, i + esc_all(s).len() + 1)),
    decreases s.len(),
{
    if s.len() == 0 {
        assert(esc_all(s).len() == 0);
        assert(t[i] == 0x22);
        assert(sp_str_body(t, i) == Some((Seq::<u8>::empty(), i + 1)));
        assert(Seq::<u8>::empty() =~= s);
    } else {
        lemma_esc_all_front(s);
        let b = s[0];
        let e0 = esc_byte(b);
        let tail = s.drop_first();
        let n0 = e0.len() as int;
        let ntail = esc_all(tail).len() as int;
        assert(esc_all(s).len() == n0 + ntail);
        // The bytes at i.. start with the first byte's escape.
        assert forall|k: int| 0 <= k < n0 implies t[i + k] == e0[k] by {
            assert(t.subrange(i, i + esc_all(s).len())[k] == t[i + k]);
            assert((esc_byte(s[0]) + esc_all(tail))[k] == e0[k]);
        }
        // The rest holds the tail's escape, ending before the same quote.
        assert(t.subrange(i + n0, i + n0 + ntail) =~= esc_all(tail)) by {
            assert forall|k: int| 0 <= k < ntail implies t.subrange(
                i + n0,
                i + n0 + ntail,
            )[k] == esc_all(tail)[k] by {
                assert(t.subrange(i, i + esc_all(s).len())[n0 + k] == t[i + n0 + k]);
                assert((esc_byte(s[0]) + esc_all(tail))[n0 + k] == esc_all(tail)[k]);
            }
        }
        assert(t[i + n0 + ntail] == 0x22);
        lemma_escaped_parses_back(t, i + n0, tail);
        if b == 0x22 || b == 0x5c {
            assert(e0 == seq![0x5cu8, b]);
            assert(t[i + 0] == e0[0] && t[i + 1] == e0[1]);
            assert(t[i] == 0x5c && t[i + 1] == b);
            assert(sp_escape(t, i + 1) == Some((seq![b], i + 2)));
            assert(sp_str_body(t, i) == opt_join(seq![b], sp_str_body(t, i + 2)));
            assert(seq![b] + tail =~= s);
        } else if b < 0x20 {
            assert(e0 == seq![0x5cu8, 0x75, 0x30, 0x30, hex_char(b / 16), hex_char(b % 16)]);
            assert(t[i + 0] == e0[0] && t[i + 1] == e0[1] && t[i + 2] == e0[2] && t[i + 3]
                == e0[3] && t[i + 4] == e0[4] && t[i + 5] == e0[5]);
            assert(t[i] == 0x5c && t[i + 1] == 0x75);
            assert(t[i + 2] == 0x30 && t[i + 3] == 0x30);
            assert(t[i + 4] == hex_char(b / 16) && t[i + 5] == hex_char(b % 16));
            lemma_hex_char_val(b / 16);
            lemma_hex_char_val(b % 16);
            assert(sp_hex4(t, i + 2) == Some((b / 16) * 0x10 + (b % 16) as int));
            assert((b / 16) * 0x10 + (b % 16) as int == b as int);
            assert(sp_escape(t, i + 1) == Some((utf8_bytes(b as int), i + 6)));
            assert(utf8_bytes(b as int) =~= seq![b]);
            assert(sp_str_body(t, i) == opt_join(seq![b], sp_str_body(t, i + 6)));
            assert(seq![b] + tail =~= s);
        } else {
            assert(e0 == seq![b]);
            assert(t[i + 0] == e0[0]);
            assert(t[i] == b);
            assert(b != 0x22 && b != 0x5c && b >= 0x20);
            assert(sp_str_body(t, i) == opt_join(seq![t[i]], sp_str_body(t, i + 1)));
            assert(seq![b] + tail =~= s);
        }
    }
}


/// Escaping leaves a string of plain bytes unchanged.
pub proof fn lemma_esc_all_plain(s: Seq<u8>)
    requires
        forall|k: int|
            0 <= k < s.len() ==> 0x20 <= #[trigger] s[k] && s[k] != 0x22 && s[k] != 0x5c,
    ensures
        esc_all(s) == s,
    decreases s.len(),
{
    if s.len() > 0 {
        lemma_esc_all_plain(s.drop_last());
        assert(esc_byte(s.last()) == seq![s.last()]);
        assert(s.drop_last() + seq![s.last()] =~= s);
    }
}

} // verus!
