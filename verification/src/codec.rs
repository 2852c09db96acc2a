//! The configuration snapshot's text codec.
//!
//! A snapshot is persisted as a small structured text document, one field
//! per line, in a fixed canonical order. [`encode`] renders a snapshot;
//! [`decode`] parses a document and is the exact inverse on everything
//! `encode` produces. The file I/O around it lives outside the library.

use vstd::prelude::*;

use crate::config::{Color, Config, Resolution};
use crate::keys::{KeyFilter, Modifiers};

verus! {

/// ASCII decimal digit, as a character.
pub open spec fn is_digit_char(c: char) -> bool {
    0x30 <= c as int <= 0x39
}

/// Numeric value of a digit character.
pub open spec fn digit_val(c: char) -> int {
    c as int - 0x30
}

/// The digit character for a value below ten.
pub open spec fn digit_char(d: int) -> char {
    if d == 0 {
        '0'
    } else if d == 1 {
        '1'
    } else if d == 2 {
        '2'
    } else if d == 3 {
        '3'
    } else if d == 4 {
        '4'
    } else if d == 5 {
        '5'
    } else if d == 6 {
        '6'
    } else if d == 7 {
        '7'
    } else if d == 8 {
        '8'
    } else {
        '9'
    }
}

/// The number a digit-character sequence denotes, most significant first.
pub open spec fn spec_chars_value(s: Seq<char>) -> int
    decreases s.len(),
{
    if s.len() == 0 {
        0
    } else {
        spec_chars_value(s.drop_last()) * 10 + digit_val(s.last())
    }
}

/// Decimal rendering of a nonnegative number, no sign, no leading zeros
/// (except for zero itself).
pub open spec fn spec_dec_u(n: int) -> Seq<char>
    decreases n,
{
    if n < 10 {
        seq![digit_char(n)]
    } else {
        spec_dec_u(n / 10).push(digit_char(n % 10))
    }
}

/// Decimal rendering of a signed number.
pub open spec fn spec_enc_int(v: int) -> Seq<char> {
    if v < 0 {
        seq!['-'] + spec_dec_u(-v)
    } else {
        spec_dec_u(v)
    }
}

/// A nonnegative number's rendering consists of digits and denotes the
/// number itself.
pub proof fn lemma_dec_u(n: int)
    requires
        0 <= n,
    ensures
        spec_dec_u(n).len() >= 1,
        forall|i: int| 0 <= i < spec_dec_u(n).len() ==> is_digit_char(#[trigger] spec_dec_u(n)[i]),
        spec_chars_value(spec_dec_u(n)) == n,
    decreases n,
{
    if n < 10 {
        let s = seq![digit_char(n)];
        assert(s.drop_last() =~= Seq::<char>::empty());
        assert(spec_chars_value(Seq::<char>::empty()) == 0);
        assert(spec_chars_value(s) == digit_val(digit_char(n)));
    } else {
        lemma_dec_u(n / 10);
        vstd::arithmetic::div_mod::lemma_fundamental_div_mod(n, 10);
        let t = spec_dec_u(n / 10);
        let s = t.push(digit_char(n % 10));
        assert(s.drop_last() =~= t);
        assert(s.last() == digit_char(n % 10));
        assert(spec_chars_value(s) == spec_chars_value(t) * 10 + digit_val(digit_char(n % 10)));
    }
}

/// Render one digit.
fn digit_str(d: u32) -> (r: &'static str)
    requires
        d < 10,
    ensures
        r@ =~= seq![digit_char(d as int)],
{
    proof {
        reveal_strlit("0");
        reveal_strlit("1");
        reveal_strlit("2");
        reveal_strlit("3");
        reveal_strlit("4");
        reveal_strlit("5");
        reveal_strlit("6");
        reveal_strlit("7");
        reveal_strlit("8");
        reveal_strlit("9");
    }
    match d {
        0 => "0",
        1 => "1",
        2 => "2",
        3 => "3",
        4 => "4",
        5 => "5",
        6 => "6",
        7 => "7",
        8 => "8",
        _ => "9",
    }
}

/// Append a nonnegative number's decimal rendering.
fn append_uint(out: &mut String, n: u32)
    ensures
        final(out)@ == old(out)@ + spec_dec_u(n as int),
    decreases n,
{
    if n < 10 {
        out.append(digit_str(n));
        assert(old(out)@ + spec_dec_u(n as int) =~= old(out)@ + seq![digit_char(n as int)]);
    } else {
        append_uint(out, n / 10);
        out.append(digit_str(n % 10));
        assert(old(out)@ + spec_dec_u(n as int) =~= (old(out)@ + spec_dec_u((n / 10) as int))
            + seq![digit_char((n % 10) as int)]);
    }
}

/// Append a signed number's decimal rendering.
fn append_int(out: &mut String, v: i32)
    ensures
        final(out)@ == old(out)@ + spec_enc_int(v as int),
{
    if v < 0 {
        proof {
            reveal_strlit("-");
        }
        out.append("-");
        let mag: u32 = (-(v as i64)) as u32;
        append_uint(out, mag);
        assert(old(out)@ + spec_enc_int(v as int) =~= (old(out)@ + "-"@) + spec_dec_u(mag as int));
    } else {
        append_uint(out, v as u32);
    }
}

/// Rendering of a boolean.
pub open spec fn spec_enc_bool(b: bool) -> Seq<char> {
    if b {
        "true"@
    } else {
        "false"@
    }
}

/// Append a boolean's rendering.
fn append_bool(out: &mut String, b: bool)
    ensures
        final(out)@ == old(out)@ + spec_enc_bool(b),
{
    if b {
        out.append("true");
    } else {
        out.append("false");
    }
}

/// Relies on alloc::string::String::push: appends the given character to
/// the end of the string.
pub assume_specification[ String::push ](s: &mut String, c: char)
    ensures
        final(s)@ == old(s)@.push(c),
;

/// Rendering of an optional modifier constraint.
pub open spec fn spec_enc_mods(m: Option<Modifiers>) -> Seq<char> {
    match m {
        None => "none"@,
        Some(m) => "{ shift = "@ + spec_enc_bool(m.shift) + ", ctrl = "@ + spec_enc_bool(m.ctrl)
            + ", alt = "@ + spec_enc_bool(m.alt) + " }"@,
    }
}

/// Rendering of an optional hotkey filter.
pub open spec fn spec_enc_filter(f: Option<KeyFilter>) -> Seq<char> {
    match f {
        None => "none"@,
        Some(kf) => "{ char = \""@ + seq![kf.char] + "\", modifiers = "@ + spec_enc_mods(
            kf.modifiers,
        ) + " }"@,
    }
}

/// Append an optional hotkey filter's rendering.
#[verifier::rlimit(50)]
fn append_filter(out: &mut String, f: &Option<KeyFilter>)
    ensures
        final(out)@ == old(out)@ + spec_enc_filter(*f),
{
    match f {
        None => {
            out.append("none");
        },
        Some(kf) => {
            out.append("{ char = \"");
            out.push(kf.char);
            out.append("\", modifiers = ");
            match kf.modifiers {
                None => {
                    out.append("none");
                },
                Some(m) => {
                    out.append("{ shift = ");
                    append_bool(out, m.shift);
                    out.append(", ctrl = ");
                    append_bool(out, m.ctrl);
                    out.append(", alt = ");
                    append_bool(out, m.alt);
                    out.append(" }");
                },
            }
            out.append(" }");
            assert(final(out)@ =~= old(out)@ + spec_enc_filter(*f));
        },
    }
}

/// Rendering of a resolution, as an inline table.
pub open spec fn spec_enc_res(r: Resolution) -> Seq<char> {
    "{ width = "@ + spec_enc_int(r.width as int) + ", height = "@ + spec_enc_int(r.height as int)
        + " }"@
}

/// Append a resolution's rendering.
fn append_res(out: &mut String, r: &Resolution)
    ensures
        final(out)@ == old(out)@ + spec_enc_res(*r),
{
    out.append("{ width = ");
    append_int(out, r.width);
    out.append(", height = ");
    append_int(out, r.height);
    out.append(" }");
    assert(final(out)@ =~= old(out)@ + spec_enc_res(*r));
}

/// Rendering of one accent color, as an RGB array.
pub open spec fn spec_enc_color(c: Color) -> Seq<char> {
    "["@ + spec_dec_u(c.0 as int) + ", "@ + spec_dec_u(c.1 as int) + ", "@ + spec_dec_u(c.2 as int)
        + "]"@
}

/// Append one accent color's rendering.
fn append_color(out: &mut String, c: &Color)
    ensures
        final(out)@ == old(out)@ + spec_enc_color(*c),
{
    out.append("[");
    append_uint(out, c.0 as u32);
    out.append(", ");
    append_uint(out, c.1 as u32);
    out.append(", ");
    append_uint(out, c.2 as u32);
    out.append("]");
    assert(final(out)@ =~= old(out)@ + spec_enc_color(*c));
}

/// Rendering of the geometry half of the document.
pub open spec fn spec_enc_head(c: Config) -> Seq<char> {
    "thin = "@ + spec_enc_res(c.thin) + "\ntall = "@ + spec_enc_res(c.tall) + "\nwide = "@
        + spec_enc_res(c.wide) + "\nruler = "@ + spec_enc_int(c.ruler as int)
}

/// Rendering of the three hotkey lines.
pub open spec fn spec_enc_bindings(c: Config) -> Seq<char> {
    "\nthin_key = "@ + spec_enc_filter(c.thin_key) + "\ntall_key = "@ + spec_enc_filter(
        c.tall_key,
    ) + "\nwide_key = "@ + spec_enc_filter(c.wide_key)
}

/// Rendering of the accent-color line.
pub open spec fn spec_enc_palette(c: Config) -> Seq<char> {
    "\ncolors = ["@ + spec_enc_color(c.colors[0]) + ", "@ + spec_enc_color(c.colors[1]) + "]\n"@
}

/// The canonical rendering of a whole snapshot: one field per line, fixed
/// order.
pub open spec fn spec_encode(c: Config) -> Seq<char> {
    spec_enc_head(c) + spec_enc_bindings(c) + spec_enc_palette(c)
}

/// Render a snapshot as its canonical text document.
pub fn encode(c: &Config) -> (r: String)
    ensures
        r@ == spec_encode(*c),
{
    let mut out = String::new();
    out.append("thin = ");
    append_res(&mut out, &c.thin);
    out.append("\ntall = ");
    append_res(&mut out, &c.tall);
    out.append("\nwide = ");
    append_res(&mut out, &c.wide);
    out.append("\nruler = ");
    append_int(&mut out, c.ruler);
    out.append("\nthin_key = ");
    append_filter(&mut out, &c.thin_key);
    out.append("\ntall_key = ");
    append_filter(&mut out, &c.tall_key);
    out.append("\nwide_key = ");
    append_filter(&mut out, &c.wide_key);
    out.append("\ncolors = [");
    append_color(&mut out, &c.colors[0]);
    out.append(", ");
    append_color(&mut out, &c.colors[1]);
    out.append("]\n");
    assert(out@ =~= spec_encode(*c));
    out
}

/// Match a literal at a position: the index just past it, if it is there.
pub open spec fn sp_lit(s: Seq<char>, i: int, lit: Seq<char>) -> Option<int> {
    if 0 <= i && i + lit.len() <= s.len() && s.subrange(i, i + lit.len()) == lit {
        Some(i + lit.len())
    } else {
        None
    }
}

/// End of the digit run starting at `i`.
pub open spec fn digit_run_end(s: Seq<char>, i: int) -> int
    decreases s.len() - i,
    when 0 <= i <= s.len()
{
    if i < s.len() && is_digit_char(s[i]) {
        digit_run_end(s, i + 1)
    } else {
        i
    }
}

/// Parse a signed decimal number: its value and the index just past it.
pub open spec fn sp_int(s: Seq<char>, i: int) -> Option<(int, int)> {
    if !(0 <= i <= s.len()) {
        None
    } else if i < s.len() && s[i] == '-' {
        let e = digit_run_end(s, i + 1);
        if e == i + 1 {
            None
        } else {
            Some((-spec_chars_value(s.subrange(i + 1, e)), e))
        }
    } else {
        let e = digit_run_end(s, i);
        if e == i {
            None
        } else {
            Some((spec_chars_value(s.subrange(i, e)), e))
        }
    }
}

/// Parse a signed decimal number that fits a signed machine integer.
pub open spec fn sp_i32(s: Seq<char>, i: int) -> Option<(i32, int)> {
    match sp_int(s, i) {
        Some((v, e)) => if i32::MIN <= v <= i32::MAX {
            Some((v as i32, e))
        } else {
            None
        },
        None => None,
    }
}

/// Parse a color channel: a decimal number that fits a byte.
pub open spec fn sp_u8(s: Seq<char>, i: int) -> Option<(u8, int)> {
    match sp_int(s, i) {
        Some((v, e)) => if 0 <= v <= 255 {
            Some((v as u8, e))
        } else {
            None
        },
        None => None,
    }
}

/// Parse a boolean.
pub open spec fn sp_bool(s: Seq<char>, i: int) -> Option<(bool, int)> {
    match sp_lit(s, i, "true"@) {
        Some(e) => Some((true, e)),
        None => match sp_lit(s, i, "false"@) {
            Some(e) => Some((false, e)),
            None => None,
        },
    }
}

/// Parse a hotkey character: a lowercase letter.
pub open spec fn sp_char_az(s: Seq<char>, i: int) -> Option<(char, int)> {
    if 0 <= i < s.len() && 0x61 <= s[i] as int <= 0x7A {
        Some((s[i], i + 1))
    } else {
        None
    }
}

/// Parse an optional modifier constraint.
pub open spec fn sp_mods(s: Seq<char>, i: int) -> Option<(Option<Modifiers>, int)> {
    match sp_lit(s, i, "none"@) {
        Some(e) => Some((None, e)),
        None => match sp_lit(s, i, "{ shift = "@) {
            Some(j1) => match sp_bool(s, j1) {
                Some((shift, j2)) => match sp_lit(s, j2, ", ctrl = "@) {
                    Some(j3) => match sp_bool(s, j3) {
                        Some((ctrl, j4)) => match sp_lit(s, j4, ", alt = "@) {
                            Some(j5) => match sp_bool(s, j5) {
                                Some((alt, j6)) => match sp_lit(s, j6, " }"@) {
                                    Some(j7) => Some(
                                        (Some(Modifiers { shift, ctrl, alt }), j7),
                                    ),
                                    None => None,
                                },
                                None => None,
                            },
                            None => None,
                        },
                        None => None,
                    },
                    None => None,
                },
                None => None,
            },
            None => None,
        },
    }
}

/// Parse an optional hotkey filter.
pub open spec fn sp_filter(s: Seq<char>, i: int) -> Option<(Option<KeyFilter>, int)> {
    match sp_lit(s, i, "none"@) {
        Some(e) => Some((None, e)),
        None => match sp_lit(s, i, "{ char = \""@) {
            Some(j1) => match sp_char_az(s, j1) {
                Some((c, j2)) => match sp_lit(s, j2, "\", modifiers = "@) {
                    Some(j3) => match sp_mods(s, j3) {
                        Some((m, j4)) => match sp_lit(s, j4, " }"@) {
                            Some(j5) => Some((Some(KeyFilter { char: c, modifiers: m }), j5)),
                            None => None,
                        },
                        None => None,
                    },
                    None => None,
                },
                None => None,
            },
            None => None,
        },
    }
}

/// Parse a resolution inline table.
pub open spec fn sp_res(s: Seq<char>, i: int) -> Option<(Resolution, int)> {
    match sp_lit(s, i, "{ width = "@) {
        Some(j1) => match sp_i32(s, j1) {
            Some((w, j2)) => match sp_lit(s, j2, ", height = "@) {
                Some(j3) => match sp_i32(s, j3) {
                    Some((h, j4)) => match sp_lit(s, j4, " }"@) {
                        Some(j5) => Some((Resolution { width: w, height: h }, j5)),
                        None => None,
                    },
                    None => None,
                },
                None => None,
            },
            None => None,
        },
        None => None,
    }
}

/// Parse one accent color array.
pub open spec fn sp_color(s: Seq<char>, i: int) -> Option<(Color, int)> {
    match sp_lit(s, i, "["@) {
        Some(j1) => match sp_u8(s, j1) {
            Some((r, j2)) => match sp_lit(s, j2, ", "@) {
                Some(j3) => match sp_u8(s, j3) {
                    Some((g, j4)) => match sp_lit(s, j4, ", "@) {
                        Some(j5) => match sp_u8(s, j5) {
                            Some((b, j6)) => match sp_lit(s, j6, "]"@) {
                                Some(j7) => Some((Color(r, g, b), j7)),
                                None => None,
                            },
                            None => None,
                        },
                        None => None,
                    },
                    None => None,
                },
                None => None,
            },
            None => None,
        },
        None => None,
    }
}

/// Parse the geometry half of the document: the three resolution lines and
/// the ruler line.
pub open spec fn sp_head(s: Seq<char>) -> Option<((Resolution, Resolution, Resolution, i32), int)> {
    match sp_lit(s, 0, "thin = "@) {
        Some(i1) => match sp_res(s, i1) {
            Some((thin, i2)) => match sp_lit(s, i2, "\ntall = "@) {
                Some(i3) => match sp_res(s, i3) {
                    Some((tall, i4)) => match sp_lit(s, i4, "\nwide = "@) {
                        Some(i5) => match sp_res(s, i5) {
                            Some((wide, i6)) => match sp_lit(s, i6, "\nruler = "@) {
                                Some(i7) => match sp_i32(s, i7) {
                                    Some((ruler, i8)) => Some(((thin, tall, wide, ruler), i8)),
                                    None => None,
                                },
                                None => None,
                            },
                            None => None,
                        },
                        None => None,
                    },
                    None => None,
                },
                None => None,
            },
            None => None,
        },
        None => None,
    }
}

/// Parse the three hotkey lines.
pub open spec fn sp_bindings(s: Seq<char>, i: int) -> Option<
    ((Option<KeyFilter>, Option<KeyFilter>, Option<KeyFilter>), int),
> {
    match sp_lit(s, i, "\nthin_key = "@) {
        Some(i1) => match sp_filter(s, i1) {
            Some((thin_key, i2)) => match sp_lit(s, i2, "\ntall_key = "@) {
                Some(i3) => match sp_filter(s, i3) {
                    Some((tall_key, i4)) => match sp_lit(s, i4, "\nwide_key = "@) {
                        Some(i5) => match sp_filter(s, i5) {
                            Some((wide_key, i6)) => Some(((thin_key, tall_key, wide_key), i6)),
                            None => None,
                        },
                        None => None,
                    },
                    None => None,
                },
                None => None,
            },
            None => None,
        },
        None => None,
    }
}

/// Parse the accent-color line.
pub open spec fn sp_palette(s: Seq<char>, i: int) -> Option<((Color, Color), int)> {
    match sp_lit(s, i, "\ncolors = ["@) {
        Some(i1) => match sp_color(s, i1) {
            Some((c0, i2)) => match sp_lit(s, i2, ", "@) {
                Some(i3) => match sp_color(s, i3) {
                    Some((c1, i4)) => match sp_lit(s, i4, "]\n"@) {
                        Some(i5) => Some(((c0, c1), i5)),
                        None => None,
                    },
                    None => None,
                },
                None => None,
            },
            None => None,
        },
        None => None,
    }
}

/// Parse a whole document: every line in canonical order.
pub open spec fn sp_config(s: Seq<char>) -> Option<(Config, int)> {
    match sp_head(s) {
        Some(((thin, tall, wide, ruler), i1)) => match sp_bindings(s, i1) {
            Some(((thin_key, tall_key, wide_key), i2)) => match sp_palette(s, i2) {
                Some(((c0, c1), i3)) => Some(
                    (
                        Config {
                            thin,
                            tall,
                            wide,
                            ruler,
                            thin_key,
                            tall_key,
                            wide_key,
                            colors: [c0, c1],
                        },
                        i3,
                    ),
                ),
                None => None,
            },
            None => None,
        },
        None => None,
    }
}

/// How a document decodes: the canonical line sequence, consumed in full.
pub open spec fn spec_decode(s: Seq<char>) -> Option<Config> {
    match sp_config(s) {
        Some((c, e)) => if e == s.len() {
            Some(c)
        } else {
            None
        },
        None => None,
    }
}

/// A subrange equal to a concatenation splits into subranges equal to the
/// parts.
pub proof fn lemma_split_at(s: Seq<char>, i: int, a: Seq<char>, b: Seq<char>)
    requires
        0 <= i,
        i + a.len() + b.len() <= s.len(),
        s.subrange(i, i + a.len() + b.len()) == a + b,
    ensures
        s.subrange(i, i + a.len()) == a,
        s.subrange(i + a.len(), i + a.len() + b.len()) == b,
{
    assert forall|t: int| 0 <= t < a.len() implies s.subrange(i, i + a.len())[t] == a[t] by {
        assert(s.subrange(i, i + a.len() + b.len())[t] == (a + b)[t]);
    }
    assert(s.subrange(i, i + a.len()) =~= a);
    assert forall|t: int| 0 <= t < b.len() implies s.subrange(
        i + a.len(),
        i + a.len() + b.len(),
    )[t] == b[t] by {
        assert(s.subrange(i, i + a.len() + b.len())[a.len() + t] == (a + b)[a.len() + t]);
        assert(s.subrange(i + a.len(), i + a.len() + b.len())[t] == s[i + a.len() + t]);
        assert(s.subrange(i, i + a.len() + b.len())[a.len() + t] == s[i + a.len() + t]);
    }
    assert(s.subrange(i + a.len(), i + a.len() + b.len()) =~= b);
}

/// A number's rendering at a position parses back to the number, provided
/// the character that follows it is not a digit.
proof fn lemma_sp_int_at(s: Seq<char>, i: int, v: int)
    requires
        0 <= i,
        i + spec_enc_int(v).len() <= s.len(),
        s.subrange(i, i + spec_enc_int(v).len()) == spec_enc_int(v),
        i + spec_enc_int(v).len() == s.len() || !is_digit_char(s[i + spec_enc_int(v).len()]),
    ensures
        sp_int(s, i) == Some((v, i + spec_enc_int(v).len())),
{
    let l = spec_enc_int(v).len() as int;
    if v >= 0 {
        lemma_dec_u(v);
        assert forall|u: int| i <= u < i + l implies is_digit_char(#[trigger] s[u]) by {
            assert(s.subrange(i, i + l)[u - i] == spec_dec_u(v)[u - i]);
        }
        assert(is_digit_char(s[i]));
        assert(s[i] != '-');
        lemma_digit_run_end_is(s, i, i + l);
        assert(spec_chars_value(s.subrange(i, i + l)) == v);
    } else {
        lemma_dec_u(-v);
        let d = spec_dec_u(-v);
        lemma_split_at(s, i, seq!['-'], d);
        assert(s.subrange(i, i + 1)[0] == seq!['-'][0]);
        assert(s[i] == '-');
        assert forall|u: int| i + 1 <= u < i + l implies is_digit_char(#[trigger] s[u]) by {
            assert(s.subrange(i + 1, i + l)[u - (i + 1)] == d[u - (i + 1)]);
        }
        lemma_digit_run_end_is(s, i + 1, i + l);
        assert(spec_chars_value(s.subrange(i + 1, i + l)) == -v);
    }
}

/// The machine-integer form of [`lemma_sp_int_at`].
proof fn lemma_sp_i32_at(s: Seq<char>, i: int, v: i32)
    requires
        0 <= i,
        i + spec_enc_int(v as int).len() <= s.len(),
        s.subrange(i, i + spec_enc_int(v as int).len()) == spec_enc_int(v as int),
        i + spec_enc_int(v as int).len() == s.len() || !is_digit_char(
            s[i + spec_enc_int(v as int).len()],
        ),
    ensures
        sp_i32(s, i) == Some((v, i + spec_enc_int(v as int).len())),
{
    lemma_sp_int_at(s, i, v as int);
}

/// The byte form of [`lemma_sp_int_at`].
proof fn lemma_sp_u8_at(s: Seq<char>, i: int, v: u8)
    requires
        0 <= i,
        i + spec_enc_int(v as int).len() <= s.len(),
        s.subrange(i, i + spec_enc_int(v as int).len()) == spec_enc_int(v as int),
        i + spec_enc_int(v as int).len() == s.len() || !is_digit_char(
            s[i + spec_enc_int(v as int).len()],
        ),
    ensures
        sp_u8(s, i) == Some((v, i + spec_enc_int(v as int).len())),
{
    lemma_sp_int_at(s, i, v as int);
}

/// A boolean's rendering at a position parses back to the boolean.
proof fn lemma_sp_bool_at(s: Seq<char>, i: int, b: bool)
    requires
        0 <= i,
        i + spec_enc_bool(b).len() <= s.len(),
        s.subrange(i, i + spec_enc_bool(b).len()) == spec_enc_bool(b),
    ensures
        sp_bool(s, i) == Some((b, i + spec_enc_bool(b).len())),
{
    reveal_strlit("true");
    reveal_strlit("false");
    if !b {
        if sp_lit(s, i, "true"@) is Some {
            assert(s.subrange(i, i + "true"@.len()) == "true"@);
            assert(s.subrange(i, i + "true"@.len())[0] == "true"@[0]);
            assert(s.subrange(i, i + "false"@.len())[0] == "false"@[0]);
            assert(false);
        }
    }
}

/// An optional modifier constraint's rendering at a position parses back to
/// it.
proof fn lemma_sp_mods_at(s: Seq<char>, i: int, m: Option<Modifiers>)
    requires
        0 <= i,
        i + spec_enc_mods(m).len() <= s.len(),
        s.subrange(i, i + spec_enc_mods(m).len()) == spec_enc_mods(m),
    ensures
        sp_mods(s, i) == Some((m, i + spec_enc_mods(m).len())),
{
    reveal_strlit("none");
    reveal_strlit("{ shift = ");
    match m {
        None => {},
        Some(mm) => {
            let p1 = "{ shift = "@;
            let b1 = spec_enc_bool(mm.shift);
            let p2 = ", ctrl = "@;
            let b2 = spec_enc_bool(mm.ctrl);
            let p3 = ", alt = "@;
            let b3 = spec_enc_bool(mm.alt);
            let p4 = " }"@;
            let x5 = p1 + b1 + p2 + b2 + p3;
            let x6 = x5 + b3;
            lemma_split_at(s, i, x6, p4);
            lemma_split_at(s, i, x5, b3);
            lemma_split_at(s, i, p1 + b1 + p2 + b2, p3);
            lemma_split_at(s, i, p1 + b1 + p2, b2);
            lemma_split_at(s, i, p1 + b1, p2);
            lemma_split_at(s, i, p1, b1);
            if sp_lit(s, i, "none"@) is Some {
                assert(s.subrange(i, i + "none"@.len())[0] == "none"@[0]);
                assert(s.subrange(i, i + p1.len())[0] == p1[0]);
                assert(false);
            }
            let j1 = i + p1.len();
            lemma_sp_bool_at(s, j1, mm.shift);
            let j2 = j1 + b1.len();
            let j3 = j2 + p2.len();
            lemma_sp_bool_at(s, j3, mm.ctrl);
            let j4 = j3 + b2.len();
            let j5 = j4 + p3.len();
            lemma_sp_bool_at(s, j5, mm.alt);
            assert(sp_mods(s, i) == Some((m, i + spec_enc_mods(m).len())));
        },
    }
}

/// An optional hotkey filter's rendering at a position parses back to it.
proof fn lemma_sp_filter_at(s: Seq<char>, i: int, f: Option<KeyFilter>)
    requires
        0 <= i,
        i + spec_enc_filter(f).len() <= s.len(),
        s.subrange(i, i + spec_enc_filter(f).len()) == spec_enc_filter(f),
        f is Some ==> 0x61 <= f->Some_0.char as int <= 0x7A,
    ensures
        sp_filter(s, i) == Some((f, i + spec_enc_filter(f).len())),
{
    reveal_strlit("none");
    reveal_strlit("{ char = \"");
    match f {
        None => {},
        Some(kf) => {
            let p1 = "{ char = \""@;
            let ch = seq![kf.char];
            let p2 = "\", modifiers = "@;
            let ms = spec_enc_mods(kf.modifiers);
            let p3 = " }"@;
            let x3 = p1 + ch + p2;
            let x4 = x3 + ms;
            lemma_split_at(s, i, x4, p3);
            lemma_split_at(s, i, x3, ms);
            lemma_split_at(s, i, p1 + ch, p2);
            lemma_split_at(s, i, p1, ch);
            if sp_lit(s, i, "none"@) is Some {
                assert(s.subrange(i, i + "none"@.len())[0] == "none"@[0]);
                assert(s.subrange(i, i + p1.len())[0] == p1[0]);
                assert(false);
            }
            let j1 = i + p1.len();
            assert(s.subrange(j1, j1 + 1)[0] == ch[0]);
            assert(s[j1] == kf.char);
            let j2 = j1 + 1;
            let j3 = j2 + p2.len();
            lemma_sp_mods_at(s, j3, kf.modifiers);
            assert(sp_filter(s, i) == Some((f, i + spec_enc_filter(f).len())));
        },
    }
}

/// A resolution's rendering at a position parses back to it.
proof fn lemma_sp_res_at(s: Seq<char>, i: int, r: Resolution)
    requires
        0 <= i,
        i + spec_enc_res(r).len() <= s.len(),
        s.subrange(i, i + spec_enc_res(r).len()) == spec_enc_res(r),
    ensures
        sp_res(s, i) == Some((r, i + spec_enc_res(r).len())),
{
    reveal_strlit("{ width = ");
    reveal_strlit(", height = ");
    reveal_strlit(" }");
    let p1 = "{ width = "@;
    let w = spec_enc_int(r.width as int);
    let p2 = ", height = "@;
    let h = spec_enc_int(r.height as int);
    let p3 = " }"@;
    let x3 = p1 + w + p2;
    let x4 = x3 + h;
    lemma_split_at(s, i, x4, p3);
    lemma_split_at(s, i, x3, h);
    lemma_split_at(s, i, p1 + w, p2);
    lemma_split_at(s, i, p1, w);
    let j1 = i + p1.len();
    let j2 = j1 + w.len();
    assert(s.subrange(j2, j2 + p2.len())[0] == p2[0]);
    assert(!is_digit_char(s[j2]));
    lemma_sp_i32_at(s, j1, r.width);
    let j3 = j2 + p2.len();
    let j4 = j3 + h.len();
    assert(s.subrange(j4, j4 + p3.len())[0] == p3[0]);
    assert(!is_digit_char(s[j4]));
    lemma_sp_i32_at(s, j3, r.height);
    assert(sp_res(s, i) == Some((r, i + spec_enc_res(r).len())));
}

/// A color's rendering at a position parses back to it.
proof fn lemma_sp_color_at(s: Seq<char>, i: int, c: Color)
    requires
        0 <= i,
        i + spec_enc_color(c).len() <= s.len(),
        s.subrange(i, i + spec_enc_color(c).len()) == spec_enc_color(c),
    ensures
        sp_color(s, i) == Some((c, i + spec_enc_color(c).len())),
{
    reveal_strlit("[");
    reveal_strlit(", ");
    reveal_strlit("]");
    let p1 = "["@;
    let r = spec_dec_u(c.0 as int);
    let p2 = ", "@;
    let g = spec_dec_u(c.1 as int);
    let p3 = ", "@;
    let b = spec_dec_u(c.2 as int);
    let p4 = "]"@;
    assert(spec_enc_int(c.0 as int) == r);
    assert(spec_enc_int(c.1 as int) == g);
    assert(spec_enc_int(c.2 as int) == b);
    let x5 = p1 + r + p2 + g + p3;
    let x6 = x5 + b;
    lemma_split_at(s, i, x6, p4);
    lemma_split_at(s, i, x5, b);
    lemma_split_at(s, i, p1 + r + p2 + g, p3);
    lemma_split_at(s, i, p1 + r + p2, g);
    lemma_split_at(s, i, p1 + r, p2);
    lemma_split_at(s, i, p1, r);
    let j1 = i + p1.len();
    let j2 = j1 + r.len();
    assert(s.subrange(j2, j2 + p2.len())[0] == p2[0]);
    assert(!is_digit_char(s[j2]));
    lemma_sp_u8_at(s, j1, c.0);
    let j3 = j2 + p2.len();
    let j4 = j3 + g.len();
    assert(s.subrange(j4, j4 + p3.len())[0] == p3[0]);
    assert(!is_digit_char(s[j4]));
    lemma_sp_u8_at(s, j3, c.1);
    let j5 = j4 + p3.len();
    let j6 = j5 + b.len();
    assert(s.subrange(j6, j6 + p4.len())[0] == p4[0]);
    assert(!is_digit_char(s[j6]));
    lemma_sp_u8_at(s, j5, c.2);
    assert(sp_color(s, i) == Some((c, i + spec_enc_color(c).len())));
}

/// The geometry segment at the start of the document parses back to its
/// fields, provided the character after it is not a digit.
proof fn lemma_sp_head_at(s: Seq<char>, c: Config)
    requires
        spec_enc_head(c).len() <= s.len(),
        s.subrange(0, spec_enc_head(c).len() as int) == spec_enc_head(c),
        spec_enc_head(c).len() == s.len() || !is_digit_char(s[spec_enc_head(c).len() as int]),
    ensures
        sp_head(s) == Some(((c.thin, c.tall, c.wide, c.ruler), spec_enc_head(c).len() as int)),
{
    let p1 = "thin = "@;
    let e1 = spec_enc_res(c.thin);
    let p2 = "\ntall = "@;
    let e2 = spec_enc_res(c.tall);
    let p3 = "\nwide = "@;
    let e3 = spec_enc_res(c.wide);
    let p4 = "\nruler = "@;
    let e4 = spec_enc_int(c.ruler as int);
    let x1 = p1 + e1;
    let x2 = x1 + p2;
    let x3 = x2 + e2;
    let x4 = x3 + p3;
    let x5 = x4 + e3;
    let x6 = x5 + p4;
    lemma_split_at(s, 0, x6, e4);
    lemma_split_at(s, 0, x5, p4);
    lemma_split_at(s, 0, x4, e3);
    lemma_split_at(s, 0, x3, p3);
    lemma_split_at(s, 0, x2, e2);
    lemma_split_at(s, 0, x1, p2);
    lemma_split_at(s, 0, p1, e1);
    let n1 = p1.len() as int;
    let n2 = n1 + e1.len();
    let n3 = n2 + p2.len();
    let n4 = n3 + e2.len();
    let n5 = n4 + p3.len();
    let n6 = n5 + e3.len();
    let n7 = n6 + p4.len();
    let n8 = n7 + e4.len();
    lemma_sp_res_at(s, n1, c.thin);
    lemma_sp_res_at(s, n3, c.tall);
    lemma_sp_res_at(s, n5, c.wide);
    lemma_sp_i32_at(s, n7, c.ruler);
    assert(sp_head(s) == Some(((c.thin, c.tall, c.wide, c.ruler), n8)));
}

/// The hotkey segment at a position parses back to its three filters.
#[verifier::rlimit(100)]
proof fn lemma_sp_bindings_at(s: Seq<char>, i: int, c: Config)
    requires
        c.wf(),
        0 <= i,
        i + spec_enc_bindings(c).len() <= s.len(),
        s.subrange(i, i + spec_enc_bindings(c).len()) == spec_enc_bindings(c),
    ensures
        sp_bindings(s, i) == Some(
            ((c.thin_key, c.tall_key, c.wide_key), i + spec_enc_bindings(c).len()),
        ),
{
    let p1 = "\nthin_key = "@;
    let e1 = spec_enc_filter(c.thin_key);
    let p2 = "\ntall_key = "@;
    let e2 = spec_enc_filter(c.tall_key);
    let p3 = "\nwide_key = "@;
    let e3 = spec_enc_filter(c.wide_key);
    let x1 = p1 + e1;
    let x2 = x1 + p2;
    let x3 = x2 + e2;
    let x4 = x3 + p3;
    lemma_split_at(s, i, x4, e3);
    lemma_split_at(s, i, x3, p3);
    lemma_split_at(s, i, x2, e2);
    lemma_split_at(s, i, x1, p2);
    lemma_split_at(s, i, p1, e1);
    let n1 = i + p1.len();
    let n2 = n1 + e1.len();
    let n3 = n2 + p2.len();
    let n4 = n3 + e2.len();
    let n5 = n4 + p3.len();
    let n6 = n5 + e3.len();
    lemma_sp_filter_at(s, n1, c.thin_key);
    lemma_sp_filter_at(s, n3, c.tall_key);
    lemma_sp_filter_at(s, n5, c.wide_key);
    assert(sp_bindings(s, i) == Some(((c.thin_key, c.tall_key, c.wide_key), n6)));
}

/// The color segment at a position parses back to its two colors.
proof fn lemma_sp_palette_at(s: Seq<char>, i: int, c: Config)
    requires
        0 <= i,
        i + spec_enc_palette(c).len() <= s.len(),
        s.subrange(i, i + spec_enc_palette(c).len()) == spec_enc_palette(c),
    ensures
        sp_palette(s, i) == Some(
            ((c.colors[0], c.colors[1]), i + spec_enc_palette(c).len()),
        ),
{
    let p1 = "\ncolors = ["@;
    let e1 = spec_enc_color(c.colors[0]);
    let p2 = ", "@;
    let e2 = spec_enc_color(c.colors[1]);
    let p3 = "]\n"@;
    let x1 = p1 + e1;
    let x2 = x1 + p2;
    let x3 = x2 + e2;
    lemma_split_at(s, i, x3, p3);
    lemma_split_at(s, i, x2, e2);
    lemma_split_at(s, i, x1, p2);
    lemma_split_at(s, i, p1, e1);
    let n1 = i + p1.len();
    let n2 = n1 + e1.len();
    let n3 = n2 + p2.len();
    let n4 = n3 + e2.len();
    let n5 = n4 + p3.len();
    lemma_sp_color_at(s, n1, c.colors[0]);
    lemma_sp_color_at(s, n3, c.colors[1]);
    assert(sp_palette(s, i) == Some(((c.colors[0], c.colors[1]), n5)));
}

/// Law: the codec round-trips. Decoding the canonical rendering of any
/// well-formed snapshot — absent hotkeys and all numeric fields included —
/// yields that same snapshot.
#[verifier::rlimit(100)]
pub proof fn lemma_codec_round_trip(c: Config)
    requires
        c.wf(),
    ensures
        spec_decode(spec_encode(c)) == Some(c),
{
    let s = spec_encode(c);
    let h = spec_enc_head(c);
    let b = spec_enc_bindings(c);
    let p = spec_enc_palette(c);
    assert(s.subrange(0, s.len() as int) =~= s);
    lemma_split_at(s, 0, h + b, p);
    lemma_split_at(s, 0, h, b);
    let n1 = h.len() as int;
    let n2 = n1 + b.len();
    let n3 = n2 + p.len();
    lemma_bindings_head_char(c);
    assert(s.subrange(n1, n2)[0] == b[0]);
    assert(!is_digit_char(s[n1]));
    lemma_sp_head_at(s, c);
    lemma_sp_bindings_at(s, n1, c);
    lemma_sp_palette_at(s, n2, c);
    lemma_sp_config_compose(s, c, n1, n2, n3);
}

/// The hotkey segment starts with a line break, which is not a digit.
proof fn lemma_bindings_head_char(c: Config)
    ensures
        spec_enc_bindings(c).len() > 0,
        spec_enc_bindings(c)[0] == '\n',
        !is_digit_char(spec_enc_bindings(c)[0]),
{
    reveal_strlit("\nthin_key = ");
    assert(spec_enc_bindings(c)[0] == "\nthin_key = "@[0]);
}

/// Successfully parsed segments compose into the whole snapshot.
proof fn lemma_sp_config_compose(s: Seq<char>, c: Config, n1: int, n2: int, n3: int)
    requires
        sp_head(s) == Some(((c.thin, c.tall, c.wide, c.ruler), n1)),
        sp_bindings(s, n1) == Some(((c.thin_key, c.tall_key, c.wide_key), n2)),
        sp_palette(s, n2) == Some(((c.colors[0], c.colors[1]), n3)),
        n3 == s.len(),
    ensures
        spec_decode(s) == Some(c),
{
    assert(sp_config(s) is Some);
    let parsed = sp_config(s)->Some_0.0;
    assert(parsed.colors =~= c.colors);
    assert(parsed == c);
}

/// Match a literal at a position.
fn expect_lit(s: &str, i: usize, lit: &str) -> (r: Option<usize>)
    requires
        i <= s@.len(),
    ensures
        match r {
            Some(j) => sp_lit(s@, i as int, lit@) == Some(j as int) && i <= j <= s@.len(),
            None => sp_lit(s@, i as int, lit@) is None,
        },
{
    let n = lit.unicode_len();
    let sl = s.unicode_len();
    if sl - i < n {
        return None;
    }
    let mut t: usize = 0;
    while t < n
        invariant
            t <= n,
            i + n <= s@.len(),
            i + n <= usize::MAX,
            n == lit@.len(),
            i <= s@.len(),
            forall|u: int| 0 <= u < t ==> s@[i + u] == lit@[u],
        decreases n - t,
    {
        if s.get_char(i + t) != lit.get_char(t) {
            proof {
                if s@.subrange(i as int, (i + n) as int) == lit@ {
                    assert(s@.subrange(i as int, (i + n) as int)[t as int] == lit@[t as int]);
                    assert(false);
                }
            }
            return None;
        }
        t = t + 1;
    }
    proof {
        assert(s@.subrange(i as int, (i + n) as int) =~= lit@);
    }
    Some(i + n)
}

/// Extending a digit-character sequence by one digit multiplies its value
/// by ten and adds the digit.
proof fn lemma_chars_value_step(s: Seq<char>, a: int, j: int)
    requires
        0 <= a <= j < s.len(),
    ensures
        spec_chars_value(s.subrange(a, j + 1)) == spec_chars_value(s.subrange(a, j)) * 10
            + digit_val(s[j]),
{
    let t = s.subrange(a, j + 1);
    assert(t.drop_last() =~= s.subrange(a, j));
    assert(t.last() == s[j]);
}

/// The digit run from `i` ends exactly where the digits stop.
proof fn lemma_digit_run_end_is(s: Seq<char>, i: int, e: int)
    requires
        0 <= i <= e <= s.len(),
        forall|u: int| i <= u < e ==> is_digit_char(#[trigger] s[u]),
        e == s.len() || !is_digit_char(s[e]),
    ensures
        digit_run_end(s, i) == e,
    decreases e - i,
{
    if i < e {
        lemma_digit_run_end_is(s, i + 1, e);
    }
}

/// Parse a signed decimal number that fits a signed machine integer.
fn scan_i32(s: &str, i: usize) -> (r: Option<(i32, usize)>)
    requires
        i <= s@.len(),
    ensures
        match r {
            Some((v, j)) => sp_i32(s@, i as int) == Some((v, j as int)) && i <= j <= s@.len(),
            None => sp_i32(s@, i as int) is None,
        },
{
    let sl = s.unicode_len();
    let neg: bool = i < sl && s.get_char(i) == '-';
    let start: usize = if neg {
        i + 1
    } else {
        i
    };
    let mut j: usize = start;
    let mut acc: u32 = 0;
    let mut overflow: bool = false;
    loop
        invariant_except_break
            sl == s@.len(),
            i <= start <= j <= sl,
            forall|u: int| start <= u < j ==> is_digit_char(#[trigger] s@[u]),
            !overflow ==> acc == spec_chars_value(s@.subrange(start as int, j as int)),
            overflow ==> spec_chars_value(s@.subrange(start as int, j as int)) > u32::MAX,
        ensures
            sl == s@.len(),
            i <= start <= j <= sl,
            forall|u: int| start <= u < j ==> is_digit_char(#[trigger] s@[u]),
            j == sl || !is_digit_char(s@[j as int]),
            !overflow ==> acc == spec_chars_value(s@.subrange(start as int, j as int)),
            overflow ==> spec_chars_value(s@.subrange(start as int, j as int)) > u32::MAX,
        decreases sl - j,
    {
        if j >= sl {
            break;
        }
        let c = s.get_char(j);
        let cv = c as u32;
        if cv < 0x30 || cv > 0x39 {
            assert(!is_digit_char(s@[j as int]));
            break;
        }
        let d: u32 = cv - 0x30;
        proof {
            lemma_chars_value_step(s@, start as int, j as int);
            if overflow {
                let prev = spec_chars_value(s@.subrange(start as int, j as int));
                vstd::arithmetic::mul::lemma_mul_inequality(1, 10, prev);
            }
        }
        if !overflow {
            match acc.checked_mul(10) {
                Some(m) => {
                    match m.checked_add(d) {
                        Some(v) => {
                            acc = v;
                        },
                        None => {
                            overflow = true;
                        },
                    }
                },
                None => {
                    overflow = true;
                },
            }
        }
        j = j + 1;
    }
    proof {
        lemma_digit_run_end_is(s@, start as int, j as int);
    }
    if j == start {
        return None;
    }
    if overflow {
        return None;
    }
    if neg {
        if acc > 0x8000_0000u32 {
            return None;
        }
        let v: i32 = (-(acc as i64)) as i32;
        Some((v, j))
    } else {
        if acc > 0x7FFF_FFFFu32 {
            return None;
        }
        Some((acc as i32, j))
    }
}

/// Parse a color channel.
fn scan_u8(s: &str, i: usize) -> (r: Option<(u8, usize)>)
    requires
        i <= s@.len(),
    ensures
        match r {
            Some((v, j)) => sp_u8(s@, i as int) == Some((v, j as int)) && i <= j <= s@.len(),
            None => sp_u8(s@, i as int) is None,
        },
{
    match scan_i32(s, i) {
        Some((v, j)) => {
            if 0 <= v && v <= 255 {
                Some((v as u8, j))
            } else {
                None
            }
        },
        None => None,
    }
}

/// Parse a boolean.
fn scan_bool(s: &str, i: usize) -> (r: Option<(bool, usize)>)
    requires
        i <= s@.len(),
    ensures
        match r {
            Some((b, j)) => sp_bool(s@, i as int) == Some((b, j as int)) && i <= j <= s@.len(),
            None => sp_bool(s@, i as int) is None,
        },
{
    match expect_lit(s, i, "true") {
        Some(j) => Some((true, j)),
        None => match expect_lit(s, i, "false") {
            Some(j) => Some((false, j)),
            None => None,
        },
    }
}

/// Parse a hotkey character.
fn scan_char_az(s: &str, i: usize) -> (r: Option<(char, usize)>)
    requires
        i <= s@.len(),
    ensures
        match r {
            Some((c, j)) => sp_char_az(s@, i as int) == Some((c, j as int)) && i <= j <= s@.len(),
            None => sp_char_az(s@, i as int) is None,
        },
{
    let sl = s.unicode_len();
    if i >= sl {
        return None;
    }
    let c = s.get_char(i);
    let cv = c as u32;
    if 0x61 <= cv && cv <= 0x7A {
        Some((c, i + 1))
    } else {
        None
    }
}

/// Parse an optional modifier constraint.
fn scan_mods(s: &str, i: usize) -> (r: Option<(Option<Modifiers>, usize)>)
    requires
        i <= s@.len(),
    ensures
        match r {
            Some((m, j)) => sp_mods(s@, i as int) == Some((m, j as int)) && i <= j <= s@.len(),
            None => sp_mods(s@, i as int) is None,
        },
{
    if let Some(j) = expect_lit(s, i, "none") {
        return Some((None, j));
    }
    let j1 = match expect_lit(s, i, "{ shift = ") {
        Some(j) => j,
        None => {
            return None;
        },
    };
    let (shift, j2) = match scan_bool(s, j1) {
        Some(p) => p,
        None => {
            return None;
        },
    };
    let j3 = match expect_lit(s, j2, ", ctrl = ") {
        Some(j) => j,
        None => {
            return None;
        },
    };
    let (ctrl, j4) = match scan_bool(s, j3) {
        Some(p) => p,
        None => {
            return None;
        },
    };
    let j5 = match expect_lit(s, j4, ", alt = ") {
        Some(j) => j,
        None => {
            return None;
        },
    };
    let (alt, j6) = match scan_bool(s, j5) {
        Some(p) => p,
        None => {
            return None;
        },
    };
    let j7 = match expect_lit(s, j6, " }") {
        Some(j) => j,
        None => {
            return None;
        },
    };
    Some((Some(Modifiers { shift, ctrl, alt }), j7))
}

/// Parse an optional hotkey filter.
fn scan_filter(s: &str, i: usize) -> (r: Option<(Option<KeyFilter>, usize)>)
    requires
        i <= s@.len(),
    ensures
        match r {
            Some((f, j)) => sp_filter(s@, i as int) == Some((f, j as int)) && i <= j <= s@.len(),
            None => sp_filter(s@, i as int) is None,
        },
{
    if let Some(j) = expect_lit(s, i, "none") {
        return Some((None, j));
    }
    let j1 = match expect_lit(s, i, "{ char = \"") {
        Some(j) => j,
        None => {
            return None;
        },
    };
    let (c, j2) = match scan_char_az(s, j1) {
        Some(p) => p,
        None => {
            return None;
        },
    };
    let j3 = match expect_lit(s, j2, "\", modifiers = ") {
        Some(j) => j,
        None => {
            return None;
        },
    };
    let (m, j4) = match scan_mods(s, j3) {
        Some(p) => p,
        None => {
            return None;
        },
    };
    let j5 = match expect_lit(s, j4, " }") {
        Some(j) => j,
        None => {
            return None;
        },
    };
    Some((Some(KeyFilter { char: c, modifiers: m }), j5))
}

/// Parse a resolution inline table.
fn scan_res(s: &str, i: usize) -> (r: Option<(Resolution, usize)>)
    requires
        i <= s@.len(),
    ensures
        match r {
            Some((v, j)) => sp_res(s@, i as int) == Some((v, j as int)) && i <= j <= s@.len(),
            None => sp_res(s@, i as int) is None,
        },
{
    let j1 = match expect_lit(s, i, "{ width = ") {
        Some(j) => j,
        None => {
            return None;
        },
    };
    let (w, j2) = match scan_i32(s, j1) {
        Some(p) => p,
        None => {
            return None;
        },
    };
    let j3 = match expect_lit(s, j2, ", height = ") {
        Some(j) => j,
        None => {
            return None;
        },
    };
    let (h, j4) = match scan_i32(s, j3) {
        Some(p) => p,
        None => {
            return None;
        },
    };
    let j5 = match expect_lit(s, j4, " }") {
        Some(j) => j,
        None => {
            return None;
        },
    };
    Some((Resolution { width: w, height: h }, j5))
}

/// Parse one accent color array.
fn scan_color(s: &str, i: usize) -> (r: Option<(Color, usize)>)
    requires
        i <= s@.len(),
    ensures
        match r {
            Some((v, j)) => sp_color(s@, i as int) == Some((v, j as int)) && i <= j <= s@.len(),
            None => sp_color(s@, i as int) is None,
        },
{
    let j1 = match expect_lit(s, i, "[") {
        Some(j) => j,
        None => {
            return None;
        },
    };
    let (red, j2) = match scan_u8(s, j1) {
        Some(p) => p,
        None => {
            return None;
        },
    };
    let j3 = match expect_lit(s, j2, ", ") {
        Some(j) => j,
        None => {
            return None;
        },
    };
    let (green, j4) = match scan_u8(s, j3) {
        Some(p) => p,
        None => {
            return None;
        },
    };
    let j5 = match expect_lit(s, j4, ", ") {
        Some(j) => j,
        None => {
            return None;
        },
    };
    let (blue, j6) = match scan_u8(s, j5) {
        Some(p) => p,
        None => {
            return None;
        },
    };
    let j7 = match expect_lit(s, j6, "]") {
        Some(j) => j,
        None => {
            return None;
        },
    };
    Some((Color(red, green, blue), j7))
}

/// Parse the geometry half of the document.
fn scan_head(s: &str) -> (r: Option<((Resolution, Resolution, Resolution, i32), usize)>)
    ensures
        match r {
            Some((v, j)) => sp_head(s@) == Some((v, j as int)) && j <= s@.len(),
            None => sp_head(s@) is None,
        },
{
    let j1 = match expect_lit(s, 0, "thin = ") {
        Some(j) => j,
        None => {
            return None;
        },
    };
    let (thin, j2) = match scan_res(s, j1) {
        Some(p) => p,
        None => {
            return None;
        },
    };
    let j3 = match expect_lit(s, j2, "\ntall = ") {
        Some(j) => j,
        None => {
            return None;
        },
    };
    let (tall, j4) = match scan_res(s, j3) {
        Some(p) => p,
        None => {
            return None;
        },
    };
    let j5 = match expect_lit(s, j4, "\nwide = ") {
        Some(j) => j,
        None => {
            return None;
        },
    };
    let (wide, j6) = match scan_res(s, j5) {
        Some(p) => p,
        None => {
            return None;
        },
    };
    let j7 = match expect_lit(s, j6, "\nruler = ") {
        Some(j) => j,
        None => {
            return None;
        },
    };
    let (ruler, j8) = match scan_i32(s, j7) {
        Some(p) => p,
        None => {
            return None;
        },
    };
    Some(((thin, tall, wide, ruler), j8))
}

/// Parse the three hotkey lines.
fn scan_bindings(s: &str, i: usize) -> (r: Option<
    ((Option<KeyFilter>, Option<KeyFilter>, Option<KeyFilter>), usize),
>)
    requires
        i <= s@.len(),
    ensures
        match r {
            Some((v, j)) => sp_bindings(s@, i as int) == Some((v, j as int)) && j <= s@.len(),
            None => sp_bindings(s@, i as int) is None,
        },
{
    let j1 = match expect_lit(s, i, "\nthin_key = ") {
        Some(j) => j,
        None => {
            return None;
        },
    };
    let (thin_key, j2) = match scan_filter(s, j1) {
        Some(p) => p,
        None => {
            return None;
        },
    };
    let j3 = match expect_lit(s, j2, "\ntall_key = ") {
        Some(j) => j,
        None => {
            return None;
        },
    };
    let (tall_key, j4) = match scan_filter(s, j3) {
        Some(p) => p,
        None => {
            return None;
        },
    };
    let j5 = match expect_lit(s, j4, "\nwide_key = ") {
        Some(j) => j,
        None => {
            return None;
        },
    };
    let (wide_key, j6) = match scan_filter(s, j5) {
        Some(p) => p,
        None => {
            return None;
        },
    };
    Some(((thin_key, tall_key, wide_key), j6))
}

/// Parse the accent-color line.
fn scan_palette(s: &str, i: usize) -> (r: Option<((Color, Color), usize)>)
    requires
        i <= s@.len(),
    ensures
        match r {
            Some((v, j)) => sp_palette(s@, i as int) == Some((v, j as int)) && j <= s@.len(),
            None => sp_palette(s@, i as int) is None,
        },
{
    let j1 = match expect_lit(s, i, "\ncolors = [") {
        Some(j) => j,
        None => {
            return None;
        },
    };
    let (c0, j2) = match scan_color(s, j1) {
        Some(p) => p,
        None => {
            return None;
        },
    };
    let j3 = match expect_lit(s, j2, ", ") {
        Some(j) => j,
        None => {
            return None;
        },
    };
    let (c1, j4) = match scan_color(s, j3) {
        Some(p) => p,
        None => {
            return None;
        },
    };
    let j5 = match expect_lit(s, j4, "]\n") {
        Some(j) => j,
        None => {
            return None;
        },
    };
    Some(((c0, c1), j5))
}

/// Parse a whole document back into a snapshot. Succeeds on exactly the
/// documents [`encode`] produces, consumed in full.
pub fn decode(s: &str) -> (r: Option<Config>)
    ensures
        r == spec_decode(s@),
{
    let ((thin, tall, wide, ruler), i1) = match scan_head(s) {
        Some(p) => p,
        None => {
            return None;
        },
    };
    let ((thin_key, tall_key, wide_key), i2) = match scan_bindings(s, i1) {
        Some(p) => p,
        None => {
            return None;
        },
    };
    let ((c0, c1), i3) = match scan_palette(s, i2) {
        Some(p) => p,
        None => {
            return None;
        },
    };
    if i3 != s.unicode_len() {
        return None;
    }
    Some(Config { thin, tall, wide, ruler, thin_key, tall_key, wide_key, colors: [c0, c1] })
}

} // verus!
