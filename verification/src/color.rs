//! Value types for display-attribute (color) configuration strings: the
//! eight standard colors and their bright variants, ANSI color codes, and
//! 24-bit hex values, together with text attributes and their negations.
//!
//! Parsing works on bytes and splits tokens on Unicode whitespace,
//! matched byte-wise on its UTF-8 encodings; every parser and renderer is
//! specified exactly, down to the leading `+` that the standard library's
//! integer parsers accept.

use vstd::prelude::*;
use crate::header::{dec_digits, parse_size, parse_size_bytes, push_decimal};
use crate::hex::{hex_val, hex_of_byte};

verus! {

/// An invalid color value, carrying the rejected input.
#[derive(Clone, Debug, PartialEq, Eq)]
pub struct ValueError {
    pub input: Vec<u8>,
}

impl ValueError {
    /// What makes a color value acceptable.
    pub fn message(&self) -> (r: &'static str)
        ensures
            r@ == "Colors are specific color values and their attributes, like 'brightred', or 'blue'"@,
    {
        "Colors are specific color values and their attributes, like 'brightred', or 'blue'"
    }
}

/// The invalid-color report for `input`.
fn color_err(input: &[u8]) -> (r: ValueError)
    ensures
        r.input@ == input@,
{
    let mut v: Vec<u8> = Vec::new();
    v.extend_from_slice(input);
    proof {
        assert(v@ =~= input@);
    }
    ValueError { input: v }
}

/// Discriminating enum for color values: the eight standard colors, their
/// bright variants, an ANSI color code, or a 24-bit hex value prefixed
/// with an octothorpe.
#[derive(Copy, Clone, Eq, PartialEq, Ord, PartialOrd, Hash, Debug, Structural)]
pub enum Name {
    Normal,
    Default,
    Black,
    BrightBlack,
    Red,
    BrightRed,
    Green,
    BrightGreen,
    Yellow,
    BrightYellow,
    Blue,
    BrightBlue,
    Magenta,
    BrightMagenta,
    Cyan,
    BrightCyan,
    White,
    BrightWhite,
    Ansi(u8),
    Rgb(u8, u8, u8),
}

/// Discriminating enum for color attributes: modifiers and their
/// negators; a negator is written with a `no` or `no-` prefix.
#[derive(Copy, Clone, Eq, PartialEq, Ord, PartialOrd, Hash, Debug, Structural)]
pub enum Attribute {
    Reset,
    Bold,
    NoBold,
    Dim,
    NoDim,
    Ul,
    NoUl,
    Blink,
    NoBlink,
    Reverse,
    NoReverse,
    Italic,
    NoItalic,
    Strike,
    NoStrike,
}

/// The characters of `"bright"`.
pub open spec fn lbl_bright() -> Seq<u8> {
    seq![98u8, 114u8, 105u8, 103u8, 104u8, 116u8]
}

/// The characters of `"no"`.
pub open spec fn lbl_no() -> Seq<u8> {
    seq![110u8, 111u8]
}

/// The characters of `"no-"`.
pub open spec fn lbl_no_dash() -> Seq<u8> {
    seq![110u8, 111u8, 45u8]
}

/// The characters of `"-1"`.
pub open spec fn lbl_neg1() -> Seq<u8> {
    seq![45u8, 49u8]
}

/// The characters of `"normal"`.
pub open spec fn lbl_normal() -> Seq<u8> {
    seq![110u8, 111u8, 114u8, 109u8, 97u8, 108u8]
}

/// The characters of `"default"`.
pub open spec fn lbl_default() -> Seq<u8> {
    seq![100u8, 101u8, 102u8, 97u8, 117u8, 108u8, 116u8]
}

/// The characters of `"black"`.
pub open spec fn lbl_black() -> Seq<u8> {
    seq![98u8, 108u8, 97u8, 99u8, 107u8]
}

/// The characters of `"red"`.
pub open spec fn lbl_red() -> Seq<u8> {
    seq![114u8, 101u8, 100u8]
}

/// The characters of `"green"`.
pub open spec fn lbl_green() -> Seq<u8> {
    seq![103u8, 114u8, 101u8, 101u8, 110u8]
}

/// The characters of `"yellow"`.
pub open spec fn lbl_yellow() -> Seq<u8> {
    seq![121u8, 101u8, 108u8, 108u8, 111u8, 119u8]
}

/// The characters of `"blue"`.
pub open spec fn lbl_blue() -> Seq<u8> {
    seq![98u8, 108u8, 117u8, 101u8]
}

/// The characters of `"magenta"`.
pub open spec fn lbl_magenta() -> Seq<u8> {
    seq![109u8, 97u8, 103u8, 101u8, 110u8, 116u8, 97u8]
}

/// The characters of `"cyan"`.
pub open spec fn lbl_cyan() -> Seq<u8> {
    seq![99u8, 121u8, 97u8, 110u8]
}

/// The characters of `"white"`.
pub open spec fn lbl_white() -> Seq<u8> {
    seq![119u8, 104u8, 105u8, 116u8, 101u8]
}

/// The characters of `"reset"`.
pub open spec fn lbl_reset() -> Seq<u8> {
    seq![114u8, 101u8, 115u8, 101u8, 116u8]
}

/// The characters of `"bold"`.
pub open spec fn lbl_bold() -> Seq<u8> {
    seq![98u8, 111u8, 108u8, 100u8]
}

/// The characters of `"dim"`.
pub open spec fn lbl_dim() -> Seq<u8> {
    seq![100u8, 105u8, 109u8]
}

/// The characters of `"ul"`.
pub open spec fn lbl_ul() -> Seq<u8> {
    seq![117u8, 108u8]
}

/// The characters of `"blink"`.
pub open spec fn lbl_blink() -> Seq<u8> {
    seq![98u8, 108u8, 105u8, 110u8, 107u8]
}

/// The characters of `"reverse"`.
pub open spec fn lbl_reverse() -> Seq<u8> {
    seq![114u8, 101u8, 118u8, 101u8, 114u8, 115u8, 101u8]
}

/// The characters of `"italic"`.
pub open spec fn lbl_italic() -> Seq<u8> {
    seq![105u8, 116u8, 97u8, 108u8, 105u8, 99u8]
}

/// The characters of `"strike"`.
pub open spec fn lbl_strike() -> Seq<u8> {
    seq![115u8, 116u8, 114u8, 105u8, 107u8, 101u8]
}

/// Whether `s[start..end]` equals `lit` byte for byte.
fn range_eq(s: &[u8], start: usize, end: usize, lit: &[u8]) -> (r: bool)
    requires
        start <= end <= s@.len(),
    ensures
        r == (s@.subrange(start as int, end as int) == lit@),
{
    let ghost sub = s@.subrange(start as int, end as int);
    let n = lit.len();
    if end - start != n {
        return false;
    }
    let mut i: usize = 0;
    while i < n
        invariant
            i <= n,
            n == lit@.len(),
            start + n <= s@.len(),
            end - start == n,
            sub == s@.subrange(start as int, end as int),
            forall|k: int| 0 <= k < i ==> #[trigger] sub[k] == lit@[k],
        decreases n - i,
    {
        proof {
            assert(sub[i as int] == s@[start + i]);
        }
        if s[start + i] != lit[i] {
            return false;
        }
        i += 1;
    }
    proof {
        assert(sub =~= lit@);
    }
    true
}

/// Whether `s[start..end]` begins with `lit`.
fn prefix_eq(s: &[u8], start: usize, end: usize, lit: &[u8]) -> (r: bool)
    requires
        start <= end <= s@.len(),
    ensures
        r == ({
            let t = s@.subrange(start as int, end as int);
            t.len() >= lit@.len() && t.take(lit@.len() as int) == lit@
        }),
{
    let ghost t = s@.subrange(start as int, end as int);
    let n = lit.len();
    if end - start < n {
        return false;
    }
    let ghost p = t.take(n as int);
    let mut i: usize = 0;
    while i < n
        invariant
            i <= n,
            n == lit@.len(),
            start + n <= s@.len(),
            end - start >= n,
            end <= s@.len(),
            t == s@.subrange(start as int, end as int),
            p == t.take(n as int),
            forall|k: int| 0 <= k < i ==> #[trigger] p[k] == lit@[k],
        decreases n - i,
    {
        proof {
            assert(p.len() == n);
            assert(t[i as int] == s@[start + i]);
            assert(p[i as int] == t[i as int]);
        }
        if s[start + i] != lit[i] {
            return false;
        }
        i += 1;
    }
    proof {
        assert(p =~= lit@);
    }
    true
}

/// The characters of `"-1"`, as a buffer.
fn vec_neg1() -> (v: Vec<u8>)
    ensures
        v@ == lbl_neg1(),
{
    let mut v: Vec<u8> = Vec::new();
    v.push(45u8);
    v.push(49u8);
    proof {
        assert(v@ =~= lbl_neg1());
    }
    v
}

/// Whether `s[start..end]` spells `"-1"`.
fn kw_neg1(s: &[u8], start: usize, end: usize) -> (r: bool)
    requires
        start <= end <= s@.len(),
    ensures
        r == (s@.subrange(start as int, end as int) == lbl_neg1()),
{
    let lit = vec_neg1();
    range_eq(s, start, end, lit.as_slice())
}

/// The characters of `"normal"`, as a buffer.
fn vec_normal() -> (v: Vec<u8>)
    ensures
        v@ == lbl_normal(),
{
    let mut v: Vec<u8> = Vec::new();
    v.push(110u8);
    v.push(111u8);
    v.push(114u8);
    v.push(109u8);
    v.push(97u8);
    v.push(108u8);
    proof {
        assert(v@ =~= lbl_normal());
    }
    v
}

/// Whether `s[start..end]` spells `"normal"`.
fn kw_normal(s: &[u8], start: usize, end: usize) -> (r: bool)
    requires
        start <= end <= s@.len(),
    ensures
        r == (s@.subrange(start as int, end as int) == lbl_normal()),
{
    let lit = vec_normal();
    range_eq(s, start, end, lit.as_slice())
}

/// The characters of `"default"`, as a buffer.
fn vec_default() -> (v: Vec<u8>)
    ensures
        v@ == lbl_default(),
{
    let mut v: Vec<u8> = Vec::new();
    v.push(100u8);
    v.push(101u8);
    v.push(102u8);
    v.push(97u8);
    v.push(117u8);
    v.push(108u8);
    v.push(116u8);
    proof {
        assert(v@ =~= lbl_default());
    }
    v
}

/// Whether `s[start..end]` spells `"default"`.
fn kw_default(s: &[u8], start: usize, end: usize) -> (r: bool)
    requires
        start <= end <= s@.len(),
    ensures
        r == (s@.subrange(start as int, end as int) == lbl_default()),
{
    let lit = vec_default();
    range_eq(s, start, end, lit.as_slice())
}

/// The characters of `"black"`, as a buffer.
fn vec_black() -> (v: Vec<u8>)
    ensures
        v@ == lbl_black(),
{
    let mut v: Vec<u8> = Vec::new();
    v.push(98u8);
    v.push(108u8);
    v.push(97u8);
    v.push(99u8);
    v.push(107u8);
    proof {
        assert(v@ =~= lbl_black());
    }
    v
}

/// Whether `s[start..end]` spells `"black"`.
fn kw_black(s: &[u8], start: usize, end: usize) -> (r: bool)
    requires
        start <= end <= s@.len(),
    ensures
        r == (s@.subrange(start as int, end as int) == lbl_black()),
{
    let lit = vec_black();
    range_eq(s, start, end, lit.as_slice())
}

/// The characters of `"red"`, as a buffer.
fn vec_red() -> (v: Vec<u8>)
    ensures
        v@ == lbl_red(),
{
    let mut v: Vec<u8> = Vec::new();
    v.push(114u8);
    v.push(101u8);
    v.push(100u8);
    proof {
        assert(v@ =~= lbl_red());
    }
    v
}

/// Whether `s[start..end]` spells `"red"`.
fn kw_red(s: &[u8], start: usize, end: usize) -> (r: bool)
    requires
        start <= end <= s@.len(),
    ensures
        r == (s@.subrange(start as int, end as int) == lbl_red()),
{
    let lit = vec_red();
    range_eq(s, start, end, lit.as_slice())
}

/// The characters of `"green"`, as a buffer.
fn vec_green() -> (v: Vec<u8>)
    ensures
        v@ == lbl_green(),
{
    let mut v: Vec<u8> = Vec::new();
    v.push(103u8);
    v.push(114u8);
    v.push(101u8);
    v.push(101u8);
    v.push(110u8);
    proof {
        assert(v@ =~= lbl_green());
    }
    v
}

/// Whether `s[start..end]` spells `"green"`.
fn kw_green(s: &[u8], start: usize, end: usize) -> (r: bool)
    requires
        start <= end <= s@.len(),
    ensures
        r == (s@.subrange(start as int, end as int) == lbl_green()),
{
    let lit = vec_green();
    range_eq(s, start, end, lit.as_slice())
}

/// The characters of `"yellow"`, as a buffer.
fn vec_yellow() -> (v: Vec<u8>)
    ensures
        v@ == lbl_yellow(),
{
    let mut v: Vec<u8> = Vec::new();
    v.push(121u8);
    v.push(101u8);
    v.push(108u8);
    v.push(108u8);
    v.push(111u8);
    v.push(119u8);
    proof {
        assert(v@ =~= lbl_yellow());
    }
    v
}

/// Whether `s[start..end]` spells `"yellow"`.
fn kw_yellow(s: &[u8], start: usize, end: usize) -> (r: bool)
    requires
        start <= end <= s@.len(),
    ensures
        r == (s@.subrange(start as int, end as int) == lbl_yellow()),
{
    let lit = vec_yellow();
    range_eq(s, start, end, lit.as_slice())
}

/// The characters of `"blue"`, as a buffer.
fn vec_blue() -> (v: Vec<u8>)
    ensures
        v@ == lbl_blue(),
{
    let mut v: Vec<u8> = Vec::new();
    v.push(98u8);
    v.push(108u8);
    v.push(117u8);
    v.push(101u8);
    proof {
        assert(v@ =~= lbl_blue());
    }
    v
}

/// Whether `s[start..end]` spells `"blue"`.
fn kw_blue(s: &[u8], start: usize, end: usize) -> (r: bool)
    requires
        start <= end <= s@.len(),
    ensures
        r == (s@.subrange(start as int, end as int) == lbl_blue()),
{
    let lit = vec_blue();
    range_eq(s, start, end, lit.as_slice())
}

/// The characters of `"magenta"`, as a buffer.
fn vec_magenta() -> (v: Vec<u8>)
    ensures
        v@ == lbl_magenta(),
{
    let mut v: Vec<u8> = Vec::new();
    v.push(109u8);
    v.push(97u8);
    v.push(103u8);
    v.push(101u8);
    v.push(110u8);
    v.push(116u8);
    v.push(97u8);
    proof {
        assert(v@ =~= lbl_magenta());
    }
    v
}

/// Whether `s[start..end]` spells `"magenta"`.
fn kw_magenta(s: &[u8], start: usize, end: usize) -> (r: bool)
    requires
        start <= end <= s@.len(),
    ensures
        r == (s@.subrange(start as int, end as int) == lbl_magenta()),
{
    let lit = vec_magenta();
    range_eq(s, start, end, lit.as_slice())
}

/// The characters of `"cyan"`, as a buffer.
fn vec_cyan() -> (v: Vec<u8>)
    ensures
        v@ == lbl_cyan(),
{
    let mut v: Vec<u8> = Vec::new();
    v.push(99u8);
    v.push(121u8);
    v.push(97u8);
    v.push(110u8);
    proof {
        assert(v@ =~= lbl_cyan());
    }
    v
}

/// Whether `s[start..end]` spells `"cyan"`.
fn kw_cyan(s: &[u8], start: usize, end: usize) -> (r: bool)
    requires
        start <= end <= s@.len(),
    ensures
        r == (s@.subrange(start as int, end as int) == lbl_cyan()),
{
    let lit = vec_cyan();
    range_eq(s, start, end, lit.as_slice())
}

/// The characters of `"white"`, as a buffer.
fn vec_white() -> (v: Vec<u8>)
    ensures
        v@ == lbl_white(),
{
    let mut v: Vec<u8> = Vec::new();
    v.push(119u8);
    v.push(104u8);
    v.push(105u8);
    v.push(116u8);
    v.push(101u8);
    proof {
        assert(v@ =~= lbl_white());
    }
    v
}

/// Whether `s[start..end]` spells `"white"`.
fn kw_white(s: &[u8], start: usize, end: usize) -> (r: bool)
    requires
        start <= end <= s@.len(),
    ensures
        r == (s@.subrange(start as int, end as int) == lbl_white()),
{
    let lit = vec_white();
    range_eq(s, start, end, lit.as_slice())
}

/// The characters of `"reset"`, as a buffer.
fn vec_reset() -> (v: Vec<u8>)
    ensures
        v@ == lbl_reset(),
{
    let mut v: Vec<u8> = Vec::new();
    v.push(114u8);
    v.push(101u8);
    v.push(115u8);
    v.push(101u8);
    v.push(116u8);
    proof {
        assert(v@ =~= lbl_reset());
    }
    v
}

/// Whether `s[start..end]` spells `"reset"`.
fn kw_reset(s: &[u8], start: usize, end: usize) -> (r: bool)
    requires
        start <= end <= s@.len(),
    ensures
        r == (s@.subrange(start as int, end as int) == lbl_reset()),
{
    let lit = vec_reset();
    range_eq(s, start, end, lit.as_slice())
}

/// The characters of `"bold"`, as a buffer.
fn vec_bold() -> (v: Vec<u8>)
    ensures
        v@ == lbl_bold(),
{
    let mut v: Vec<u8> = Vec::new();
    v.push(98u8);
    v.push(111u8);
    v.push(108u8);
    v.push(100u8);
    proof {
        assert(v@ =~= lbl_bold());
    }
    v
}

/// Whether `s[start..end]` spells `"bold"`.
fn kw_bold(s: &[u8], start: usize, end: usize) -> (r: bool)
    requires
        start <= end <= s@.len(),
    ensures
        r == (s@.subrange(start as int, end as int) == lbl_bold()),
{
    let lit = vec_bold();
    range_eq(s, start, end, lit.as_slice())
}

/// The characters of `"dim"`, as a buffer.
fn vec_dim() -> (v: Vec<u8>)
    ensures
        v@ == lbl_dim(),
{
    let mut v: Vec<u8> = Vec::new();
    v.push(100u8);
    v.push(105u8);
    v.push(109u8);
    proof {
        assert(v@ =~= lbl_dim());
    }
    v
}

/// Whether `s[start..end]` spells `"dim"`.
fn kw_dim(s: &[u8], start: usize, end: usize) -> (r: bool)
    requires
        start <= end <= s@.len(),
    ensures
        r == (s@.subrange(start as int, end as int) == lbl_dim()),
{
    let lit = vec_dim();
    range_eq(s, start, end, lit.as_slice())
}

/// The characters of `"ul"`, as a buffer.
fn vec_ul() -> (v: Vec<u8>)
    ensures
        v@ == lbl_ul(),
{
    let mut v: Vec<u8> = Vec::new();
    v.push(117u8);
    v.push(108u8);
    proof {
        assert(v@ =~= lbl_ul());
    }
    v
}

/// Whether `s[start..end]` spells `"ul"`.
fn kw_ul(s: &[u8], start: usize, end: usize) -> (r: bool)
    requires
        start <= end <= s@.len(),
    ensures
        r == (s@.subrange(start as int, end as int) == lbl_ul()),
{
    let lit = vec_ul();
    range_eq(s, start, end, lit.as_slice())
}

/// The characters of `"blink"`, as a buffer.
fn vec_blink() -> (v: Vec<u8>)
    ensures
        v@ == lbl_blink(),
{
    let mut v: Vec<u8> = Vec::new();
    v.push(98u8);
    v.push(108u8);
    v.push(105u8);
    v.push(110u8);
    v.push(107u8);
    proof {
        assert(v@ =~= lbl_blink());
    }
    v
}

/// Whether `s[start..end]` spells `"blink"`.
fn kw_blink(s: &[u8], start: usize, end: usize) -> (r: bool)
    requires
        start <= end <= s@.len(),
    ensures
        r == (s@.subrange(start as int, end as int) == lbl_blink()),
{
    let lit = vec_blink();
    range_eq(s, start, end, lit.as_slice())
}

/// The characters of `"reverse"`, as a buffer.
fn vec_reverse() -> (v: Vec<u8>)
    ensures
        v@ == lbl_reverse(),
{
    let mut v: Vec<u8> = Vec::new();
    v.push(114u8);
    v.push(101u8);
    v.push(118u8);
    v.push(101u8);
    v.push(114u8);
    v.push(115u8);
    v.push(101u8);
    proof {
        assert(v@ =~= lbl_reverse());
    }
    v
}

/// Whether `s[start..end]` spells `"reverse"`.
fn kw_reverse(s: &[u8], start: usize, end: usize) -> (r: bool)
    requires
        start <= end <= s@.len(),
    ensures
        r == (s@.subrange(start as int, end as int) == lbl_reverse()),
{
    let lit = vec_reverse();
    range_eq(s, start, end, lit.as_slice())
}

/// The characters of `"italic"`, as a buffer.
fn vec_italic() -> (v: Vec<u8>)
    ensures
        v@ == lbl_italic(),
{
    let mut v: Vec<u8> = Vec::new();
    v.push(105u8);
    v.push(116u8);
    v.push(97u8);
    v.push(108u8);
    v.push(105u8);
    v.push(99u8);
    proof {
        assert(v@ =~= lbl_italic());
    }
    v
}

/// Whether `s[start..end]` spells `"italic"`.
fn kw_italic(s: &[u8], start: usize, end: usize) -> (r: bool)
    requires
        start <= end <= s@.len(),
    ensures
        r == (s@.subrange(start as int, end as int) == lbl_italic()),
{
    let lit = vec_italic();
    range_eq(s, start, end, lit.as_slice())
}

/// The characters of `"strike"`, as a buffer.
fn vec_strike() -> (v: Vec<u8>)
    ensures
        v@ == lbl_strike(),
{
    let mut v: Vec<u8> = Vec::new();
    v.push(115u8);
    v.push(116u8);
    v.push(114u8);
    v.push(105u8);
    v.push(107u8);
    v.push(101u8);
    proof {
        assert(v@ =~= lbl_strike());
    }
    v
}

/// Whether `s[start..end]` spells `"strike"`.
fn kw_strike(s: &[u8], start: usize, end: usize) -> (r: bool)
    requires
        start <= end <= s@.len(),
    ensures
        r == (s@.subrange(start as int, end as int) == lbl_strike()),
{
    let lit = vec_strike();
    range_eq(s, start, end, lit.as_slice())
}

/// The characters of `"bright"`, as a buffer.
fn vec_bright() -> (v: Vec<u8>)
    ensures
        v@ == lbl_bright(),
{
    let mut v: Vec<u8> = Vec::new();
    v.push(98u8);
    v.push(114u8);
    v.push(105u8);
    v.push(103u8);
    v.push(104u8);
    v.push(116u8);
    proof {
        assert(v@ =~= lbl_bright());
    }
    v
}

/// Whether `s[start..end]` begins with `"bright"`.
fn pre_bright(s: &[u8], start: usize, end: usize) -> (r: bool)
    requires
        start <= end <= s@.len(),
    ensures
        r == ({
            let t = s@.subrange(start as int, end as int);
            t.len() >= 6 && t.take(6) == lbl_bright()
        }),
{
    let lit = vec_bright();
    prefix_eq(s, start, end, lit.as_slice())
}

/// The characters of `"no"`, as a buffer.
fn vec_no() -> (v: Vec<u8>)
    ensures
        v@ == lbl_no(),
{
    let mut v: Vec<u8> = Vec::new();
    v.push(110u8);
    v.push(111u8);
    proof {
        assert(v@ =~= lbl_no());
    }
    v
}

/// Whether `s[start..end]` begins with `"no"`.
fn pre_no(s: &[u8], start: usize, end: usize) -> (r: bool)
    requires
        start <= end <= s@.len(),
    ensures
        r == ({
            let t = s@.subrange(start as int, end as int);
            t.len() >= 2 && t.take(2) == lbl_no()
        }),
{
    let lit = vec_no();
    prefix_eq(s, start, end, lit.as_slice())
}

/// The characters of `"no-"`, as a buffer.
fn vec_no_dash() -> (v: Vec<u8>)
    ensures
        v@ == lbl_no_dash(),
{
    let mut v: Vec<u8> = Vec::new();
    v.push(110u8);
    v.push(111u8);
    v.push(45u8);
    proof {
        assert(v@ =~= lbl_no_dash());
    }
    v
}

/// Whether `s[start..end]` begins with `"no-"`.
fn pre_no_dash(s: &[u8], start: usize, end: usize) -> (r: bool)
    requires
        start <= end <= s@.len(),
    ensures
        r == ({
            let t = s@.subrange(start as int, end as int);
            t.len() >= 3 && t.take(3) == lbl_no_dash()
        }),
{
    let lit = vec_no_dash();
    prefix_eq(s, start, end, lit.as_slice())
}

/// The value of a token as the standard library's `u8` decimal parser
/// reads it: an optional leading `+`, then digits, at most 255.
pub open spec fn parse_u8_dec(s: Seq<u8>) -> Option<u8> {
    let t = if s.len() >= 1 && s[0] == 43 {
        s.skip(1)
    } else {
        s
    };
    match parse_size(t) {
        Some(v) => if v <= 255 {
            Some(v as u8)
        } else {
            None
        },
        None => None,
    }
}

/// The value of a two-character chunk as the standard library's base-16
/// `u8` parser reads it: either two hex digits, or `+` and one.
pub open spec fn parse_hex_byte2(s: Seq<u8>) -> Option<u8>
    recommends
        s.len() == 2,
{
    if s[0] == 43 {
        hex_val(s[1])
    } else if hex_val(s[0]) is Some && hex_val(s[1]) is Some {
        Some((hex_val(s[0]).unwrap_or(0) * 16 + hex_val(s[1]).unwrap_or(0)) as u8)
    } else {
        None
    }
}

/// The color a token names: a keyword (with an optional `bright`
/// prefix), an ANSI code, or `#` and six hex characters.
pub open spec fn name_of_token(t: Seq<u8>) -> Option<Name> {
    let bright = t.len() >= 6 && t.take(6) == lbl_bright();
    let s = if bright {
        t.skip(6)
    } else {
        t
    };
    if s == lbl_normal() {
        if bright {
            None
        } else {
            Some(Name::Normal)
        }
    } else if s == lbl_default() {
        if bright {
            None
        } else {
            Some(Name::Default)
        }
    } else if s == lbl_black() {
        Some(
            if bright {
                Name::BrightBlack
            } else {
                Name::Black
            },
        )
    } else if s == lbl_red() {
        Some(
            if bright {
                Name::BrightRed
            } else {
                Name::Red
            },
        )
    } else if s == lbl_green() {
        Some(
            if bright {
                Name::BrightGreen
            } else {
                Name::Green
            },
        )
    } else if s == lbl_yellow() {
        Some(
            if bright {
                Name::BrightYellow
            } else {
                Name::Yellow
            },
        )
    } else if s == lbl_blue() {
        Some(
            if bright {
                Name::BrightBlue
            } else {
                Name::Blue
            },
        )
    } else if s == lbl_magenta() {
        Some(
            if bright {
                Name::BrightMagenta
            } else {
                Name::Magenta
            },
        )
    } else if s == lbl_cyan() {
        Some(
            if bright {
                Name::BrightCyan
            } else {
                Name::Cyan
            },
        )
    } else if s == lbl_white() {
        Some(
            if bright {
                Name::BrightWhite
            } else {
                Name::White
            },
        )
    } else if s == lbl_neg1() && !bright {
        Some(Name::Normal)
    } else if parse_u8_dec(s) is Some {
        Some(Name::Ansi(parse_u8_dec(s).unwrap_or(0)))
    } else if s.len() == 7 && s[0] == 35 && parse_hex_byte2(s.subrange(1, 3)) is Some
        && parse_hex_byte2(s.subrange(3, 5)) is Some && parse_hex_byte2(s.subrange(5, 7)) is Some {
        Some(
            Name::Rgb(
                parse_hex_byte2(s.subrange(1, 3)).unwrap_or(0),
                parse_hex_byte2(s.subrange(3, 5)).unwrap_or(0),
                parse_hex_byte2(s.subrange(5, 7)).unwrap_or(0),
            ),
        )
    } else {
        None
    }
}

/// The attribute a token names: a modifier keyword, negated by a `no-`
/// or `no` prefix.
pub open spec fn attr_of_token(t: Seq<u8>) -> Option<Attribute> {
    let inv3 = t.len() >= 3 && t.take(3) == lbl_no_dash();
    let inv2 = !inv3 && t.len() >= 2 && t.take(2) == lbl_no();
    let inv = inv3 || inv2;
    let s = if inv3 {
        t.skip(3)
    } else if inv2 {
        t.skip(2)
    } else {
        t
    };
    if s == lbl_reset() {
        if inv {
            None
        } else {
            Some(Attribute::Reset)
        }
    } else if s == lbl_bold() {
        Some(
            if inv {
                Attribute::NoBold
            } else {
                Attribute::Bold
            },
        )
    } else if s == lbl_dim() {
        Some(
            if inv {
                Attribute::NoDim
            } else {
                Attribute::Dim
            },
        )
    } else if s == lbl_ul() {
        Some(
            if inv {
                Attribute::NoUl
            } else {
                Attribute::Ul
            },
        )
    } else if s == lbl_blink() {
        Some(
            if inv {
                Attribute::NoBlink
            } else {
                Attribute::Blink
            },
        )
    } else if s == lbl_reverse() {
        Some(
            if inv {
                Attribute::NoReverse
            } else {
                Attribute::Reverse
            },
        )
    } else if s == lbl_italic() {
        Some(
            if inv {
                Attribute::NoItalic
            } else {
                Attribute::Italic
            },
        )
    } else if s == lbl_strike() {
        Some(
            if inv {
                Attribute::NoStrike
            } else {
                Attribute::Strike
            },
        )
    } else {
        None
    }
}

/// Parse `s[start..end]` as the `u8` decimal parser would.
fn parse_u8_at(s: &[u8], start: usize, end: usize) -> (r: Option<u8>)
    requires
        start <= end <= s@.len(),
    ensures
        r == parse_u8_dec(s@.subrange(start as int, end as int)),
{
    let ghost t0 = s@.subrange(start as int, end as int);
    let st = if start < end && s[start] == 43 {
        start + 1
    } else {
        start
    };
    proof {
        if start < end && s@[start as int] == 43 {
            assert(t0.skip(1) =~= s@.subrange(st as int, end as int));
        } else {
            assert(t0 =~= s@.subrange(st as int, end as int));
        }
    }
    match parse_size_bytes(s, st, end) {
        Some(v) => if v <= 255 {
            Some(v as u8)
        } else {
            None
        },
        None => None,
    }
}

/// Parse `s[i..i + 2]` as the base-16 `u8` parser would.
fn parse_hex_byte_at(s: &[u8], i: usize) -> (r: Option<u8>)
    requires
        i + 2 <= s@.len(),
    ensures
        r == parse_hex_byte2(s@.subrange(i as int, i + 2)),
{
    proof {
        let sub = s@.subrange(i as int, i + 2);
        assert(sub[0] == s@[i as int] && sub[1] == s@[i + 1]);
    }
    if s[i] == 43 {
        crate::hex::hex_val_of(s[i + 1])
    } else {
        match (crate::hex::hex_val_of(s[i]), crate::hex::hex_val_of(s[i + 1])) {
            (Some(hi), Some(lo)) => Some(hi * 16 + lo),
            _ => None,
        }
    }
}

/// Parse the token `s[start..end]` as a color name.
pub fn name_token_at(s: &[u8], start: usize, end: usize) -> (r: Option<Name>)
    requires
        start <= end <= s@.len(),
    ensures
        r == name_of_token(s@.subrange(start as int, end as int)),
{
    let ghost t = s@.subrange(start as int, end as int);
    let bright = pre_bright(s, start, end);
    let bs = if bright {
        start + 6
    } else {
        start
    };
    let ghost sstr = if bright {
        t.skip(6)
    } else {
        t
    };
    proof {
        assert(sstr =~= s@.subrange(bs as int, end as int));
    }
    if kw_normal(s, bs, end) {
        if bright {
            None
        } else {
            Some(Name::Normal)
        }
    } else if kw_default(s, bs, end) {
        if bright {
            None
        } else {
            Some(Name::Default)
        }
    } else if kw_black(s, bs, end) {
        if bright {
            Some(Name::BrightBlack)
        } else {
            Some(Name::Black)
        }
    } else if kw_red(s, bs, end) {
        if bright {
            Some(Name::BrightRed)
        } else {
            Some(Name::Red)
        }
    } else if kw_green(s, bs, end) {
        if bright {
            Some(Name::BrightGreen)
        } else {
            Some(Name::Green)
        }
    } else if kw_yellow(s, bs, end) {
        if bright {
            Some(Name::BrightYellow)
        } else {
            Some(Name::Yellow)
        }
    } else if kw_blue(s, bs, end) {
        if bright {
            Some(Name::BrightBlue)
        } else {
            Some(Name::Blue)
        }
    } else if kw_magenta(s, bs, end) {
        if bright {
            Some(Name::BrightMagenta)
        } else {
            Some(Name::Magenta)
        }
    } else if kw_cyan(s, bs, end) {
        if bright {
            Some(Name::BrightCyan)
        } else {
            Some(Name::Cyan)
        }
    } else if kw_white(s, bs, end) {
        if bright {
            Some(Name::BrightWhite)
        } else {
            Some(Name::White)
        }
    } else if kw_neg1(s, bs, end) && !bright {
        Some(Name::Normal)
    } else if let Some(v) = parse_u8_at(s, bs, end) {
        Some(Name::Ansi(v))
    } else if end - bs == 7 && s[bs] == 35 {
        proof {
            assert(sstr.subrange(1, 3) =~= s@.subrange(bs + 1, bs + 3));
            assert(sstr.subrange(3, 5) =~= s@.subrange(bs + 3, bs + 5));
            assert(sstr.subrange(5, 7) =~= s@.subrange(bs + 5, bs + 7));
        }
        match (parse_hex_byte_at(s, bs + 1), parse_hex_byte_at(s, bs + 3), parse_hex_byte_at(
            s,
            bs + 5,
        )) {
            (Some(r0), Some(g0), Some(b0)) => Some(Name::Rgb(r0, g0, b0)),
            _ => None,
        }
    } else {
        None
    }
}

/// Parse the token `s[start..end]` as a color attribute.
pub fn attr_token_at(s: &[u8], start: usize, end: usize) -> (r: Option<Attribute>)
    requires
        start <= end <= s@.len(),
    ensures
        r == attr_of_token(s@.subrange(start as int, end as int)),
{
    let ghost t = s@.subrange(start as int, end as int);
    let inv3 = pre_no_dash(s, start, end);
    let inv2 = !inv3 && pre_no(s, start, end);
    let inv = inv3 || inv2;
    let bs = if inv3 {
        start + 3
    } else if inv2 {
        start + 2
    } else {
        start
    };
    let ghost sstr = if inv3 {
        t.skip(3)
    } else if inv2 {
        t.skip(2)
    } else {
        t
    };
    proof {
        assert(sstr =~= s@.subrange(bs as int, end as int));
    }
    if kw_reset(s, bs, end) {
        if inv {
            None
        } else {
            Some(Attribute::Reset)
        }
    } else if kw_bold(s, bs, end) {
        if inv {
            Some(Attribute::NoBold)
        } else {
            Some(Attribute::Bold)
        }
    } else if kw_dim(s, bs, end) {
        if inv {
            Some(Attribute::NoDim)
        } else {
            Some(Attribute::Dim)
        }
    } else if kw_ul(s, bs, end) {
        if inv {
            Some(Attribute::NoUl)
        } else {
            Some(Attribute::Ul)
        }
    } else if kw_blink(s, bs, end) {
        if inv {
            Some(Attribute::NoBlink)
        } else {
            Some(Attribute::Blink)
        }
    } else if kw_reverse(s, bs, end) {
        if inv {
            Some(Attribute::NoReverse)
        } else {
            Some(Attribute::Reverse)
        }
    } else if kw_italic(s, bs, end) {
        if inv {
            Some(Attribute::NoItalic)
        } else {
            Some(Attribute::Italic)
        }
    } else if kw_strike(s, bs, end) {
        if inv {
            Some(Attribute::NoStrike)
        } else {
            Some(Attribute::Strike)
        }
    } else {
        None
    }
}

/// The text of a color name, as it is written back out.
pub open spec fn name_label(n: Name) -> Seq<u8> {
    match n {
        Name::Normal => lbl_normal(),
        Name::Default => lbl_default(),
        Name::Black => lbl_black(),
        Name::BrightBlack => lbl_bright() + lbl_black(),
        Name::Red => lbl_red(),
        Name::BrightRed => lbl_bright() + lbl_red(),
        Name::Green => lbl_green(),
        Name::BrightGreen => lbl_bright() + lbl_green(),
        Name::Yellow => lbl_yellow(),
        Name::BrightYellow => lbl_bright() + lbl_yellow(),
        Name::Blue => lbl_blue(),
        Name::BrightBlue => lbl_bright() + lbl_blue(),
        Name::Magenta => lbl_magenta(),
        Name::BrightMagenta => lbl_bright() + lbl_magenta(),
        Name::Cyan => lbl_cyan(),
        Name::BrightCyan => lbl_bright() + lbl_cyan(),
        Name::White => lbl_white(),
        Name::BrightWhite => lbl_bright() + lbl_white(),
        Name::Ansi(v) => dec_digits(v as nat),
        Name::Rgb(r, g, b) => seq![35u8] + hex_of_byte(r) + hex_of_byte(g) + hex_of_byte(b),
    }
}

/// The text of an attribute, negators written with a `no` prefix.
pub open spec fn attr_label(a: Attribute) -> Seq<u8> {
    match a {
        Attribute::Reset => lbl_reset(),
        Attribute::Bold => lbl_bold(),
        Attribute::NoBold => lbl_no() + lbl_bold(),
        Attribute::Dim => lbl_dim(),
        Attribute::NoDim => lbl_no() + lbl_dim(),
        Attribute::Ul => lbl_ul(),
        Attribute::NoUl => lbl_no() + lbl_ul(),
        Attribute::Blink => lbl_blink(),
        Attribute::NoBlink => lbl_no() + lbl_blink(),
        Attribute::Reverse => lbl_reverse(),
        Attribute::NoReverse => lbl_no() + lbl_reverse(),
        Attribute::Italic => lbl_italic(),
        Attribute::NoItalic => lbl_no() + lbl_italic(),
        Attribute::Strike => lbl_strike(),
        Attribute::NoStrike => lbl_no() + lbl_strike(),
    }
}

/// Append the text of a color name to `out`.
pub fn push_name_label(n: Name, out: &mut Vec<u8>)
    ensures
        final(out)@ == old(out)@ + name_label(n),
{
    match n {
        Name::Normal => {
            out.push(110u8);
            out.push(111u8);
            out.push(114u8);
            out.push(109u8);
            out.push(97u8);
            out.push(108u8);
        },
        Name::Default => {
            out.push(100u8);
            out.push(101u8);
            out.push(102u8);
            out.push(97u8);
            out.push(117u8);
            out.push(108u8);
            out.push(116u8);
        },
        Name::Black => {
            out.push(98u8);
            out.push(108u8);
            out.push(97u8);
            out.push(99u8);
            out.push(107u8);
        },
        Name::BrightBlack => {
            out.push(98u8);
            out.push(114u8);
            out.push(105u8);
            out.push(103u8);
            out.push(104u8);
            out.push(116u8);
            out.push(98u8);
            out.push(108u8);
            out.push(97u8);
            out.push(99u8);
            out.push(107u8);
        },
        Name::Red => {
            out.push(114u8);
            out.push(101u8);
            out.push(100u8);
        },
        Name::BrightRed => {
            out.push(98u8);
            out.push(114u8);
            out.push(105u8);
            out.push(103u8);
            out.push(104u8);
            out.push(116u8);
            out.push(114u8);
            out.push(101u8);
            out.push(100u8);
        },
        Name::Green => {
            out.push(103u8);
            out.push(114u8);
            out.push(101u8);
            out.push(101u8);
            out.push(110u8);
        },
        Name::BrightGreen => {
            out.push(98u8);
            out.push(114u8);
            out.push(105u8);
            out.push(103u8);
            out.push(104u8);
            out.push(116u8);
            out.push(103u8);
            out.push(114u8);
            out.push(101u8);
            out.push(101u8);
            out.push(110u8);
        },
        Name::Yellow => {
            out.push(121u8);
            out.push(101u8);
            out.push(108u8);
            out.push(108u8);
            out.push(111u8);
            out.push(119u8);
        },
        Name::BrightYellow => {
            out.push(98u8);
            out.push(114u8);
            out.push(105u8);
            out.push(103u8);
            out.push(104u8);
            out.push(116u8);
            out.push(121u8);
            out.push(101u8);
            out.push(108u8);
            out.push(108u8);
            out.push(111u8);
            out.push(119u8);
        },
        Name::Blue => {
            out.push(98u8);
            out.push(108u8);
            out.push(117u8);
            out.push(101u8);
        },
        Name::BrightBlue => {
            out.push(98u8);
            out.push(114u8);
            out.push(105u8);
            out.push(103u8);
            out.push(104u8);
            out.push(116u8);
            out.push(98u8);
            out.push(108u8);
            out.push(117u8);
            out.push(101u8);
        },
        Name::Magenta => {
            out.push(109u8);
            out.push(97u8);
            out.push(103u8);
            out.push(101u8);
            out.push(110u8);
            out.push(116u8);
            out.push(97u8);
        },
        Name::BrightMagenta => {
            out.push(98u8);
            out.push(114u8);
            out.push(105u8);
            out.push(103u8);
            out.push(104u8);
            out.push(116u8);
            out.push(109u8);
            out.push(97u8);
            out.push(103u8);
            out.push(101u8);
            out.push(110u8);
            out.push(116u8);
            out.push(97u8);
        },
        Name::Cyan => {
            out.push(99u8);
            out.push(121u8);
            out.push(97u8);
            out.push(110u8);
        },
        Name::BrightCyan => {
            out.push(98u8);
            out.push(114u8);
            out.push(105u8);
            out.push(103u8);
            out.push(104u8);
            out.push(116u8);
            out.push(99u8);
            out.push(121u8);
            out.push(97u8);
            out.push(110u8);
        },
        Name::White => {
            out.push(119u8);
            out.push(104u8);
            out.push(105u8);
            out.push(116u8);
            out.push(101u8);
        },
        Name::BrightWhite => {
            out.push(98u8);
            out.push(114u8);
            out.push(105u8);
            out.push(103u8);
            out.push(104u8);
            out.push(116u8);
            out.push(119u8);
            out.push(104u8);
            out.push(105u8);
            out.push(116u8);
            out.push(101u8);
        },
        Name::Ansi(v) => {
            push_decimal(v as u64, out);
        },
        Name::Rgb(r, g, b) => {
            out.push(35u8);
            out.push(crate::hex::hex_digit_of(r / 16));
            out.push(crate::hex::hex_digit_of(r % 16));
            out.push(crate::hex::hex_digit_of(g / 16));
            out.push(crate::hex::hex_digit_of(g % 16));
            out.push(crate::hex::hex_digit_of(b / 16));
            out.push(crate::hex::hex_digit_of(b % 16));
        },
    }
    proof {
        assert(out@ =~= old(out)@ + name_label(n));
    }
}

/// Append the text of an attribute to `out`.
pub fn push_attr_label(a: Attribute, out: &mut Vec<u8>)
    ensures
        final(out)@ == old(out)@ + attr_label(a),
{
    match a {
        Attribute::Reset => {
            out.push(114u8);
            out.push(101u8);
            out.push(115u8);
            out.push(101u8);
            out.push(116u8);
        },
        Attribute::Bold => {
            out.push(98u8);
            out.push(111u8);
            out.push(108u8);
            out.push(100u8);
        },
        Attribute::NoBold => {
            out.push(110u8);
            out.push(111u8);
            out.push(98u8);
            out.push(111u8);
            out.push(108u8);
            out.push(100u8);
        },
        Attribute::Dim => {
            out.push(100u8);
            out.push(105u8);
            out.push(109u8);
        },
        Attribute::NoDim => {
            out.push(110u8);
            out.push(111u8);
            out.push(100u8);
            out.push(105u8);
            out.push(109u8);
        },
        Attribute::Ul => {
            out.push(117u8);
            out.push(108u8);
        },
        Attribute::NoUl => {
            out.push(110u8);
            out.push(111u8);
            out.push(117u8);
            out.push(108u8);
        },
        Attribute::Blink => {
            out.push(98u8);
            out.push(108u8);
            out.push(105u8);
            out.push(110u8);
            out.push(107u8);
        },
        Attribute::NoBlink => {
            out.push(110u8);
            out.push(111u8);
            out.push(98u8);
            out.push(108u8);
            out.push(105u8);
            out.push(110u8);
            out.push(107u8);
        },
        Attribute::Reverse => {
            out.push(114u8);
            out.push(101u8);
            out.push(118u8);
            out.push(101u8);
            out.push(114u8);
            out.push(115u8);
            out.push(101u8);
        },
        Attribute::NoReverse => {
            out.push(110u8);
            out.push(111u8);
            out.push(114u8);
            out.push(101u8);
            out.push(118u8);
            out.push(101u8);
            out.push(114u8);
            out.push(115u8);
            out.push(101u8);
        },
        Attribute::Italic => {
            out.push(105u8);
            out.push(116u8);
            out.push(97u8);
            out.push(108u8);
            out.push(105u8);
            out.push(99u8);
        },
        Attribute::NoItalic => {
            out.push(110u8);
            out.push(111u8);
            out.push(105u8);
            out.push(116u8);
            out.push(97u8);
            out.push(108u8);
            out.push(105u8);
            out.push(99u8);
        },
        Attribute::Strike => {
            out.push(115u8);
            out.push(116u8);
            out.push(114u8);
            out.push(105u8);
            out.push(107u8);
            out.push(101u8);
        },
        Attribute::NoStrike => {
            out.push(110u8);
            out.push(111u8);
            out.push(115u8);
            out.push(116u8);
            out.push(114u8);
            out.push(105u8);
            out.push(107u8);
            out.push(101u8);
        },
    }
    proof {
        assert(out@ =~= old(out)@ + attr_label(a));
    }
}

impl Name {
    /// Parse one token as a color name, or reject it.
    pub fn parse_bytes(s: &[u8]) -> (r: Result<Name, ValueError>)
        ensures
            name_of_token(s@) matches Some(n) ==> r == Ok::<Name, ValueError>(n),
            name_of_token(s@) is None ==> (r matches Err(e) && e.input@ == s@),
    {
        proof {
            assert(s@.subrange(0, s@.len() as int) =~= s@);
        }
        match name_token_at(s, 0, s.len()) {
            Some(n) => Ok(n),
            None => Err(color_err(s)),
        }
    }
}

impl Attribute {
    /// Parse one token as a color attribute, or reject it.
    pub fn parse_bytes(s: &[u8]) -> (r: Result<Attribute, ValueError>)
        ensures
            attr_of_token(s@) matches Some(a) ==> r == Ok::<Attribute, ValueError>(a),
            attr_of_token(s@) is None ==> (r matches Err(e) && e.input@ == s@),
    {
        proof {
            assert(s@.subrange(0, s@.len() as int) =~= s@);
        }
        match attr_token_at(s, 0, s.len()) {
            Some(a) => Ok(a),
            None => Err(color_err(s)),
        }
    }
}

/// The length of the whitespace separator encoded at `s[i..]`: the UTF-8
/// encoding of one of the Unicode white-space characters, or 0 when none
/// starts there. In well-formed UTF-8 no separator's first byte can occur
/// inside another character's encoding, so matching positions byte-wise
/// splits exactly where a character-wise scan would.
pub open spec fn space_at(s: Seq<u8>, i: int) -> int {
    if i < 0 || i >= s.len() {
        0
    } else if s[i] == 9 || s[i] == 10 || s[i] == 11 || s[i] == 12 || s[i] == 13 || s[i] == 32 {
        1
    } else if i + 2 <= s.len() && s[i] == 0xc2 && (s[i + 1] == 0x85 || s[i + 1] == 0xa0) {
        2
    } else if i + 3 <= s.len() && s[i] == 0xe1 && s[i + 1] == 0x9a && s[i + 2] == 0x80 {
        3
    } else if i + 3 <= s.len() && s[i] == 0xe2 && s[i + 1] == 0x80 && (0x80 <= s[i + 2] <= 0x8a
        || s[i + 2] == 0xa8 || s[i + 2] == 0xa9 || s[i + 2] == 0xaf) {
        3
    } else if i + 3 <= s.len() && s[i] == 0xe2 && s[i + 1] == 0x81 && s[i + 2] == 0x9f {
        3
    } else if i + 3 <= s.len() && s[i] == 0xe3 && s[i + 1] == 0x80 && s[i + 2] == 0x80 {
        3
    } else {
        0
    }
}

/// The length of the whitespace separator at `s[i..]`, or 0.
fn space_len_at(s: &[u8], i: usize) -> (r: usize)
    requires
        i <= s@.len(),
    ensures
        r == space_at(s@, i as int),
{
    let n = s.len();
    if i >= n {
        return 0;
    }
    let b = s[i];
    if b == 9 || b == 10 || b == 11 || b == 12 || b == 13 || b == 32 {
        return 1;
    }
    if n - i >= 2 && b == 0xc2 && (s[i + 1] == 0x85 || s[i + 1] == 0xa0) {
        return 2;
    }
    if n - i >= 3 {
        let b1 = s[i + 1];
        let b2 = s[i + 2];
        if b == 0xe1 && b1 == 0x9a && b2 == 0x80 {
            return 3;
        }
        if b == 0xe2 && b1 == 0x80 && ((0x80 <= b2 && b2 <= 0x8a) || b2 == 0xa8 || b2 == 0xa9
            || b2 == 0xaf) {
            return 3;
        }
        if b == 0xe2 && b1 == 0x81 && b2 == 0x9f {
            return 3;
        }
        if b == 0xe3 && b1 == 0x80 && b2 == 0x80 {
            return 3;
        }
    }
    0
}

/// The position right after the token starting at `i`: the next
/// whitespace separator, or the end of the input.
pub open spec fn token_end(s: Seq<u8>, i: int) -> int
    decreases s.len() - i
        when 0 <= i <= s.len()
{
    if i >= s.len() || space_at(s, i) > 0 {
        i
    } else {
        token_end(s, i + 1)
    }
}

proof fn lemma_token_end(s: Seq<u8>, i: int)
    requires
        0 <= i <= s.len(),
    ensures
        i <= token_end(s, i) <= s.len(),
        forall|k: int| i <= k < token_end(s, i) ==> #[trigger] space_at(s, k) == 0,
        token_end(s, i) < s.len() ==> space_at(s, token_end(s, i)) > 0,
        (i < s.len() && space_at(s, i) == 0) ==> token_end(s, i) > i,
    decreases s.len() - i,
{
    if i < s.len() && space_at(s, i) == 0 {
        lemma_token_end(s, i + 1);
    }
}

proof fn lemma_token_end_is(s: Seq<u8>, i: int, j: int)
    requires
        0 <= i <= j <= s.len(),
        forall|k: int| i <= k < j ==> #[trigger] space_at(s, k) == 0,
        j == s.len() || space_at(s, j) > 0,
    ensures
        token_end(s, i) == j,
    decreases j - i,
{
    if i < j {
        lemma_token_end_is(s, i + 1, j);
    }
}

/// What parsing `s` from position `i` onward must yield, given the parts
/// gathered so far: tokens are color names while a foreground and then a
/// background slot is free, attributes always; a third color name or an
/// unrecognized token rejects the whole input.
pub open spec fn color_fold(
    s: Seq<u8>,
    i: int,
    fg: Option<Name>,
    bg: Option<Name>,
    attrs: Seq<Attribute>,
) -> Option<(Option<Name>, Option<Name>, Seq<Attribute>)>
    decreases s.len() - i
        when 0 <= i <= s.len()
        via color_fold_decreases
{
    if i >= s.len() {
        Some((fg, bg, attrs))
    } else if space_at(s, i) > 0 {
        color_fold(s, i + space_at(s, i), fg, bg, attrs)
    } else {
        let j = token_end(s, i);
        let t = s.subrange(i, j);
        match name_of_token(t) {
            Some(n) => if fg is None {
                color_fold(s, j, Some(n), bg, attrs)
            } else if bg is None {
                color_fold(s, j, fg, Some(n), attrs)
            } else {
                None
            },
            None => match attr_of_token(t) {
                Some(a) => color_fold(s, j, fg, bg, attrs.push(a)),
                None => None,
            },
        }
    }
}

#[via_fn]
proof fn color_fold_decreases(
    s: Seq<u8>,
    i: int,
    fg: Option<Name>,
    bg: Option<Name>,
    attrs: Seq<Attribute>,
) {
    if 0 <= i < s.len() {
        if space_at(s, i) > 0 {
            assert(i + space_at(s, i) <= s.len());
        } else {
            lemma_token_end(s, i);
        }
    }
}

/// A color value: an optional foreground, an optional background, and
/// the attributes given, in order.
#[derive(Clone, Debug)]
pub struct Color {
    pub foreground: Option<Name>,
    pub background: Option<Name>,
    pub attributes: Vec<Attribute>,
}

impl Default for Color {
    /// The empty color: no foreground, no background, no attributes.
    fn default() -> (r: Color)
        ensures
            r.foreground is None,
            r.background is None,
            r.attributes@ == Seq::<Attribute>::empty(),
    {
        Color { foreground: None, background: None, attributes: Vec::new() }
    }
}

impl PartialEq for Color {
    /// Colors are equal iff all three parts are equal.
    fn eq(&self, other: &Color) -> (r: bool) {
        let fg_eq = match (self.foreground, other.foreground) {
            (None, None) => true,
            (Some(a), Some(b)) => a == b,
            _ => false,
        };
        let bg_eq = match (self.background, other.background) {
            (None, None) => true,
            (Some(a), Some(b)) => a == b,
            _ => false,
        };
        if !fg_eq || !bg_eq {
            return false;
        }
        let n = self.attributes.len();
        if n != other.attributes.len() {
            return false;
        }
        let mut i: usize = 0;
        while i < n
            invariant
                i <= n,
                n == self.attributes@.len() == other.attributes@.len(),
                forall|j: int| 0 <= j < i ==> self.attributes@[j] == other.attributes@[j],
            decreases n - i,
        {
            if !(self.attributes[i] == other.attributes[i]) {
                return false;
            }
            i += 1;
        }
        proof {
            assert(self.attributes@ =~= other.attributes@);
        }
        true
    }
}

impl vstd::std_specs::cmp::PartialEqSpecImpl for Color {
    open spec fn obeys_eq_spec() -> bool {
        true
    }

    open spec fn eq_spec(&self, other: &Color) -> bool {
        self.foreground == other.foreground && self.background == other.background
            && self.attributes@ == other.attributes@
    }
}

impl Eq for Color {}

impl Color {
    /// Parse a color value from whitespace-separated tokens.
    pub fn from_bytes(s: &[u8]) -> (r: Result<Color, ValueError>)
        ensures
            color_fold(s@, 0, None, None, Seq::empty()) matches Some(t) ==> (r matches Ok(c)
                && c.foreground == t.0 && c.background == t.1 && c.attributes@ == t.2),
            color_fold(s@, 0, None, None, Seq::empty()) is None ==> (r matches Err(e) && e.input@
                == s@),
    {
        let n = s.len();
        let mut fg: Option<Name> = None;
        let mut bg: Option<Name> = None;
        let mut attrs: Vec<Attribute> = Vec::new();
        let mut i: usize = 0;
        while i < n
            invariant
                i <= n,
                n == s@.len(),
                color_fold(s@, 0, None, None, Seq::empty()) == color_fold(
                    s@,
                    i as int,
                    fg,
                    bg,
                    attrs@,
                ),
            decreases n - i,
        {
            let sl = space_len_at(s, i);
            if sl > 0 {
                proof {
                    assert(space_at(s@, i as int) <= n - i);
                }
                i += sl;
            } else {
                let mut j: usize = i + 1;
                while j < n && space_len_at(s, j) == 0
                    invariant
                        i < j <= n,
                        n == s@.len(),
                        space_at(s@, i as int) == 0,
                        forall|k: int| i < k < j ==> #[trigger] space_at(s@, k) == 0,
                    decreases n - j,
                {
                    j += 1;
                }
                proof {
                    lemma_token_end_is(s@, i as int, j as int);
                }
                match name_token_at(s, i, j) {
                    Some(nm) => {
                        if fg.is_none() {
                            fg = Some(nm);
                        } else if bg.is_none() {
                            bg = Some(nm);
                        } else {
                            return Err(color_err(s));
                        }
                    },
                    None => {
                        match attr_token_at(s, i, j) {
                            Some(a) => {
                                attrs.push(a);
                            },
                            None => {
                                return Err(color_err(s));
                            },
                        }
                    },
                }
                i = j;
            }
        }
        Ok(Color { foreground: fg, background: bg, attributes: attrs })
    }

    /// The text the color is written back out as: foreground, background,
    /// and attributes, space-separated, in that order.
    pub fn to_text_bytes(&self) -> (r: Vec<u8>)
        ensures
            r@ == color_text(self.foreground, self.background, self.attributes@),
    {
        let mut out: Vec<u8> = Vec::new();
        let ghost mut parts: Seq<Seq<u8>> = Seq::empty();
        let mut wrote = false;
        if let Some(nm) = self.foreground {
            push_name_label(nm, &mut out);
            proof {
                lemma_join_snoc(parts, name_label(nm));
                parts = parts.push(name_label(nm));
            }
            wrote = true;
        }
        if let Some(nm) = self.background {
            if wrote {
                out.push(32u8);
            }
            push_name_label(nm, &mut out);
            proof {
                lemma_join_snoc(parts, name_label(nm));
                parts = parts.push(name_label(nm));
            }
            wrote = true;
        }
        proof {
            assert(parts =~= opt_label(self.foreground) + opt_label(self.background) + attr_labels(
                self.attributes@.take(0),
            ));
        }
        let alen = self.attributes.len();
        let mut i: usize = 0;
        while i < alen
            invariant
                i <= alen,
                alen == self.attributes@.len(),
                out@ == join_parts(parts),
                wrote == (parts.len() > 0),
                parts == opt_label(self.foreground) + opt_label(self.background) + attr_labels(
                    self.attributes@.take(i as int),
                ),
            decreases alen - i,
        {
            let a = self.attributes[i];
            if wrote {
                out.push(32u8);
            }
            push_attr_label(a, &mut out);
            proof {
                lemma_join_snoc(parts, attr_label(a));
                parts = parts.push(attr_label(a));
                assert(attr_labels(self.attributes@.take(i + 1)) =~= attr_labels(
                    self.attributes@.take(i as int),
                ).push(attr_label(self.attributes@[i as int])));
                assert(parts =~= opt_label(self.foreground) + opt_label(self.background)
                    + attr_labels(self.attributes@.take(i + 1)));
            }
            wrote = true;
            i += 1;
        }
        proof {
            assert(self.attributes@.take(alen as int) =~= self.attributes@);
        }
        out
    }
}

/// The labels of the color names that are present.
pub open spec fn opt_label(n: Option<Name>) -> Seq<Seq<u8>> {
    match n {
        Some(v) => seq![name_label(v)],
        None => Seq::empty(),
    }
}

/// The labels of a run of attributes.
pub open spec fn attr_labels(attrs: Seq<Attribute>) -> Seq<Seq<u8>> {
    attrs.map_values(|a: Attribute| attr_label(a))
}

/// All the labels a color writes, in order.
pub open spec fn color_parts(fg: Option<Name>, bg: Option<Name>, attrs: Seq<Attribute>) -> Seq<
    Seq<u8>,
> {
    opt_label(fg) + opt_label(bg) + attr_labels(attrs)
}

/// The labels joined with single spaces.
pub open spec fn join_parts(ls: Seq<Seq<u8>>) -> Seq<u8>
    decreases ls.len(),
{
    if ls.len() == 0 {
        Seq::empty()
    } else if ls.len() == 1 {
        ls[0]
    } else {
        ls[0] + seq![32u8] + join_parts(ls.skip(1))
    }
}

/// The text a color writes: its labels joined with single spaces.
pub open spec fn color_text(fg: Option<Name>, bg: Option<Name>, attrs: Seq<Attribute>) -> Seq<
    u8,
> {
    join_parts(color_parts(fg, bg, attrs))
}

proof fn lemma_join_snoc(ls: Seq<Seq<u8>>, x: Seq<u8>)
    ensures
        join_parts(ls.push(x)) == if ls.len() == 0 {
            x
        } else {
            join_parts(ls) + seq![32u8] + x
        },
    decreases ls.len(),
{
    if ls.len() == 0 {
        assert(join_parts(ls.push(x)) == ls.push(x)[0]);
    } else if ls.len() == 1 {
        assert(ls.push(x).skip(1) =~= seq![x]);
        assert(join_parts(seq![x]) == x);
        assert(join_parts(ls.push(x)) == ls.push(x)[0] + seq![32u8] + join_parts(
            ls.push(x).skip(1),
        ));
    } else {
        assert(ls.push(x).skip(1) =~= ls.skip(1).push(x));
        lemma_join_snoc(ls.skip(1), x);
        assert(join_parts(ls.push(x)) == ls.push(x)[0] + seq![32u8] + join_parts(
            ls.push(x).skip(1),
        ));
    }
}

} // verus!
