//! Character palettes the drops draw their glyphs from, the block
//! glyphs used for transient glitches, and the palette lookup by name.

use vstd::prelude::*;
use vstd::string::StringSliceAdditionalSpecFns;

verus! {

/// The halfwidth katakana palette.
pub open spec fn katakana_seq() -> Seq<char> {
    seq![
        'ｱ', 'ｲ', 'ｳ', 'ｴ', 'ｵ', 'ｶ', 'ｷ', 'ｸ', 'ｹ', 'ｺ', 'ｻ', 'ｼ', 'ｽ', 'ｾ', 'ｿ', 'ﾀ',
        'ﾁ', 'ﾂ', 'ﾃ', 'ﾄ', 'ﾅ', 'ﾆ', 'ﾇ', 'ﾈ', 'ﾉ', 'ﾊ', 'ﾋ', 'ﾌ', 'ﾍ', 'ﾎ', 'ﾏ', 'ﾐ',
        'ﾑ', 'ﾒ', 'ﾓ', 'ﾔ', 'ﾕ', 'ﾖ', 'ﾗ', 'ﾘ', 'ﾙ', 'ﾚ', 'ﾛ', 'ﾜ', 'ﾝ',
    ]
}

/// The digits-and-capitals palette.
pub open spec fn alphanumeric_seq() -> Seq<char> {
    seq![
        '0', '1', '2', '3', '4', '5', '6', '7', '8', '9', 'A', 'B', 'C', 'D', 'E', 'F',
        'G', 'H', 'I', 'J', 'K', 'L', 'M', 'N', 'O', 'P', 'Q', 'R', 'S', 'T', 'U', 'V',
        'W', 'X', 'Y', 'Z',
    ]
}

/// The box-drawing and punctuation palette.
pub open spec fn symbols_seq() -> Seq<char> {
    seq![
        ':', '·', '¦', '‡', '†', '°', '¤', '═', '║', '╔', '╗', '╚', '╝', '╠', '╣', '╦',
        '╩', '╬',
    ]
}

/// The capital Greek letters palette.
pub open spec fn greek_seq() -> Seq<char> {
    seq![
        'Α', 'Β', 'Γ', 'Δ', 'Ε', 'Ζ', 'Η', 'Θ', 'Ι', 'Κ', 'Λ', 'Μ', 'Ν', 'Ξ', 'Ο', 'Π',
        'Ρ', 'Σ', 'Τ', 'Υ', 'Φ', 'Χ', 'Ψ', 'Ω',
    ]
}

/// The classic palette: all four palettes in order.
pub open spec fn classic_seq() -> Seq<char> {
    katakana_seq() + alphanumeric_seq() + symbols_seq() + greek_seq()
}

/// The glyphs a glitch shows in place of the stored one.
pub open spec fn glitch_seq() -> Seq<char> {
    seq!['▒', '▓', '░', '█']
}

pub fn matrix_chars_katakana() -> (r: Vec<char>)
    ensures
        r@ == katakana_seq(),
{
    let r: Vec<char> = vec![
        'ｱ', 'ｲ', 'ｳ', 'ｴ', 'ｵ', 'ｶ', 'ｷ', 'ｸ', 'ｹ', 'ｺ', 'ｻ', 'ｼ', 'ｽ', 'ｾ', 'ｿ', 'ﾀ',
        'ﾁ', 'ﾂ', 'ﾃ', 'ﾄ', 'ﾅ', 'ﾆ', 'ﾇ', 'ﾈ', 'ﾉ', 'ﾊ', 'ﾋ', 'ﾌ', 'ﾍ', 'ﾎ', 'ﾏ', 'ﾐ',
        'ﾑ', 'ﾒ', 'ﾓ', 'ﾔ', 'ﾕ', 'ﾖ', 'ﾗ', 'ﾘ', 'ﾙ', 'ﾚ', 'ﾛ', 'ﾜ', 'ﾝ',
    ];
    assert(r@ =~= katakana_seq());
    r
}

pub fn matrix_chars_alphanumeric() -> (r: Vec<char>)
    ensures
        r@ == alphanumeric_seq(),
{
    let r: Vec<char> = vec![
        '0', '1', '2', '3', '4', '5', '6', '7', '8', '9', 'A', 'B', 'C', 'D', 'E', 'F',
        'G', 'H', 'I', 'J', 'K', 'L', 'M', 'N', 'O', 'P', 'Q', 'R', 'S', 'T', 'U', 'V',
        'W', 'X', 'Y', 'Z',
    ];
    assert(r@ =~= alphanumeric_seq());
    r
}

pub fn matrix_chars_symbols() -> (r: Vec<char>)
    ensures
        r@ == symbols_seq(),
{
    let r: Vec<char> = vec![
        ':', '·', '¦', '‡', '†', '°', '¤', '═', '║', '╔', '╗', '╚', '╝', '╠', '╣', '╦',
        '╩', '╬',
    ];
    assert(r@ =~= symbols_seq());
    r
}

pub fn matrix_chars_greek() -> (r: Vec<char>)
    ensures
        r@ == greek_seq(),
{
    let r: Vec<char> = vec![
        'Α', 'Β', 'Γ', 'Δ', 'Ε', 'Ζ', 'Η', 'Θ', 'Ι', 'Κ', 'Λ', 'Μ', 'Ν', 'Ξ', 'Ο', 'Π',
        'Ρ', 'Σ', 'Τ', 'Υ', 'Φ', 'Χ', 'Ψ', 'Ω',
    ];
    assert(r@ =~= greek_seq());
    r
}

/// All four palettes concatenated, used for the "classic" look.
pub fn matrix_chars_classic() -> (r: Vec<char>)
    ensures
        r@ == classic_seq(),
{
    let mut r = matrix_chars_katakana();
    let mut a = matrix_chars_alphanumeric();
    let mut s = matrix_chars_symbols();
    let mut g = matrix_chars_greek();
    r.append(&mut a);
    r.append(&mut s);
    r.append(&mut g);
    r
}

/// The block glyphs used for glitches.
pub fn glitch_chars() -> (r: Vec<char>)
    ensures
        r@ == glitch_seq(),
{
    let r: Vec<char> = vec!['▒', '▓', '░', '█'];
    assert(r@ =~= glitch_seq());
    r
}

/// An ASCII capital letter folded to its small form; other bytes kept.
pub open spec fn lower_u8(b: u8) -> u8 {
    if 65 <= b <= 90 {
        (b + 32) as u8
    } else {
        b
    }
}

/// A byte string with every ASCII capital folded to its small form.
pub open spec fn lower_bytes(s: Seq<u8>) -> Seq<u8> {
    s.map_values(|b: u8| lower_u8(b))
}

/// The bytes of the name "katakana".
pub open spec fn name_katakana() -> Seq<u8> {
    seq![107u8, 97u8, 116u8, 97u8, 107u8, 97u8, 110u8, 97u8]
}

/// The bytes of the name "alphanumeric".
pub open spec fn name_alphanumeric() -> Seq<u8> {
    seq![97u8, 108u8, 112u8, 104u8, 97u8, 110u8, 117u8, 109u8, 101u8, 114u8, 105u8, 99u8]
}

/// The bytes of the name "symbols".
pub open spec fn name_symbols() -> Seq<u8> {
    seq![115u8, 121u8, 109u8, 98u8, 111u8, 108u8, 115u8]
}

/// The bytes of the name "greek".
pub open spec fn name_greek() -> Seq<u8> {
    seq![103u8, 114u8, 101u8, 101u8, 107u8]
}

fn lower_byte(b: u8) -> (r: u8)
    ensures
        r == lower_u8(b),
{
    if 65 <= b && b <= 90 {
        b + 32
    } else {
        b
    }
}

/// Whether `name`, compared without regard to ASCII case, spells the
/// keyword bytes in `kw`.
fn name_is(name: &str, kw: &Vec<u8>) -> (r: bool)
    ensures
        r == (lower_bytes(name.spec_bytes()) == kw@),
{
    let bytes = name.as_bytes();
    if bytes.len() != kw.len() {
        assert(lower_bytes(name.spec_bytes()).len() == name.spec_bytes().len());
        return false;
    }
    let n = bytes.len();
    let mut i: usize = 0;
    while i < n
        invariant
            n == bytes@.len(),
            n == kw@.len(),
            bytes@ == name.spec_bytes(),
            i <= n,
            forall|j: int| 0 <= j < i ==> lower_u8(bytes@[j]) == kw@[j],
        decreases n - i,
    {
        if lower_byte(bytes[i]) != kw[i] {
            assert(lower_bytes(name.spec_bytes())[i as int] != kw@[i as int]);
            return false;
        }
        i += 1;
    }
    assert(lower_bytes(name.spec_bytes()) =~= kw@);
    true
}

/// Looks a palette up by name, without regard to ASCII case. Unknown
/// names, "classic" among them, give the combined classic palette.
pub fn get_charset_by_name(name: &str) -> (r: Vec<char>)
    ensures
        lower_bytes(name.spec_bytes()) == name_katakana() ==> r@ == katakana_seq(),
        lower_bytes(name.spec_bytes()) == name_alphanumeric() ==> r@ == alphanumeric_seq(),
        lower_bytes(name.spec_bytes()) == name_symbols() ==> r@ == symbols_seq(),
        lower_bytes(name.spec_bytes()) == name_greek() ==> r@ == greek_seq(),
        lower_bytes(name.spec_bytes()) != name_katakana() && lower_bytes(name.spec_bytes())
            != name_alphanumeric() && lower_bytes(name.spec_bytes()) != name_symbols()
            && lower_bytes(name.spec_bytes()) != name_greek() ==> r@ == classic_seq(),
        r@.len() > 0,
{
    let kw_katakana: Vec<u8> = vec![107u8, 97u8, 116u8, 97u8, 107u8, 97u8, 110u8, 97u8];
    assert(kw_katakana@ =~= name_katakana());
    let kw_alphanumeric: Vec<u8> = vec![
        97u8, 108u8, 112u8, 104u8, 97u8, 110u8, 117u8, 109u8, 101u8, 114u8, 105u8, 99u8,
    ];
    assert(kw_alphanumeric@ =~= name_alphanumeric());
    let kw_symbols: Vec<u8> = vec![115u8, 121u8, 109u8, 98u8, 111u8, 108u8, 115u8];
    assert(kw_symbols@ =~= name_symbols());
    let kw_greek: Vec<u8> = vec![103u8, 114u8, 101u8, 101u8, 107u8];
    assert(kw_greek@ =~= name_greek());
    if name_is(name, &kw_katakana) {
        matrix_chars_katakana()
    } else if name_is(name, &kw_alphanumeric) {
        matrix_chars_alphanumeric()
    } else if name_is(name, &kw_symbols) {
        matrix_chars_symbols()
    } else if name_is(name, &kw_greek) {
        matrix_chars_greek()
    } else {
        matrix_chars_classic()
    }
}

} // verus!
