//! Engine-defined text styles and the terminal control sequences that
//! switch them on and off. Style id 0 is reserved for the selection and
//! means "invert colors" rather than an explicit color pair.

use vstd::prelude::*;

verus! {

/// A style definition pushed by the engine: an id and optional colors and
/// attributes. Colors are 32-bit ARGB values.
#[derive(Clone, Copy, Debug)]
pub struct Style {
    pub id: u64,
    pub fg_color: Option<u32>,
    pub bg_color: Option<u32>,
    pub weight: Option<u32>,
    pub italic: Option<bool>,
    pub underline: Option<bool>,
}

impl Default for Style {
    /// The style every field of which is unset, under id 0.
    fn default() -> (s: Style)
        ensures
            s.id == 0,
            s.fg_color is None,
            s.bg_color is None,
            s.weight is None,
            s.italic is None,
            s.underline is None,
    {
        Style {
            id: 0,
            fg_color: None,
            bg_color: None,
            weight: None,
            italic: None,
            underline: None,
        }
    }
}

pub open spec fn spec_digit_char(d: int) -> char {
    if d == 0 {
        '0'
    } else if d == 1 {
        '1'
    } else if d == 2 {
        '2'
    } else if d == 3 {
        '3'
    } else if d == 4 {
        '4'
    } else if d == 5 {
        '5'
    } else if d == 6 {
        '6'
    } else if d == 7 {
        '7'
    } else if d == 8 {
        '8'
    } else {
        '9'
    }
}

/// The decimal digits of a byte value, most significant first, without
/// leading zeros.
pub open spec fn spec_dec_u8(n: int) -> Seq<char> {
    if n < 10 {
        seq![spec_digit_char(n)]
    } else if n < 100 {
        seq![spec_digit_char(n / 10), spec_digit_char(n % 10)]
    } else {
        seq![spec_digit_char(n / 100), spec_digit_char((n / 10) % 10), spec_digit_char(n % 10)]
    }
}

/// The red, green and blue channels of a 32-bit ARGB color.
pub open spec fn spec_red(c: u32) -> int {
    ((c & 0x00ff_0000) >> 16) as int
}

pub open spec fn spec_green(c: u32) -> int {
    ((c & 0x0000_ff00) >> 8) as int
}

pub open spec fn spec_blue(c: u32) -> int {
    (c & 0x0000_00ff) as int
}

/// The control sequence selecting a 24-bit foreground color.
pub open spec fn spec_rgb_fg(c: u32) -> Seq<char> {
    seq!['\u{1b}', '[', '3', '8', ';', '2', ';'] + spec_dec_u8(spec_red(c)) + seq![';']
        + spec_dec_u8(spec_green(c)) + seq![';'] + spec_dec_u8(spec_blue(c)) + seq!['m']
}

/// The control sequence selecting a 24-bit background color.
pub open spec fn spec_rgb_bg(c: u32) -> Seq<char> {
    seq!['\u{1b}', '[', '4', '8', ';', '2', ';'] + spec_dec_u8(spec_red(c)) + seq![';']
        + spec_dec_u8(spec_green(c)) + seq![';'] + spec_dec_u8(spec_blue(c)) + seq!['m']
}

pub open spec fn spec_invert_on() -> Seq<char> {
    seq!['\u{1b}', '[', '7', 'm']
}

pub open spec fn spec_invert_off() -> Seq<char> {
    seq!['\u{1b}', '[', '2', '7', 'm']
}

pub open spec fn spec_italic_on() -> Seq<char> {
    seq!['\u{1b}', '[', '3', 'm']
}

pub open spec fn spec_underline_on() -> Seq<char> {
    seq!['\u{1b}', '[', '4', 'm']
}

pub open spec fn spec_fg_reset() -> Seq<char> {
    seq!['\u{1b}', '[', '3', '9', 'm']
}

/// The sequence that enters a style: inversion for the reserved id 0,
/// otherwise the foreground color if set, the background color if set and
/// non-zero, then italics and underline if set.
pub open spec fn spec_set_style(st: Style) -> Seq<char> {
    if st.id == 0 {
        spec_invert_on()
    } else {
        (match st.fg_color {
            Some(c) => spec_rgb_fg(c),
            None => Seq::<char>::empty(),
        }) + (match st.bg_color {
            Some(c) => if c != 0 {
                spec_rgb_bg(c)
            } else {
                Seq::<char>::empty()
            },
            None => Seq::<char>::empty(),
        }) + (if st.italic == Some(true) {
            spec_italic_on()
        } else {
            Seq::<char>::empty()
        }) + (if st.underline == Some(true) {
            spec_underline_on()
        } else {
            Seq::<char>::empty()
        })
    }
}

/// The sequence that leaves a style again: inversion off for id 0,
/// otherwise a foreground reset if a foreground was set, and the same
/// background, italic and underline sequences the entry emitted.
pub open spec fn spec_reset_style(st: Style) -> Seq<char> {
    if st.id == 0 {
        spec_invert_off()
    } else {
        (match st.fg_color {
            Some(_) => spec_fg_reset(),
            None => Seq::<char>::empty(),
        }) + (match st.bg_color {
            Some(c) => if c != 0 {
                spec_rgb_bg(c)
            } else {
                Seq::<char>::empty()
            },
            None => Seq::<char>::empty(),
        }) + (if st.italic == Some(true) {
            spec_italic_on()
        } else {
            Seq::<char>::empty()
        }) + (if st.underline == Some(true) {
            spec_underline_on()
        } else {
            Seq::<char>::empty()
        })
    }
}

/// One decimal digit as a character.
fn digit_char(d: u8) -> (c: char)
    requires
        d <= 9,
    ensures
        c == spec_digit_char(d as int),
{
    match d {
        0 => '0',
        1 => '1',
        2 => '2',
        3 => '3',
        4 => '4',
        5 => '5',
        6 => '6',
        7 => '7',
        8 => '8',
        _ => '9',
    }
}

/// Append the decimal digits of a byte.
fn append_dec(v: &mut Vec<char>, n: u8)
    ensures
        final(v)@ == old(v)@ + spec_dec_u8(n as int),
{
    if n < 10 {
        v.push(digit_char(n));
        proof {
            assert(v@ =~= old(v)@ + spec_dec_u8(n as int));
        }
    } else if n < 100 {
        v.push(digit_char(n / 10));
        v.push(digit_char(n % 10));
        proof {
            assert(v@ =~= old(v)@ + spec_dec_u8(n as int));
        }
    } else {
        v.push(digit_char(n / 100));
        v.push(digit_char((n / 10) % 10));
        v.push(digit_char(n % 10));
        proof {
            assert(v@ =~= old(v)@ + spec_dec_u8(n as int));
        }
    }
}

/// Append the 24-bit color sequence with the given introducer digit
/// (`'3'` for foreground, `'4'` for background).
fn append_rgb(v: &mut Vec<char>, ground: char, c: u32)
    ensures
        ground == '3' ==> final(v)@ == old(v)@ + spec_rgb_fg(c),
        ground == '4' ==> final(v)@ == old(v)@ + spec_rgb_bg(c),
{
    proof {
        assert(((c & 0x00ff_0000) >> 16) < 256 && ((c & 0x0000_ff00) >> 8) < 256 && (c
            & 0x0000_00ff) < 256) by (bit_vector);
    }
    let r: u8 = ((c & 0x00ff_0000) >> 16) as u8;
    let g: u8 = ((c & 0x0000_ff00) >> 8) as u8;
    let b: u8 = (c & 0x0000_00ff) as u8;
    v.push('\u{1b}');
    v.push('[');
    v.push(ground);
    v.push('8');
    v.push(';');
    v.push('2');
    v.push(';');
    append_dec(v, r);
    v.push(';');
    append_dec(v, g);
    v.push(';');
    append_dec(v, b);
    v.push('m');
    proof {
        if ground == '3' {
            assert(v@ =~= old(v)@ + spec_rgb_fg(c));
        }
        if ground == '4' {
            assert(v@ =~= old(v)@ + spec_rgb_bg(c));
        }
    }
}

/// The control sequence that enters the given style.
#[verifier::rlimit(60)]
pub fn set_style(style: &Style) -> (r: Vec<char>)
    ensures
        r@ == spec_set_style(*style),
{
    let mut v: Vec<char> = Vec::new();
    if style.id == 0 {
        v.push('\u{1b}');
        v.push('[');
        v.push('7');
        v.push('m');
        proof {
            assert(v@ =~= spec_invert_on());
        }
        return v;
    }
    if let Some(fg) = style.fg_color {
        append_rgb(&mut v, '3', fg);
    }
    let ghost after_fg = v@;
    if let Some(bg) = style.bg_color {
        if bg != 0 {
            append_rgb(&mut v, '4', bg);
        }
    }
    let ghost after_bg = v@;
    if let Some(italic) = style.italic {
        if italic {
            v.push('\u{1b}');
            v.push('[');
            v.push('3');
            v.push('m');
            proof {
                assert(v@ =~= after_bg + spec_italic_on());
            }
        }
    }
    let ghost after_italic = v@;
    if let Some(underline) = style.underline {
        if underline {
            v.push('\u{1b}');
            v.push('[');
            v.push('4');
            v.push('m');
            proof {
                assert(v@ =~= after_italic + spec_underline_on());
            }
        }
    }
    proof {
        assert(v@ =~= spec_set_style(*style));
    }
    v
}

/// The control sequence that leaves the given style.
#[verifier::rlimit(60)]
pub fn reset_style(style: &Style) -> (r: Vec<char>)
    ensures
        r@ == spec_reset_style(*style),
{
    let mut v: Vec<char> = Vec::new();
    if style.id == 0 {
        v.push('\u{1b}');
        v.push('[');
        v.push('2');
        v.push('7');
        v.push('m');
        proof {
            assert(v@ =~= spec_invert_off());
        }
        return v;
    }
    if style.fg_color.is_some() {
        v.push('\u{1b}');
        v.push('[');
        v.push('3');
        v.push('9');
        v.push('m');
        proof {
            assert(v@ =~= spec_fg_reset());
        }
    }
    let ghost after_fg = v@;
    if let Some(bg) = style.bg_color {
        if bg != 0 {
            append_rgb(&mut v, '4', bg);
        }
    }
    let ghost after_bg = v@;
    if let Some(italic) = style.italic {
        if italic {
            v.push('\u{1b}');
            v.push('[');
            v.push('3');
            v.push('m');
            proof {
                assert(v@ =~= after_bg + spec_italic_on());
            }
        }
    }
    let ghost after_italic = v@;
    if let Some(underline) = style.underline {
        if underline {
            v.push('\u{1b}');
            v.push('[');
            v.push('4');
            v.push('m');
            proof {
                assert(v@ =~= after_italic + spec_underline_on());
            }
        }
    }
    proof {
        assert(v@ =~= spec_reset_style(*style));
    }
    v
}

} // verus!
