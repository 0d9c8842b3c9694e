use vstd::prelude::*;

verus! {

/// An RGB colour of the terminal palette.
#[derive(Clone, Copy, Debug, PartialEq, Eq, Structural)]
pub struct Color {
    pub r: u8,
    pub g: u8,
    pub b: u8,
}

/// The upper-case hexadecimal digit of `d` (0 to 15).
pub open spec fn hex_digit(d: int) -> char {
    if d < 10 {
        crate::text::digit_char(d)
    } else if d == 10 {
        'A'
    } else if d == 11 {
        'B'
    } else if d == 12 {
        'C'
    } else if d == 13 {
        'D'
    } else if d == 14 {
        'E'
    } else {
        'F'
    }
}

/// A byte as two upper-case hexadecimal digits (`{:02X}`).
pub open spec fn hex_byte(b: u8) -> Seq<char> {
    seq![hex_digit((b / 16) as int), hex_digit((b % 16) as int)]
}

/// `#RRGGBB`.
pub open spec fn hex_rgb_text(r: u8, g: u8, b: u8) -> Seq<char> {
    seq!['#'] + hex_byte(r) + hex_byte(g) + hex_byte(b)
}

fn hex_digit_str(d: u8) -> (r: &'static str)
    requires
        d < 16,
    ensures
        r@ == seq![hex_digit(d as int)],
{
    if d == 0 { proof { reveal_strlit("0"); } "0" }
    else if d == 1 { proof { reveal_strlit("1"); } "1" }
    else if d == 2 { proof { reveal_strlit("2"); } "2" }
    else if d == 3 { proof { reveal_strlit("3"); } "3" }
    else if d == 4 { proof { reveal_strlit("4"); } "4" }
    else if d == 5 { proof { reveal_strlit("5"); } "5" }
    else if d == 6 { proof { reveal_strlit("6"); } "6" }
    else if d == 7 { proof { reveal_strlit("7"); } "7" }
    else if d == 8 { proof { reveal_strlit("8"); } "8" }
    else if d == 9 { proof { reveal_strlit("9"); } "9" }
    else if d == 10 { proof { reveal_strlit("A"); } "A" }
    else if d == 11 { proof { reveal_strlit("B"); } "B" }
    else if d == 12 { proof { reveal_strlit("C"); } "C" }
    else if d == 13 { proof { reveal_strlit("D"); } "D" }
    else if d == 14 { proof { reveal_strlit("E"); } "E" }
    else { proof { reveal_strlit("F"); } "F" }
}

fn push_hex_byte(s: &mut String, b: u8)
    ensures
        final(s)@ == old(s)@ + hex_byte(b),
{
    s.append(hex_digit_str(b / 16));
    s.append(hex_digit_str(b % 16));
    proof {
        assert(old(s)@ + seq![hex_digit((b / 16) as int)] + seq![hex_digit((b % 16) as int)] =~= old(s)@
            + hex_byte(b));
    }
}

/// `#RRGGBB` in upper-case hexadecimal.
pub fn hex_rgb(r: u8, g: u8, b: u8) -> (s: String)
    ensures
        s@ == hex_rgb_text(r, g, b),
{
    let mut s = String::new();
    s.append("#");
    proof {
        reveal_strlit("#");
        assert(Seq::<char>::empty() + "#"@ =~= seq!['#']);
    }
    push_hex_byte(&mut s, r);
    push_hex_byte(&mut s, g);
    push_hex_byte(&mut s, b);
    s
}

/// A palette colour as `#RRGGBB`.
pub fn hex(c: Color) -> (s: String)
    ensures
        s@ == hex_rgb_text(c.r, c.g, c.b),
{
    hex_rgb(c.r, c.g, c.b)
}

/// A palette colour with an alpha byte, as `#RRGGBBAA`.
pub fn hex_alpha(c: Color, alpha: u8) -> (s: String)
    ensures
        s@ == hex_rgb_text(c.r, c.g, c.b) + hex_byte(alpha),
{
    let mut s = hex_rgb(c.r, c.g, c.b);
    push_hex_byte(&mut s, alpha);
    s
}

/// Whether two strings hold the same characters.
pub fn same_text(a: &str, b: &str) -> (r: bool)
    ensures
        r == (a@ == b@),
{
    a.to_owned() == b.to_owned()
}

/// The registered interface themes (dark, light) that stand in for a
/// terminal theme when no interface theme can be generated from it.
pub fn gpui_theme_names_for(terminal_theme_name: &str) -> (r: (&'static str, &'static str))
    ensures
        r.0@ == (if terminal_theme_name@ == "catppuccin-mocha"@ {
            "Catppuccin Mocha"@
        } else if terminal_theme_name@ == "tokyonight"@ {
            "Tokyo Night"@
        } else {
            "Con Dark"@
        }),
        r.1@ == "Con Light"@,
{
    if same_text(terminal_theme_name, "catppuccin-mocha") {
        ("Catppuccin Mocha", "Con Light")
    } else if same_text(terminal_theme_name, "tokyonight") {
        ("Tokyo Night", "Con Light")
    } else {
        ("Con Dark", "Con Light")
    }
}

} // verus!
