//! Colors for drawing labels.
use vstd::prelude::*;
use vstd::string::*;

verus! {

/// Matplotlib's "tab10" palette.
pub const TAB10: [&'static str; 10] = [
    "#1f77b4",
    "#ff7f0f",
    "#2ca02c",
    "#d62728",
    "#9467bd",
    "#8c564b",
    "#e377c2",
    "#7f7f7f",
    "#bcbd22",
    "#16becf",
];

/// An RGB color.
#[derive(Debug, Clone, Copy, PartialEq, Eq, Structural)]
pub struct Color(pub u8, pub u8, pub u8);

/// The upper-case hexadecimal digit `d`.
pub open spec fn hex_digit(d: int) -> Seq<char> {
    if d < 10 {
        crate::text::digit_text(d)
    } else if d == 10 {
        "A"@
    } else if d == 11 {
        "B"@
    } else if d == 12 {
        "C"@
    } else if d == 13 {
        "D"@
    } else if d == 14 {
        "E"@
    } else {
        "F"@
    }
}

/// A byte as two upper-case hexadecimal digits.
pub open spec fn hex_byte(b: u8) -> Seq<char> {
    hex_digit(b as int / 16) + hex_digit(b as int % 16)
}

fn hex_digit_str(d: u8) -> (r: &'static str)
    requires
        d < 16,
    ensures
        r@ == hex_digit(d as int),
{
    if d == 0 {
        "0"
    } else if d == 1 {
        "1"
    } else if d == 2 {
        "2"
    } else if d == 3 {
        "3"
    } else if d == 4 {
        "4"
    } else if d == 5 {
        "5"
    } else if d == 6 {
        "6"
    } else if d == 7 {
        "7"
    } else if d == 8 {
        "8"
    } else if d == 9 {
        "9"
    } else if d == 10 {
        "A"
    } else if d == 11 {
        "B"
    } else if d == 12 {
        "C"
    } else if d == 13 {
        "D"
    } else if d == 14 {
        "E"
    } else {
        "F"
    }
}

fn push_hex_byte(out: &mut String, b: u8)
    ensures
        final(out)@ == old(out)@ + hex_byte(b),
{
    out.append(hex_digit_str(b / 16));
    out.append(hex_digit_str(b % 16));
    assert(final(out)@ =~= old(out)@ + hex_byte(b));
}

impl Color {
    /// The color as `#RRGGBB`, with upper-case digits.
    pub fn to_hex(&self) -> (r: String)
        ensures
            r@ == "#"@ + hex_byte(self.0) + hex_byte(self.1) + hex_byte(self.2),
    {
        let mut out = "#".to_owned();
        push_hex_byte(&mut out, self.0);
        push_hex_byte(&mut out, self.1);
        push_hex_byte(&mut out, self.2);
        assert(out@ =~= "#"@ + hex_byte(self.0) + hex_byte(self.1) + hex_byte(self.2));
        out
    }
}

/// Hands out the colors of a palette in turn, starting over after the last.
#[derive(Debug, Clone)]
pub struct ColorCycler {
    i: usize,
    palette: Vec<&'static str>,
}

impl ColorCycler {
    /// The palette.
    pub closed spec fn colors(&self) -> Seq<&'static str> {
        self.palette@
    }

    /// The position of the next color.
    pub closed spec fn position(&self) -> nat {
        self.i as nat
    }

    pub open spec fn wf(&self) -> bool {
        self.position() < self.colors().len()
    }

    /// A cycler over red, green, blue, cyan, magenta and yellow.
    pub fn new() -> (r: Self)
        ensures
            r.wf(),
            r.position() == 0,
            r.colors() == seq!["red", "green", "blue", "cyan", "magenta", "yellow"],
    {
        let palette = vec!["red", "green", "blue", "cyan", "magenta", "yellow"];
        assert(palette@ =~= seq!["red", "green", "blue", "cyan", "magenta", "yellow"]);
        ColorCycler { i: 0, palette }
    }

    /// The next color.
    pub fn cycle(&mut self) -> (r: &'static str)
        requires
            old(self).wf(),
        ensures
            final(self).wf(),
            r == old(self).colors()[old(self).position() as int],
            final(self).colors() == old(self).colors(),
            final(self).position() == (old(self).position() + 1) % (old(self).colors().len() as nat),
    {
        let n = self.palette.len();
        let c = self.palette[self.i];
        self.i = (self.i + 1) % n;
        c
    }
}

impl Default for ColorCycler {
    /// A cycler over the "tab10" palette.
    fn default() -> (r: Self)
        ensures
            r.wf(),
            r.position() == 0,
            r.colors() == TAB10@,
    {
        let palette = vec![
            TAB10[0],
            TAB10[1],
            TAB10[2],
            TAB10[3],
            TAB10[4],
            TAB10[5],
            TAB10[6],
            TAB10[7],
            TAB10[8],
            TAB10[9],
        ];
        assert(palette@ =~= TAB10@);
        ColorCycler { i: 0, palette }
    }
}

} // verus!
