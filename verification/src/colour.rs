use vstd::prelude::*;

use crate::text::dec_seq;
use crate::text::push_dec_u32;

verus! {

/// An immutable 24-bit RGB triple. Any triple of channel values is valid.
///
/// The two encoders are pure: they produce the escape-sequence fragment that
/// selects this colour for the foreground or the background, and nothing here
/// touches the physical output stream.
#[derive(Clone, Copy, Debug, PartialEq, Eq, Structural)]
pub struct Colour {
    pub r: u8,
    pub g: u8,
    pub b: u8,
}

/// The escape fragment `ESC [ 38;2;r;g;b m` selecting `c` as foreground.
pub open spec fn fg_escape(c: Colour) -> Seq<char> {
    seq!['\u{1b}', '[', '3', '8', ';', '2', ';'] + dec_seq(c.r as nat) + seq![';'] + dec_seq(
        c.g as nat,
    ) + seq![';'] + dec_seq(c.b as nat) + seq!['m']
}

/// The escape fragment `ESC [ 48;2;r;g;b m` selecting `c` as background.
pub open spec fn bg_escape(c: Colour) -> Seq<char> {
    seq!['\u{1b}', '[', '4', '8', ';', '2', ';'] + dec_seq(c.r as nat) + seq![';'] + dec_seq(
        c.g as nat,
    ) + seq![';'] + dec_seq(c.b as nat) + seq!['m']
}

impl Colour {
    pub fn new(r: u8, g: u8, b: u8) -> (c: Colour)
        ensures
            c == (Colour { r, g, b }),
    {
        Colour { r, g, b }
    }

    /// The escape sequence that sets this colour as the foreground colour.
    pub fn ansi_text_string(&self) -> (s: String)
        ensures
            s@ == fg_escape(*self),
    {
        let mut s = String::new();
        s.append("\u{1b}[38;2;");
        push_dec_u32(&mut s, self.r as u32);
        s.append(";");
        push_dec_u32(&mut s, self.g as u32);
        s.append(";");
        push_dec_u32(&mut s, self.b as u32);
        s.append("m");
        proof {
            reveal_strlit("\u{1b}[38;2;");
            reveal_strlit(";");
            reveal_strlit("m");
            assert(s@ =~= fg_escape(*self));
        }
        s
    }

    /// The escape sequence that sets this colour as the background colour.
    pub fn ansi_bg_string(&self) -> (s: String)
        ensures
            s@ == bg_escape(*self),
    {
        let mut s = String::new();
        s.append("\u{1b}[48;2;");
        push_dec_u32(&mut s, self.r as u32);
        s.append(";");
        push_dec_u32(&mut s, self.g as u32);
        s.append(";");
        push_dec_u32(&mut s, self.b as u32);
        s.append("m");
        proof {
            reveal_strlit("\u{1b}[48;2;");
            reveal_strlit(";");
            reveal_strlit("m");
            assert(s@ =~= bg_escape(*self));
        }
        s
    }
}

} // verus!
