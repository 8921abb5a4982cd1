//! Terminal control sequences for the scroll region and origin mode.
use vstd::prelude::*;
use crate::text::{push_decimal, spec_decimal, string_of};

verus! {

/// The escape character.
pub open spec fn esc() -> char {
    '\x1b'
}

/// `ESC [`, the control sequence introducer.
pub open spec fn csi() -> Seq<char> {
    seq![esc(), '[']
}

/// `CSI top ; bottom r`: sets the scroll region (DECSTBM).
pub struct ScrollRegion(pub u16, pub u16);

/// `CSI r`: resets the scroll region to the whole screen.
pub struct ResetScrollRegion;

/// `CSI ? 6 l`: turns origin mode off.
pub struct DisableOriginMode;

impl ScrollRegion {
    /// The control sequence as text.
    pub fn render(&self) -> (r: String)
        ensures
            r@ == csi() + spec_decimal(self.0 as nat) + seq![';'] + spec_decimal(self.1 as nat)
                + seq!['r'],
    {
        let mut out: Vec<char> = Vec::new();
        out.push('\x1b');
        out.push('[');
        push_decimal(&mut out, self.0 as u64);
        out.push(';');
        push_decimal(&mut out, self.1 as u64);
        out.push('r');
        string_of(out.as_slice())
    }
}

impl ResetScrollRegion {
    /// The control sequence as text.
    pub fn render(&self) -> (r: String)
        ensures
            r@ == csi() + seq!['r'],
    {
        let mut out: Vec<char> = Vec::new();
        out.push('\x1b');
        out.push('[');
        out.push('r');
        assert(out@ =~= csi() + seq!['r']);
        string_of(out.as_slice())
    }
}

impl DisableOriginMode {
    /// The control sequence as text.
    pub fn render(&self) -> (r: String)
        ensures
            r@ == csi() + seq!['?', '6', 'l'],
    {
        let mut out: Vec<char> = Vec::new();
        out.push('\x1b');
        out.push('[');
        out.push('?');
        out.push('6');
        out.push('l');
        assert(out@ =~= csi() + seq!['?', '6', 'l']);
        string_of(out.as_slice())
    }
}

} // verus!
