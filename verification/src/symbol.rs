//! A displayable symbol: an opaque glyph token. The engine never looks
//! inside a glyph; it only compares symbols for equality (for the
//! anti-repetition rule) and splices them into rendered text.

use vstd::prelude::*;

verus! {

/// An opaque displayable token; its view is the glyph text.
pub struct Symbol {
    pub glyph: String,
}

impl View for Symbol {
    type V = Seq<char>;

    open spec fn view(&self) -> Seq<char> {
        self.glyph@
    }
}

impl Clone for Symbol {
    fn clone(&self) -> (res: Self)
        ensures
            res@ == self@,
    {
        Symbol { glyph: self.glyph.clone() }
    }
}

impl Symbol {
    pub fn new(glyph: String) -> (s: Self)
        ensures
            s@ == glyph@,
    {
        Symbol { glyph }
    }

    /// Two symbols are the same token exactly when their glyphs agree.
    pub fn same_glyph(&self, other: &Symbol) -> (r: bool)
        ensures
            r == (self@ == other@),
    {
        self.glyph == other.glyph
    }
}

} // verus!
