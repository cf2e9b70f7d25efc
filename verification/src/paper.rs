//! Paper formats and their physical dimensions.

use vstd::prelude::*;

verus! {

/// The supported paper formats. Each variant has fixed intrinsic dimensions
/// in portrait orientation; rotation is a property of a lookup, not of the
/// variant.
#[derive(Debug, Clone, PartialEq, Eq, Structural)]
pub enum PaperSize {
    A3,
    A4,
    A5,
}

impl PaperSize {
    /// The intrinsic portrait dimensions, width first, in tenths of a
    /// millimeter.
    pub open spec fn spec_portrait_mm10(self) -> (int, int) {
        match self {
            PaperSize::A3 => (2970int, 4200int),
            PaperSize::A4 => (2100int, 2970int),
            PaperSize::A5 => (1480int, 2100int),
        }
    }

    /// The dimensions a lookup with the given rotation flag yields: the
    /// portrait pair as it is, or with width and height exchanged.
    pub open spec fn spec_size_mm10(self, is_rotate: bool) -> (int, int) {
        if is_rotate {
            (self.spec_portrait_mm10().1, self.spec_portrait_mm10().0)
        } else {
            self.spec_portrait_mm10()
        }
    }

    /// The paper's physical dimensions, width first, in tenths of a
    /// millimeter; `is_rotate` swaps the two without changing the variant.
    pub fn size(&self, is_rotate: bool) -> (r: (u32, u32))
        ensures
            (r.0 as int, r.1 as int) == self.spec_size_mm10(is_rotate),
    {
        if is_rotate {
            self.rotate()
        } else {
            match self {
                PaperSize::A3 => (2970, 4200),
                PaperSize::A4 => (2100, 2970),
                PaperSize::A5 => (1480, 2100),
            }
        }
    }

    fn rotate(&self) -> (r: (u32, u32))
        ensures
            (r.0 as int, r.1 as int) == self.spec_size_mm10(true),
    {
        match self {
            PaperSize::A3 => (4200, 2970),
            PaperSize::A4 => (2970, 2100),
            PaperSize::A5 => (2100, 1480),
        }
    }

    /// The formats offered to a host, smallest first.
    pub fn vec_new() -> (r: Vec<PaperSize>)
        ensures
            r@ =~= seq![PaperSize::A5, PaperSize::A4, PaperSize::A3],
    {
        let mut v: Vec<PaperSize> = Vec::new();
        v.push(PaperSize::A5);
        v.push(PaperSize::A4);
        v.push(PaperSize::A3);
        v
    }

    /// The format's display name.
    pub open spec fn spec_label(self) -> Seq<char> {
        match self {
            PaperSize::A3 => "A3"@,
            PaperSize::A4 => "A4"@,
            PaperSize::A5 => "A5"@,
        }
    }

    /// The format's display name, for a host's paper picker.
    pub fn label(&self) -> (r: String)
        ensures
            r@ == self.spec_label(),
    {
        match self {
            PaperSize::A3 => "A3".to_owned(),
            PaperSize::A4 => "A4".to_owned(),
            PaperSize::A5 => "A5".to_owned(),
        }
    }
}

/// Rotating swaps the two paper dimensions and does nothing else: for every
/// variant, the rotated lookup is the portrait lookup with width and height
/// exchanged.
pub proof fn lemma_rotate_swaps_dimensions(paper: PaperSize)
    ensures
        paper.spec_size_mm10(true).0 == paper.spec_size_mm10(false).1,
        paper.spec_size_mm10(true).1 == paper.spec_size_mm10(false).0,
{
}

} // verus!
