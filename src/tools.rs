use vstd::prelude::*;

verus! {

/// A key that selects a tool when pressed with no modifier held.
#[derive(Debug, Clone, Copy, PartialEq, Eq, Structural)]
pub struct Shortcut {
    pub key: char,
}

/// The tool that paints voxels.
pub struct Paintbrush {}

/// The tool that erases voxels.
pub struct Eraser {}

impl Paintbrush {
    /// Glyph of the icon font shown on the toolbar button.
    pub fn icon(&self) -> (r: &'static str)
        ensures
            r@ == "\u{f1fc}"@,
    {
        "\u{f1fc}"
    }

    pub fn tooltip(&self) -> (r: &'static str)
        ensures
            r@ == "Paintbrush"@,
    {
        "Paintbrush"
    }

    pub fn shortcut(&self) -> (r: Shortcut)
        ensures
            r.key == 'B',
    {
        Shortcut { key: 'B' }
    }
}

impl Eraser {
    /// Glyph of the icon font shown on the toolbar button.
    pub fn icon(&self) -> (r: &'static str)
        ensures
            r@ == "\u{f12d}"@,
    {
        "\u{f12d}"
    }

    pub fn tooltip(&self) -> (r: &'static str)
        ensures
            r@ == "Eraser"@,
    {
        "Eraser"
    }

    pub fn shortcut(&self) -> (r: Shortcut)
        ensures
            r.key == 'E',
    {
        Shortcut { key: 'E' }
    }
}

} // verus!
