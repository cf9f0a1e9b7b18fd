use vstd::prelude::*;

verus! {

#[derive(Clone, Debug, Copy, PartialEq, Eq, Structural)]
pub struct Colour {
    r: u8,
    g: u8,
    b: u8,
    a: u8,
}

pub type ColourRgba32 = u32;

#[derive(Debug, Clone)]
pub struct Style {
    pub id: usize,
    pub fg: Option<ColourRgba32>,
    pub bg: Option<ColourRgba32>,
    pub italic: bool,
}

#[derive(Clone, Debug)]
pub enum UnderlineOption {
    None_,
    Underline,
    StippledUnderline,
    SquigglyUnderline,
}

#[derive(Clone, Debug, Default)]
pub struct Theme {
    /// The default color for text.
    pub foreground: Option<Colour>,
    /// The default backgound color of the view.
    pub background: Option<Colour>,
    /// Colour of the caret.
    pub caret: Option<Colour>,
    /// Colour of the line the caret is in.
    pub line_highlight: Option<Colour>,
    /// The color to use for the squiggly underline drawn under misspelled words.
    pub misspelling: Option<Colour>,
    /// The color of the border drawn around the viewport area of the minimap.
    pub minimap_border: Option<Colour>,
    /// A color made available for use by the theme.
    pub accent: Option<Colour>,
    /// CSS passed to popups.
    pub popup_css: Option<String>,
    /// CSS passed to phantoms.
    pub phantom_css: Option<String>,
    /// Colour of bracketed sections of text when the caret is in a bracketed section.
    pub bracket_contents_foreground: Option<Colour>,
    /// Controls certain options when the caret is in a bracket section.
    pub bracket_contents_options: Option<UnderlineOption>,
    /// Foreground color of the brackets when the caret is next to a bracket.
    pub brackets_foreground: Option<Colour>,
    /// Background color of the brackets when the caret is next to a bracket.
    pub brackets_background: Option<Colour>,
    /// Controls certain options when the caret is next to a bracket.
    pub brackets_options: Option<UnderlineOption>,
    /// Colour of tags when the caret is next to a tag.
    pub tags_foreground: Option<Colour>,
    /// Controls certain options when the caret is next to a tag.
    pub tags_options: Option<UnderlineOption>,
    /// The border color for "other" matches.
    pub highlight: Option<Colour>,
    /// Background color of regions matching the current search.
    pub find_highlight: Option<Colour>,
    /// Text color of regions matching the current search.
    pub find_highlight_foreground: Option<Colour>,
    /// Background color of the gutter.
    pub gutter: Option<Colour>,
    /// Foreground color of the gutter.
    pub gutter_foreground: Option<Colour>,
    /// The background color of selected text.
    pub selection: Option<Colour>,
    /// A color that will override the scope-based text color of the selection.
    pub selection_foreground: Option<Colour>,
    /// Colour of the selection regions border.
    pub selection_border: Option<Colour>,
    /// The background color of a selection in a view that is not currently focused.
    pub inactive_selection: Option<Colour>,
    /// A color that will override the scope-based text color of the selection
    /// in a view that is not currently focused.
    pub inactive_selection_foreground: Option<Colour>,
    /// Colour of the guides displayed to indicate nesting levels.
    pub guide: Option<Colour>,
    /// Colour of the guide lined up with the caret.
    pub active_guide: Option<Colour>,
    /// Colour of the current guide’s parent guide level.
    pub stack_guide: Option<Colour>,
    /// The color of the shadow used when a text area can be horizontally scrolled.
    pub shadow: Option<Colour>,
}

/// The channel value stored in byte `k` (0 = least significant) of a packed colour.
pub open spec fn le_byte(value: u32, k: nat) -> u8 {
    ((value as nat / pow256(k)) % 256) as u8
}

pub open spec fn pow256(k: nat) -> nat
    decreases k,
{
    if k == 0 { 1 } else { 256 * pow256((k - 1) as nat) }
}

impl Colour {
    pub closed spec fn red(&self) -> u8 { self.r }
    pub closed spec fn green(&self) -> u8 { self.g }
    pub closed spec fn blue(&self) -> u8 { self.b }
    pub closed spec fn alpha(&self) -> u8 { self.a }

    /// Builds a colour from a packed value whose little-endian bytes are
    /// red, green, blue and alpha.
    pub fn from_u32_rgba(value: ColourRgba32) -> (c: Self)
        ensures
            c.red() == le_byte(value, 0),
            c.green() == le_byte(value, 1),
            c.blue() == le_byte(value, 2),
            c.alpha() == le_byte(value, 3),
    {
        let r = (value & 0xff) as u8;
        let g = ((value >> 8) & 0xff) as u8;
        let b = ((value >> 16) & 0xff) as u8;
        let a = ((value >> 24) & 0xff) as u8;
        assert(value & 0xff == value % 256) by (bit_vector);
        assert((value >> 8) & 0xff == (value / 256) % 256) by (bit_vector);
        assert((value >> 16) & 0xff == (value / 65536) % 256) by (bit_vector);
        assert((value >> 24) & 0xff == (value / 16777216) % 256) by (bit_vector);
        proof {
            reveal_with_fuel(pow256, 4);
            assert(pow256(0) == 1);
            assert(value as nat / 1 == value as nat);
        }
        Self { r, g, b, a }
    }

    /// Builds a colour from its channels.
    pub fn new(r: u8, g: u8, b: u8, a: u8) -> (c: Self)
        ensures
            c.red() == r && c.green() == g && c.blue() == b && c.alpha() == a,
    {
        Self { r, g, b, a }
    }

    /// The red, green, blue and alpha channels.
    pub fn channels(&self) -> (ch: [u8; 4])
        ensures
            ch@ == seq![self.red(), self.green(), self.blue(), self.alpha()],
    {
        [self.r, self.g, self.b, self.a]
    }
}

/// The four bytes of a packed colour, read as little-endian, give back the
/// packed value; so distinct values give distinct colours.
pub proof fn law_colour_bytes_recompose(value: u32)
    ensures
        le_byte(value, 0) + 256 * le_byte(value, 1) + 65536 * le_byte(value, 2) + 16777216 * le_byte(value, 3)
            == value,
{
    reveal_with_fuel(pow256, 4);
    assert(pow256(1) == 256);
    assert(pow256(2) == 65536);
    assert(pow256(3) == 16777216);
    assert((value % 256) + 256 * ((value / 256) % 256) + 65536 * ((value / 65536) % 256) + 16777216 * ((
    value / 16777216) % 256) == value) by (bit_vector);
    assert(value as nat / 1 == value as nat);
}

} // verus!
