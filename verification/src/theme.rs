//! The look of the client: a dark blue screen with green writing, given as
//! plain values that a front end turns into its own.

use vstd::prelude::*;

verus! {

/// What a colour of the palette is used for.
#[derive(Clone, Copy, Debug, PartialEq, Eq, Structural)]
pub enum PaletteRole {
    Background,
    View,
    Primary,
    TitlePrimary,
    Secondary,
    Highlight,
    HighlightInactive,
    Shadow,
}

/// A colour by its red, green and blue parts.
#[derive(Clone, Copy, Debug, PartialEq, Eq, Structural)]
pub struct Rgb {
    pub red: u8,
    pub green: u8,
    pub blue: u8,
}

/// How the borders of the views are drawn.
#[derive(Clone, Copy, Debug, PartialEq, Eq, Structural)]
pub enum Border {
    Simple,
    Outset,
    Absent,
}

/// A theme: whether views cast a shadow, how borders are drawn, and the
/// colour of each role.
#[derive(Clone, Debug, PartialEq, Eq)]
pub struct ThemeSettings {
    pub shadow: bool,
    pub borders: Border,
    pub palette: Vec<(PaletteRole, Rgb)>,
}

/// The colour of `role` in the retro theme.
pub open spec fn retro_color(role: PaletteRole) -> Rgb {
    match role {
        PaletteRole::Background => Rgb { red: 0, green: 0, blue: 20 },
        PaletteRole::View => Rgb { red: 0, green: 0, blue: 20 },
        PaletteRole::Primary => Rgb { red: 0, green: 255, blue: 0 },
        PaletteRole::TitlePrimary => Rgb { red: 0, green: 255, blue: 128 },
        PaletteRole::Secondary => Rgb { red: 255, green: 191, blue: 0 },
        PaletteRole::Highlight => Rgb { red: 0, green: 255, blue: 255 },
        PaletteRole::HighlightInactive => Rgb { red: 0, green: 128, blue: 128 },
        PaletteRole::Shadow => Rgb { red: 0, green: 0, blue: 40 },
    }
}

/// The roles, in the order in which the retro theme sets them.
pub open spec fn retro_roles() -> Seq<PaletteRole> {
    seq![
        PaletteRole::Background,
        PaletteRole::View,
        PaletteRole::Primary,
        PaletteRole::TitlePrimary,
        PaletteRole::Secondary,
        PaletteRole::Highlight,
        PaletteRole::HighlightInactive,
        PaletteRole::Shadow,
    ]
}

/// The colour of `role` in the retro theme.
pub fn retro_color_of(role: PaletteRole) -> (color: Rgb)
    ensures
        color == retro_color(role),
{
    match role {
        PaletteRole::Background => Rgb { red: 0, green: 0, blue: 20 },
        PaletteRole::View => Rgb { red: 0, green: 0, blue: 20 },
        PaletteRole::Primary => Rgb { red: 0, green: 255, blue: 0 },
        PaletteRole::TitlePrimary => Rgb { red: 0, green: 255, blue: 128 },
        PaletteRole::Secondary => Rgb { red: 255, green: 191, blue: 0 },
        PaletteRole::Highlight => Rgb { red: 0, green: 255, blue: 255 },
        PaletteRole::HighlightInactive => Rgb { red: 0, green: 128, blue: 128 },
        PaletteRole::Shadow => Rgb { red: 0, green: 0, blue: 40 },
    }
}

/// The retro theme: shadows, simple borders, and for every role its colour.
pub fn create_retro_theme() -> (theme: ThemeSettings)
    ensures
        theme.shadow,
        theme.borders == Border::Simple,
        theme.palette@.len() == 8,
        forall|i: int|
            0 <= i < 8 ==> (#[trigger] theme.palette@[i]).0 == retro_roles()[i]
                && theme.palette@[i].1 == retro_color(retro_roles()[i]),
{
    let mut palette: Vec<(PaletteRole, Rgb)> = Vec::new();
    palette.push((PaletteRole::Background, retro_color_of(PaletteRole::Background)));
    palette.push((PaletteRole::View, retro_color_of(PaletteRole::View)));
    palette.push((PaletteRole::Primary, retro_color_of(PaletteRole::Primary)));
    palette.push((PaletteRole::TitlePrimary, retro_color_of(PaletteRole::TitlePrimary)));
    palette.push((PaletteRole::Secondary, retro_color_of(PaletteRole::Secondary)));
    palette.push((PaletteRole::Highlight, retro_color_of(PaletteRole::Highlight)));
    palette.push((PaletteRole::HighlightInactive, retro_color_of(PaletteRole::HighlightInactive)));
    palette.push((PaletteRole::Shadow, retro_color_of(PaletteRole::Shadow)));
    ThemeSettings { shadow: true, borders: Border::Simple, palette }
}

} // verus!
