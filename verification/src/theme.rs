//! The colour theme the inspector panel is drawn with.
//!
//! The panel reads the body text colour and the button colours; both come
//! with a light and a dark variant, and a per-component override can
//! overwrite single fields.  The values are plain colour strings, already
//! resolved — how they are painted is the host's business.

use vstd::prelude::*;

verus! {

/// Colours for text.
pub struct FontTheme {
    pub color: String,
}

/// Colours for the tab buttons.
pub struct ButtonTheme {
    pub background: String,
    pub hover_background: String,
    pub font_theme: FontTheme,
}

/// Colours for the panel body.
pub struct BodyTheme {
    pub background: String,
    pub color: String,
}

/// The whole theme, by name.
pub struct Theme {
    pub name: String,
    pub body: BodyTheme,
    pub button: ButtonTheme,
}

/// A partial [`FontTheme`]: only the fields to overwrite.
pub struct FontThemeWith {
    pub color: Option<String>,
}

/// A partial [`ButtonTheme`]: only the fields to overwrite.
pub struct ButtonThemeWith {
    pub background: Option<String>,
    pub hover_background: Option<String>,
    pub font_theme: Option<FontThemeWith>,
}

/// A partial [`BodyTheme`]: only the fields to overwrite.
pub struct BodyThemeWith {
    pub background: Option<String>,
    pub color: Option<String>,
}

/// What one optional field leaves behind: the override if it is set, the
/// previous value otherwise.
pub open spec fn overridden(opt: Option<String>, prev: Seq<char>) -> Seq<char> {
    match opt {
        Option::Some(s) => s@,
        Option::None => prev,
    }
}

impl FontTheme {
    /// Overwrites each field for which `optional` carries a value.
    pub fn apply_optional(&mut self, optional: &FontThemeWith)
        ensures
            final(self).color@ == overridden(optional.color, old(self).color@),
    {
        if let Some(color) = &optional.color {
            self.color = color.clone();
        }
    }
}

impl BodyTheme {
    /// Overwrites each field for which `optional` carries a value.
    pub fn apply_optional(&mut self, optional: &BodyThemeWith)
        ensures
            final(self).background@ == overridden(optional.background, old(self).background@),
            final(self).color@ == overridden(optional.color, old(self).color@),
    {
        if let Some(background) = &optional.background {
            self.background = background.clone();
        }
        if let Some(color) = &optional.color {
            self.color = color.clone();
        }
    }
}

impl ButtonTheme {
    /// Overwrites each field for which `optional` carries a value; the
    /// font sub-theme is overwritten field by field in turn.
    pub fn apply_optional(&mut self, optional: &ButtonThemeWith)
        ensures
            final(self).background@ == overridden(optional.background, old(self).background@),
            final(self).hover_background@ == overridden(
                optional.hover_background,
                old(self).hover_background@,
            ),
            final(self).font_theme.color@ == match optional.font_theme {
                Option::Some(f) => overridden(f.color, old(self).font_theme.color@),
                Option::None => old(self).font_theme.color@,
            },
    {
        if let Some(background) = &optional.background {
            self.background = background.clone();
        }
        if let Some(hover_background) = &optional.hover_background {
            self.hover_background = hover_background.clone();
        }
        if let Some(font_theme) = &optional.font_theme {
            self.font_theme.apply_optional(font_theme);
        }
    }

    /// The fill a tab button shows: the hover colour while the pointer is
    /// over it, the plain background otherwise.
    pub fn fill(&self, hovered: bool) -> (c: &String)
        ensures
            hovered ==> c@ == self.hover_background@,
            !hovered ==> c@ == self.background@,
    {
        if hovered {
            &self.hover_background
        } else {
            &self.background
        }
    }
}

/// The light theme's values, as far as the panel reads them.
pub open spec fn is_light(t: Theme) -> bool {
    &&& t.name@ == "light"@
    &&& t.body.background@ == "white"@
    &&& t.body.color@ == "black"@
    &&& t.button.background@ == "rgb(245, 245, 245)"@
    &&& t.button.hover_background@ == "rgb(235, 235, 235)"@
    &&& t.button.font_theme.color@ == "rgb(10, 10, 10)"@
}

/// The dark theme's values, as far as the panel reads them.
pub open spec fn is_dark(t: Theme) -> bool {
    &&& t.name@ == "dark"@
    &&& t.body.background@ == "rgb(25, 25, 25)"@
    &&& t.body.color@ == "white"@
    &&& t.button.background@ == "rgb(35, 35, 35)"@
    &&& t.button.hover_background@ == "rgb(45, 45, 45)"@
    &&& t.button.font_theme.color@ == "white"@
}

impl Theme {
    /// The light theme.
    pub fn light() -> (t: Theme)
        ensures
            is_light(t),
    {
        Theme {
            name: String::from_str("light"),
            body: BodyTheme {
                background: String::from_str("white"),
                color: String::from_str("black"),
            },
            button: ButtonTheme {
                background: String::from_str("rgb(245, 245, 245)"),
                hover_background: String::from_str("rgb(235, 235, 235)"),
                font_theme: FontTheme { color: String::from_str("rgb(10, 10, 10)") },
            },
        }
    }

    /// The dark theme.
    pub fn dark() -> (t: Theme)
        ensures
            is_dark(t),
    {
        Theme {
            name: String::from_str("dark"),
            body: BodyTheme {
                background: String::from_str("rgb(25, 25, 25)"),
                color: String::from_str("white"),
            },
            button: ButtonTheme {
                background: String::from_str("rgb(35, 35, 35)"),
                hover_background: String::from_str("rgb(45, 45, 45)"),
                font_theme: FontTheme { color: String::from_str("white") },
            },
        }
    }
}

impl Default for Theme {
    /// Without a provided theme, the light theme is used.
    fn default() -> (t: Theme)
        ensures
            is_light(t),
    {
        Theme::light()
    }
}

} // verus!
