//! The visual settings: the split orientation, seven source colours, and the
//! six display styles derived from them.

use vstd::prelude::*;
use crate::colour::{Colour, next_colour, prev_colour, spec_next_colour, spec_prev_colour};

verus! {

/// A foreground and a background colour.
#[derive(Clone, Copy, PartialEq, Eq, Debug, Structural)]
pub struct Style {
    pub fg: Colour,
    pub bg: Colour,
}

/// The settings field that the settings view has selected.
#[derive(Clone, Copy, PartialEq, Eq, Debug, Structural)]
pub enum EditSettingField {
    Split,
    NormalFg,
    NormalBg,
    SelectionFg,
    SelectionBg,
    Active,
    Title,
    Border,
}

impl EditSettingField {
    /// The place of the field in the settings list.
    pub open spec fn index(self) -> int {
        match self {
            EditSettingField::Split => 0,
            EditSettingField::NormalFg => 1,
            EditSettingField::NormalBg => 2,
            EditSettingField::SelectionFg => 3,
            EditSettingField::SelectionBg => 4,
            EditSettingField::Active => 5,
            EditSettingField::Title => 6,
            EditSettingField::Border => 7,
        }
    }

    /// The field below this one; the last field stays.
    pub open spec fn spec_next(self) -> EditSettingField {
        match self {
            EditSettingField::Split => EditSettingField::NormalFg,
            EditSettingField::NormalFg => EditSettingField::NormalBg,
            EditSettingField::NormalBg => EditSettingField::SelectionFg,
            EditSettingField::SelectionFg => EditSettingField::SelectionBg,
            EditSettingField::SelectionBg => EditSettingField::Active,
            EditSettingField::Active => EditSettingField::Title,
            EditSettingField::Title => EditSettingField::Border,
            EditSettingField::Border => EditSettingField::Border,
        }
    }

    /// The field above this one; the first field stays.
    pub open spec fn spec_prev(self) -> EditSettingField {
        match self {
            EditSettingField::Split => EditSettingField::Split,
            EditSettingField::NormalFg => EditSettingField::Split,
            EditSettingField::NormalBg => EditSettingField::NormalFg,
            EditSettingField::SelectionFg => EditSettingField::NormalBg,
            EditSettingField::SelectionBg => EditSettingField::SelectionFg,
            EditSettingField::Active => EditSettingField::SelectionBg,
            EditSettingField::Title => EditSettingField::Active,
            EditSettingField::Border => EditSettingField::Title,
        }
    }

    /// Moves the selection one field down.
    pub fn next(self) -> (r: EditSettingField)
        ensures
            r == self.spec_next(),
            r.index() == if self.index() < 7 {
                self.index() + 1
            } else {
                7
            },
    {
        match self {
            EditSettingField::Split => EditSettingField::NormalFg,
            EditSettingField::NormalFg => EditSettingField::NormalBg,
            EditSettingField::NormalBg => EditSettingField::SelectionFg,
            EditSettingField::SelectionFg => EditSettingField::SelectionBg,
            EditSettingField::SelectionBg => EditSettingField::Active,
            EditSettingField::Active => EditSettingField::Title,
            EditSettingField::Title => EditSettingField::Border,
            EditSettingField::Border => EditSettingField::Border,
        }
    }

    /// Moves the selection one field up.
    pub fn prev(self) -> (r: EditSettingField)
        ensures
            r == self.spec_prev(),
            r.index() == if self.index() > 0 {
                self.index() - 1
            } else {
                0
            },
    {
        match self {
            EditSettingField::Split => EditSettingField::Split,
            EditSettingField::NormalFg => EditSettingField::Split,
            EditSettingField::NormalBg => EditSettingField::NormalFg,
            EditSettingField::SelectionFg => EditSettingField::NormalBg,
            EditSettingField::SelectionBg => EditSettingField::SelectionFg,
            EditSettingField::Active => EditSettingField::SelectionBg,
            EditSettingField::Title => EditSettingField::Active,
            EditSettingField::Border => EditSettingField::Title,
        }
    }
}

/// The visual settings. The six styles are a cache of what the seven colours
/// determine; `styles_derived` says when the cache is current.
#[derive(Clone, Copy, PartialEq, Eq, Debug, Structural)]
pub struct Settings {
    pub is_horizontal: bool,
    pub default: Style,
    pub highlight: Style,
    pub active_normal: Style,
    pub active_highlight: Style,
    pub title: Style,
    pub border: Style,
    pub normal_fg_colour: Colour,
    pub normal_bg_colour: Colour,
    pub select_fg_colour: Colour,
    pub select_bg_colour: Colour,
    pub active_fg_colour: Colour,
    pub title_fg_colour: Colour,
    pub border_colour: Colour,
}

impl Settings {
    /// The settings with the six styles recomputed from the seven colours.
    pub open spec fn with_styles(self) -> Settings {
        Settings {
            default: Style { fg: self.normal_fg_colour, bg: self.normal_bg_colour },
            highlight: Style { fg: self.select_fg_colour, bg: self.select_bg_colour },
            active_normal: Style { fg: self.active_fg_colour, bg: self.normal_bg_colour },
            active_highlight: Style { fg: self.active_fg_colour, bg: self.select_bg_colour },
            title: Style { fg: self.title_fg_colour, bg: self.normal_bg_colour },
            border: Style { fg: self.border_colour, bg: self.normal_bg_colour },
            ..self
        }
    }

    /// Every style is the one its source colours determine.
    pub open spec fn styles_derived(self) -> bool {
        self == self.with_styles()
    }

    /// The settings a fresh installation starts with.
    pub open spec fn spec_default_settings() -> Settings {
        Settings {
            is_horizontal: true,
            default: Style { fg: Colour::White, bg: Colour::Black },
            highlight: Style { fg: Colour::Black, bg: Colour::White },
            active_normal: Style { fg: Colour::Green, bg: Colour::Black },
            active_highlight: Style { fg: Colour::Green, bg: Colour::White },
            title: Style { fg: Colour::Green, bg: Colour::Black },
            border: Style { fg: Colour::Green, bg: Colour::Black },
            normal_fg_colour: Colour::White,
            normal_bg_colour: Colour::Black,
            select_fg_colour: Colour::Black,
            select_bg_colour: Colour::White,
            active_fg_colour: Colour::Green,
            title_fg_colour: Colour::Green,
            border_colour: Colour::Green,
        }
    }

    /// The settings after the value of `field` is stepped: the orientation
    /// flips; a colour moves one place through the palette, forward or
    /// backward, and the styles follow.
    pub open spec fn stepped(self, field: EditSettingField, forward: bool) -> Settings {
        let step = |c: Colour|
            if forward {
                spec_next_colour(c)
            } else {
                spec_prev_colour(c)
            };
        match field {
            EditSettingField::Split => Settings { is_horizontal: !self.is_horizontal, ..self },
            EditSettingField::NormalFg => Settings {
                normal_fg_colour: step(self.normal_fg_colour),
                ..self
            }.with_styles(),
            EditSettingField::NormalBg => Settings {
                normal_bg_colour: step(self.normal_bg_colour),
                ..self
            }.with_styles(),
            EditSettingField::SelectionFg => Settings {
                select_fg_colour: step(self.select_fg_colour),
                ..self
            }.with_styles(),
            EditSettingField::SelectionBg => Settings {
                select_bg_colour: step(self.select_bg_colour),
                ..self
            }.with_styles(),
            EditSettingField::Active => Settings {
                active_fg_colour: step(self.active_fg_colour),
                ..self
            }.with_styles(),
            EditSettingField::Title => Settings {
                title_fg_colour: step(self.title_fg_colour),
                ..self
            }.with_styles(),
            EditSettingField::Border => Settings {
                border_colour: step(self.border_colour),
                ..self
            }.with_styles(),
        }
    }

    /// Recomputes the six styles from the seven colours.
    pub fn set_colours(&mut self)
        ensures
            *final(self) == old(self).with_styles(),
            final(self).styles_derived(),
    {
        self.default = Style { fg: self.normal_fg_colour, bg: self.normal_bg_colour };
        self.highlight = Style { fg: self.select_fg_colour, bg: self.select_bg_colour };
        self.active_normal = Style { fg: self.active_fg_colour, bg: self.normal_bg_colour };
        self.active_highlight = Style { fg: self.active_fg_colour, bg: self.select_bg_colour };
        self.title = Style { fg: self.title_fg_colour, bg: self.normal_bg_colour };
        self.border = Style { fg: self.border_colour, bg: self.normal_bg_colour };
    }

    /// The default settings: a horizontal split, white on black, the
    /// selection inverted, and green for the active task, titles and borders.
    pub fn default_settings() -> (settings: Settings)
        ensures
            settings == Settings::spec_default_settings(),
            settings.styles_derived(),
    {
        let blank = Style { fg: Colour::Reset, bg: Colour::Reset };
        let mut settings = Settings {
            is_horizontal: true,
            default: blank,
            highlight: blank,
            active_normal: blank,
            active_highlight: blank,
            title: blank,
            border: blank,
            normal_fg_colour: Colour::White,
            normal_bg_colour: Colour::Black,
            select_fg_colour: Colour::Black,
            select_bg_colour: Colour::White,
            active_fg_colour: Colour::Green,
            title_fg_colour: Colour::Green,
            border_colour: Colour::Green,
        };
        settings.set_colours();
        settings
    }

    /// Steps the value of `field` one place forward.
    pub fn inc_setting(&mut self, field: EditSettingField)
        ensures
            *final(self) == old(self).stepped(field, true),
    {
        match field {
            EditSettingField::Split => {
                self.is_horizontal = !self.is_horizontal;
            },
            EditSettingField::NormalFg => {
                self.normal_fg_colour = next_colour(self.normal_fg_colour);
                self.set_colours();
            },
            EditSettingField::NormalBg => {
                self.normal_bg_colour = next_colour(self.normal_bg_colour);
                self.set_colours();
            },
            EditSettingField::SelectionFg => {
                self.select_fg_colour = next_colour(self.select_fg_colour);
                self.set_colours();
            },
            EditSettingField::SelectionBg => {
                self.select_bg_colour = next_colour(self.select_bg_colour);
                self.set_colours();
            },
            EditSettingField::Active => {
                self.active_fg_colour = next_colour(self.active_fg_colour);
                self.set_colours();
            },
            EditSettingField::Title => {
                self.title_fg_colour = next_colour(self.title_fg_colour);
                self.set_colours();
            },
            EditSettingField::Border => {
                self.border_colour = next_colour(self.border_colour);
                self.set_colours();
            },
        }
    }

    /// Steps the value of `field` one place backward.
    pub fn dec_setting(&mut self, field: EditSettingField)
        ensures
            *final(self) == old(self).stepped(field, false),
    {
        match field {
            EditSettingField::Split => {
                self.is_horizontal = !self.is_horizontal;
            },
            EditSettingField::NormalFg => {
                self.normal_fg_colour = prev_colour(self.normal_fg_colour);
                self.set_colours();
            },
            EditSettingField::NormalBg => {
                self.normal_bg_colour = prev_colour(self.normal_bg_colour);
                self.set_colours();
            },
            EditSettingField::SelectionFg => {
                self.select_fg_colour = prev_colour(self.select_fg_colour);
                self.set_colours();
            },
            EditSettingField::SelectionBg => {
                self.select_bg_colour = prev_colour(self.select_bg_colour);
                self.set_colours();
            },
            EditSettingField::Active => {
                self.active_fg_colour = prev_colour(self.active_fg_colour);
                self.set_colours();
            },
            EditSettingField::Title => {
                self.title_fg_colour = prev_colour(self.title_fg_colour);
                self.set_colours();
            },
            EditSettingField::Border => {
                self.border_colour = prev_colour(self.border_colour);
                self.set_colours();
            },
        }
    }
}

/// Stepping a colour setting leaves the styles derived from the colours,
/// whatever they were before; flipping the orientation keeps them as they
/// were.
pub proof fn lemma_step_keeps_styles(settings: Settings, field: EditSettingField, forward: bool)
    ensures
        field != EditSettingField::Split ==> settings.stepped(field, forward).styles_derived(),
        settings.styles_derived() ==> settings.stepped(field, forward).styles_derived(),
{
}

/// Flipping the orientation twice, in either direction, restores the
/// settings.
pub proof fn lemma_split_flip_twice(settings: Settings, first: bool, second: bool)
    ensures
        settings.stepped(EditSettingField::Split, first).stepped(EditSettingField::Split, second)
            == settings,
{
}

} // verus!
