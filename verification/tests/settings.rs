use task_tracker::colour::{colour_to_string, next_colour, prev_colour, Colour};
use task_tracker::settings::{EditSettingField, Settings, Style};

const PALETTE: [Colour; 9] = [
    Colour::White,
    Colour::Cyan,
    Colour::Red,
    Colour::Green,
    Colour::Blue,
    Colour::Yellow,
    Colour::Gray,
    Colour::DarkGray,
    Colour::Black,
];

#[test]
fn next_colour_walks_the_palette() {
    for i in 0..9 {
        assert_eq!(next_colour(PALETTE[i]), PALETTE[(i + 1) % 9]);
    }
}

#[test]
fn prev_colour_walks_the_palette_backwards() {
    for i in 0..9 {
        assert_eq!(prev_colour(PALETTE[(i + 1) % 9]), PALETTE[i]);
    }
}

#[test]
fn colours_outside_the_palette_step_to_reset() {
    for colour in [Colour::Reset, Colour::Magenta, Colour::LightRed, Colour::Rgb(1, 2, 3), Colour::Indexed(7)] {
        assert_eq!(next_colour(colour), Colour::Reset);
        assert_eq!(prev_colour(colour), Colour::Reset);
    }
}

#[test]
fn colour_names() {
    assert_eq!(colour_to_string(Colour::White), "White");
    assert_eq!(colour_to_string(Colour::Cyan), "Cyan");
    assert_eq!(colour_to_string(Colour::Red), "Red");
    assert_eq!(colour_to_string(Colour::Green), "Green");
    assert_eq!(colour_to_string(Colour::Blue), "Blue");
    assert_eq!(colour_to_string(Colour::Yellow), "Yellow");
    assert_eq!(colour_to_string(Colour::Gray), "Gray");
    assert_eq!(colour_to_string(Colour::DarkGray), "Dark gray");
    assert_eq!(colour_to_string(Colour::Black), "Black");
    assert_eq!(colour_to_string(Colour::Magenta), "Unknown");
    assert_eq!(colour_to_string(Colour::Rgb(0, 0, 0)), "Unknown");
}

#[test]
fn default_settings_values() {
    let s = Settings::default_settings();
    assert!(s.is_horizontal);
    assert_eq!(s.normal_fg_colour, Colour::White);
    assert_eq!(s.normal_bg_colour, Colour::Black);
    assert_eq!(s.select_fg_colour, Colour::Black);
    assert_eq!(s.select_bg_colour, Colour::White);
    assert_eq!(s.active_fg_colour, Colour::Green);
    assert_eq!(s.title_fg_colour, Colour::Green);
    assert_eq!(s.border_colour, Colour::Green);
    assert_eq!(s.default, Style { fg: Colour::White, bg: Colour::Black });
    assert_eq!(s.highlight, Style { fg: Colour::Black, bg: Colour::White });
    assert_eq!(s.active_normal, Style { fg: Colour::Green, bg: Colour::Black });
    assert_eq!(s.active_highlight, Style { fg: Colour::Green, bg: Colour::White });
    assert_eq!(s.title, Style { fg: Colour::Green, bg: Colour::Black });
    assert_eq!(s.border, Style { fg: Colour::Green, bg: Colour::Black });
}

#[test]
fn stepping_a_colour_recomputes_the_styles() {
    let mut s = Settings::default_settings();
    s.inc_setting(EditSettingField::NormalBg);
    assert_eq!(s.normal_bg_colour, Colour::White);
    assert_eq!(s.default, Style { fg: Colour::White, bg: Colour::White });
    assert_eq!(s.active_normal, Style { fg: Colour::Green, bg: Colour::White });
    assert_eq!(s.title, Style { fg: Colour::Green, bg: Colour::White });
    assert_eq!(s.border, Style { fg: Colour::Green, bg: Colour::White });
    assert_eq!(s.highlight, Style { fg: Colour::Black, bg: Colour::White });
    s.dec_setting(EditSettingField::Active);
    assert_eq!(s.active_fg_colour, Colour::Red);
    assert_eq!(s.active_normal, Style { fg: Colour::Red, bg: Colour::White });
    assert_eq!(s.active_highlight, Style { fg: Colour::Red, bg: Colour::White });
}

#[test]
fn stepping_each_colour_field_moves_only_its_colour() {
    let fields = [
        EditSettingField::NormalFg,
        EditSettingField::NormalBg,
        EditSettingField::SelectionFg,
        EditSettingField::SelectionBg,
        EditSettingField::Active,
        EditSettingField::Title,
        EditSettingField::Border,
    ];
    for (n, field) in fields.iter().enumerate() {
        let d = Settings::default_settings();
        let mut s = d;
        s.inc_setting(*field);
        let before = [
            d.normal_fg_colour,
            d.normal_bg_colour,
            d.select_fg_colour,
            d.select_bg_colour,
            d.active_fg_colour,
            d.title_fg_colour,
            d.border_colour,
        ];
        let after = [
            s.normal_fg_colour,
            s.normal_bg_colour,
            s.select_fg_colour,
            s.select_bg_colour,
            s.active_fg_colour,
            s.title_fg_colour,
            s.border_colour,
        ];
        for k in 0..7 {
            if k == n {
                assert_eq!(after[k], next_colour(before[k]));
            } else {
                assert_eq!(after[k], before[k]);
            }
        }
        assert_eq!(s.is_horizontal, d.is_horizontal);
        s.dec_setting(*field);
        assert_eq!(s, d);
    }
}

#[test]
fn stepping_the_split_flips_it() {
    let mut s = Settings::default_settings();
    s.inc_setting(EditSettingField::Split);
    assert!(!s.is_horizontal);
    s.dec_setting(EditSettingField::Split);
    assert!(s.is_horizontal);
    let d = Settings::default_settings();
    assert_eq!(s, d);
}

#[test]
fn set_colours_derives_every_style() {
    let mut s = Settings::default_settings();
    s.normal_fg_colour = Colour::Yellow;
    s.select_bg_colour = Colour::Blue;
    s.border_colour = Colour::Rgb(9, 9, 9);
    s.set_colours();
    assert_eq!(s.default, Style { fg: Colour::Yellow, bg: Colour::Black });
    assert_eq!(s.highlight, Style { fg: Colour::Black, bg: Colour::Blue });
    assert_eq!(s.active_highlight, Style { fg: Colour::Green, bg: Colour::Blue });
    assert_eq!(s.border, Style { fg: Colour::Rgb(9, 9, 9), bg: Colour::Black });
}

#[test]
fn setting_selection_stops_at_both_ends() {
    let mut f = EditSettingField::Split;
    assert_eq!(f.prev(), EditSettingField::Split);
    let order = [
        EditSettingField::NormalFg,
        EditSettingField::NormalBg,
        EditSettingField::SelectionFg,
        EditSettingField::SelectionBg,
        EditSettingField::Active,
        EditSettingField::Title,
        EditSettingField::Border,
    ];
    for expected in order {
        let before = f;
        f = f.next();
        assert_eq!(f, expected);
        assert_eq!(f.prev(), before);
    }
    assert_eq!(f.next(), EditSettingField::Border);
}
