use devtools::theme::{ButtonThemeWith, FontThemeWith, Theme};

#[test]
fn light_theme_values() {
    let t = Theme::light();
    assert_eq!(t.name, "light");
    assert_eq!(t.body.background, "white");
    assert_eq!(t.body.color, "black");
    assert_eq!(t.button.background, "rgb(245, 245, 245)");
    assert_eq!(t.button.hover_background, "rgb(235, 235, 235)");
    assert_eq!(t.button.font_theme.color, "rgb(10, 10, 10)");
}

#[test]
fn dark_theme_values() {
    let t = Theme::dark();
    assert_eq!(t.name, "dark");
    assert_eq!(t.body.background, "rgb(25, 25, 25)");
    assert_eq!(t.body.color, "white");
    assert_eq!(t.button.background, "rgb(35, 35, 35)");
    assert_eq!(t.button.hover_background, "rgb(45, 45, 45)");
    assert_eq!(t.button.font_theme.color, "white");
}

#[test]
fn default_theme_is_light() {
    let t = Theme::default();
    assert_eq!(t.name, "light");
    assert_eq!(t.body.color, "black");
}

#[test]
fn overrides_overwrite_only_what_they_carry() {
    let mut t = Theme::light();
    t.button.apply_optional(&ButtonThemeWith {
        background: Some("blue".to_string()),
        hover_background: None,
        font_theme: Some(FontThemeWith { color: Some("red".to_string()) }),
    });
    assert_eq!(t.button.background, "blue");
    assert_eq!(t.button.hover_background, "rgb(235, 235, 235)");
    assert_eq!(t.button.font_theme.color, "red");
}

#[test]
fn tab_button_fill_follows_hover() {
    let t = Theme::dark();
    assert_eq!(t.button.fill(false).as_str(), "rgb(35, 35, 35)");
    assert_eq!(t.button.fill(true).as_str(), "rgb(45, 45, 45)");
}
