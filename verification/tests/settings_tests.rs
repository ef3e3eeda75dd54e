use baker::roster::Operator;
use baker::settings::{
    background_mode_from_value, background_mode_value, background_style, repo_url,
    select_background_mode, set_custom_color, set_custom_image, tab_class, BackgroundMode,
    BackgroundSettings, OperatorEditor, SettingsSection,
};

fn bg(mode: BackgroundMode, color: &str, image: &str) -> BackgroundSettings {
    BackgroundSettings { mode, custom_color: color.to_string(), custom_image: image.to_string() }
}

#[test]
fn modes_read_back_from_their_values() {
    for m in [
        BackgroundMode::DotDark,
        BackgroundMode::DotLight,
        BackgroundMode::CustomColor,
        BackgroundMode::CustomImage,
    ] {
        assert_eq!(background_mode_from_value(background_mode_value(m)), m);
    }
    assert_eq!(background_mode_value(BackgroundMode::CustomColor), "custom_color");
    assert_eq!(background_mode_from_value("nonsense"), BackgroundMode::DotDark);
}

#[test]
fn background_styles() {
    assert_eq!(
        background_style(&bg(BackgroundMode::DotDark, "#fff", "")),
        "background-color: #1a1a1a; background-image: radial-gradient(#2a2a2a 1px, transparent 1px); background-size: 20px 20px;"
    );
    assert_eq!(
        background_style(&bg(BackgroundMode::DotLight, "#fff", "")),
        "background-color: #f2f2f2; background-image: radial-gradient(#d0d0d0 1px, transparent 1px); background-size: 20px 20px;"
    );
    assert_eq!(background_style(&bg(BackgroundMode::CustomColor, "#123456", "img")), "background-color: #123456;");
    assert_eq!(background_style(&bg(BackgroundMode::CustomImage, "#abc", "")), "background-color: #abc;");
    assert_eq!(
        background_style(&bg(BackgroundMode::CustomImage, "#abc", "data:p")),
        "background-image: url(data:p); background-size: cover; background-position: center; background-repeat: no-repeat; background-color: #1a1a1a;"
    );
}

#[test]
fn picking_a_colour_or_image_switches_mode() {
    let mut b = bg(BackgroundMode::DotDark, "#000000", "");
    set_custom_color(&mut b, "#ff0000".to_string());
    assert_eq!(b, bg(BackgroundMode::CustomColor, "#ff0000", ""));
    set_custom_image(&mut b, "data:img".to_string());
    assert_eq!(b, bg(BackgroundMode::CustomImage, "#ff0000", "data:img"));
    select_background_mode(&mut b, "dot_light");
    assert_eq!(b, bg(BackgroundMode::DotLight, "#ff0000", "data:img"));
}

#[test]
fn tabs_highlight_the_open_section() {
    assert_eq!(tab_class(SettingsSection::Language, SettingsSection::Language), "bg-[#2b2b2b] text-white");
    assert_eq!(
        tab_class(SettingsSection::Language, SettingsSection::About),
        "text-gray-400 hover:text-white hover:bg-white/5"
    );
}

#[test]
fn repository_link() {
    assert_eq!(repo_url("someone", "baker"), "https://github.com/someone/baker");
}

#[test]
fn operator_editor_round() {
    let mut e = OperatorEditor::new();
    assert!(!e.is_editing("1"));
    let o = Operator { id: "1".to_string(), name: "Amiya".to_string(), avatar_url: "a".to_string() };
    e.start(&o);
    assert!(e.is_editing("1"));
    assert_eq!(e.name, "Amiya");
    assert_eq!(e.avatar_url, "a");
    e.cancel();
    assert!(!e.is_editing("1"));
}
