use qstudio::theme::{github_dark, github_light, Color};

#[test]
fn palettes_hold_their_colours() {
    let light = github_light();
    assert_eq!(light.rosewater, Color::from_rgb(255, 243, 245));
    assert_eq!(light.text, Color { r: 36, g: 41, b: 46, a: 255 });
    assert_eq!(light.crust, Color::from_rgb(240, 240, 240));
    let dark = github_dark();
    assert_eq!(dark.base, Color::from_rgb(13, 17, 23));
    assert_eq!(dark.crust, Color { r: 0, g: 0, b: 0, a: 255 });
    assert_ne!(light, dark);
}
