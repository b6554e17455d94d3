use mdreader::theme::spacing::Spacing;
use mdreader::theme::tokens::{Color, Tokens};
use mdreader::theme::Theme;

#[test]
fn scale_is_strictly_monotonic() {
    let scale = [Spacing::Xs, Spacing::Sm, Spacing::Md, Spacing::Lg, Spacing::Xl];
    for pair in scale.windows(2) {
        assert!(
            pair[0].cells() < pair[1].cells(),
            "{:?}={} ≥ {:?}={}",
            pair[0],
            pair[0].cells(),
            pair[1],
            pair[1].cells()
        );
    }
}

#[test]
fn spacing_cells() {
    assert_eq!(Spacing::Xs.cells(), 1);
    assert_eq!(Spacing::Sm.cells(), 2);
    assert_eq!(Spacing::Md.cells(), 3);
    assert_eq!(Spacing::Lg.cells(), 5);
    assert_eq!(Spacing::Xl.cells(), 8);
}

#[test]
fn selection_background_differs_from_surfaces() {
    for theme in Theme::all() {
        let t = Tokens::from_theme(theme);
        assert_ne!(t.state.selection_bg, t.surface.base, "{theme:?}");
        assert_ne!(t.state.selection_bg, t.surface.raised, "{theme:?}");
    }
}

#[test]
fn dracula_shares_one_background() {
    let t = Tokens::from_theme(Theme::Dracula);
    assert_eq!(t.surface.raised, t.surface.base);
    assert_eq!(t.surface.base, Color::Rgb(40, 42, 54));
}

#[test]
fn theme_tokens_sample_slots() {
    let d = Tokens::from_theme(Theme::Default);
    assert_eq!(d.surface.base, Color::Rgb(20, 20, 30));
    assert_eq!(d.state.focus, Color::Cyan);
    assert_eq!(d.accent.link, Color::Blue);
    let s = Tokens::from_theme(Theme::SolarizedDark);
    assert_eq!(s.state.selection_bg, Color::Rgb(88, 110, 117));
    assert_eq!(s.text.on_accent, Color::Rgb(0, 0, 0));
    assert_eq!(Theme::all().len(), 8);
    assert_eq!(Theme::default(), Theme::Default);
}
