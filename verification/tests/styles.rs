use unsegen_pager::BoolMod;
use unsegen_pager::HighlightInfo;
use unsegen_pager::LineIndex;
use unsegen_pager::Rgb;
use unsegen_pager::StyleMod;

#[test]
fn bool_mod_layering_composes_effects() {
    assert_eq!(BoolMod::Keep.on_top_of(BoolMod::False), BoolMod::False);
    assert_eq!(BoolMod::True.on_top_of(BoolMod::Toggle), BoolMod::True);
    assert_eq!(BoolMod::Toggle.on_top_of(BoolMod::Toggle), BoolMod::Keep);
    assert_eq!(BoolMod::Toggle.on_top_of(BoolMod::True), BoolMod::False);
    assert_eq!(BoolMod::Toggle.on_top_of(BoolMod::Keep), BoolMod::Toggle);
}

#[test]
fn style_layering_lets_replacements_win_and_keeps_fall_through() {
    let mut under = StyleMod::new();
    under.fg = Some(Rgb { r: 1, g: 1, b: 1 });
    under.bg = Some(Rgb { r: 2, g: 2, b: 2 });
    under.bold = BoolMod::True;

    let mut over = StyleMod::new();
    over.fg = Some(Rgb { r: 7, g: 7, b: 7 });
    over.invert = BoolMod::Toggle;

    let combined = over.on_top_of(under);
    assert_eq!(combined.fg, Some(Rgb { r: 7, g: 7, b: 7 }));
    assert_eq!(combined.bg, Some(Rgb { r: 2, g: 2, b: 2 }));
    assert_eq!(combined.bold, BoolMod::True);
    assert_eq!(combined.invert, BoolMod::Toggle);
}

#[test]
fn neutral_delta_changes_nothing() {
    let mut s = StyleMod::new();
    s.fg = Some(Rgb { r: 3, g: 4, b: 5 });
    s.underline = BoolMod::Toggle;
    assert_eq!(StyleMod::new().on_top_of(s), s);
    assert_eq!(s.on_top_of(StyleMod::new()), s);
}

#[test]
fn active_line_delta_toggles_inversion_and_forces_bold() {
    let a = StyleMod::active_line();
    assert_eq!(a.invert, BoolMod::Toggle);
    assert_eq!(a.bold, BoolMod::True);
    assert_eq!(a.fg, None);
    assert_eq!(a.bg, None);
}

#[test]
fn empty_highlight_info_reports_no_changes_for_any_line() {
    let info = HighlightInfo::none();
    assert!(info.get_info_for_line(LineIndex::new(0)).is_empty());
    assert!(info.get_info_for_line(LineIndex::new(1234)).is_empty());
    assert_eq!(info.default_style(), StyleMod::new());
}
