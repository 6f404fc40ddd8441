use codex_island_core::window::{
    expanded_height, fullscreen_overlay_level, island_x, should_promote_window_to_panel, window_size,
    ExpandedView,
};

#[test]
fn list_height_tracks_visible_rows() {
    assert_eq!(expanded_height(ExpandedView::List, 1), 180);
    assert_eq!(expanded_height(ExpandedView::List, 3), 348);
}

#[test]
fn detail_and_empty_use_fixed_compact_heights() {
    assert_eq!(expanded_height(ExpandedView::Detail, 5), 300);
    assert_eq!(expanded_height(ExpandedView::Empty, 0), 280);
}

#[test]
fn fullscreen_overlay_level_stays_above_shielding_windows() {
    assert_eq!(fullscreen_overlay_level(25, 1000, 120), 1000);
    assert_eq!(fullscreen_overlay_level(25, 100, 120), 121);
    assert_eq!(fullscreen_overlay_level(200, 100, 120), 200);
}

#[test]
fn tauri_window_does_not_attempt_panel_style_promotion() {
    assert!(!should_promote_window_to_panel());
}

#[test]
fn window_is_sized_for_its_state() {
    assert_eq!(window_size(false, ExpandedView::List, 3), (420, 88));
    assert_eq!(window_size(true, ExpandedView::List, 3), (620, 348));
    assert_eq!(window_size(true, ExpandedView::Detail, 0), (620, 300));
}

#[test]
fn window_is_centred_on_its_monitor() {
    assert_eq!(island_x(0, 1440, 420), 510);
    assert_eq!(island_x(-100, 1000, 620), 90);
    assert_eq!(island_x(0, 1001, 620), 190);
    assert_eq!(island_x(50, 300, 420), -10);
    assert_eq!(island_x(0, 301, 420), -59);
}
