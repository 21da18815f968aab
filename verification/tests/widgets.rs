use thrustr::components::button::Button;
use thrustr::components::icon::Icon;
use thrustr::components::label::{Label, LabelPalette};
use thrustr::components::scrollbar::{
    scrollable_axes, MoveRoute, PointerEffects, ScrollAxes, ScrollbarAxis, ThumbState, ThumbTracker,
};
use thrustr::components::sidebar::{item_style, sidebar_palette, SidebarKind};
use thrustr::components::dialog::{Dialog, DialogAction, DialogFocus};
use thrustr::components::input::field::input;
use thrustr::components::input::state::{InputState, DEFAULT_MASK};
use thrustr::decorations::{
    client_inset, decorated_sides, resize_cursor, resize_edge, rounded_client_corners,
    rounded_corners, shows_shadow, Corners, PointerZone, ResizeCursor, ResizeEdge, Sides, Tiling,
    WindowDecorations, CLIENT_SIDE_DECORATION_SHADOW,
};
use thrustr::foundation::{FontWeight, Size, ThemeColor, Variant, WithSize, WithVariant};
use thrustr::legacy_games::api::models::{Product, ProductGame};
use thrustr::legacy_games::plugin::LegacyGames;

fn product_game(id: &str, name: &str) -> ProductGame {
    ProductGame {
        game_id: id.to_string(),
        game_name: name.to_string(),
        game_description: format!("About {name}"),
        game_coverart: format!("{id}.png"),
        installer_uuid: format!("u-{id}"),
    }
}

#[test]
fn all_games_of_an_account_come_product_by_product() {
    let products = vec![
        Product { id: 3, games: vec![product_game("a", "A"), product_game("b", "B")] },
        Product { id: 1, games: vec![] },
        Product { id: 12, games: vec![product_game("c", "C")] },
    ];
    let games = LegacyGames::get_games(&products);
    let summary: Vec<(String, String, String)> = games
        .iter()
        .map(|g| (g.name.clone(), g.lookup_id.clone(), g.external_ids[1].1.clone()))
        .collect();
    assert_eq!(
        summary,
        vec![
            ("A".to_string(), "u-a".to_string(), "3".to_string()),
            ("B".to_string(), "u-b".to_string(), "3".to_string()),
            ("C".to_string(), "u-c".to_string(), "12".to_string()),
        ]
    );
    assert!(LegacyGames::get_games(&vec![]).is_empty());
}

#[test]
fn button_sizes_follow_variant_and_size() {
    let b = Button::new();
    assert_eq!(b.height(), 38);
    assert_eq!(b.padding(), 18);
    assert_eq!(b.width_rule(), Err(18));
    let small = Button::new().size(Size::Small);
    assert_eq!(small.height(), 32);
    assert_eq!(small.padding(), 12);
    let large = Button::new().size(Size::Large);
    assert_eq!(large.height(), 42);
    assert_eq!(large.padding(), 20);
    let ghost = Button::new().variant(Variant::Ghosted).size(Size::Large);
    assert_eq!(ghost.height(), 16);
    assert_eq!(ghost.padding(), 4);
    let icon = Button::icon().size(Size::Small);
    assert_eq!(icon.width_rule(), Ok(32));
}

#[test]
fn busy_or_disabled_buttons_do_not_react() {
    assert!(Button::new().is_interactive());
    assert!(!Button::new().loading().is_interactive());
    assert!(!Button::new().disabled().is_interactive());
    let b = Button::icon().loading();
    assert!(b.has_icon && b.loading && !b.disabled);
}

#[test]
fn dialog_defaults_and_builders() {
    let d = Dialog::new();
    assert_eq!(d.cancel_text, "Cancel");
    assert_eq!(d.ok_text, "Ok");
    assert!(d.has_overlay() && d.overlay_closable && d.title.is_none());
    let d = d
        .title("Delete".to_string())
        .ok_text("Delete".to_string())
        .cancel_text("Keep".to_string())
        .error("Failed".to_string())
        .overlay_closable(false);
    assert_eq!(d.title.as_deref(), Some("Delete"));
    assert_eq!(d.ok_text, "Delete");
    assert_eq!(d.cancel_text, "Keep");
    assert_eq!(d.error.as_deref(), Some("Failed"));
    assert!(!d.overlay_closable);
}

#[test]
fn dialog_buttons_and_keys() {
    let d = Dialog::new();
    assert_eq!(d.on_cancel(), DialogAction::CancelAndClose);
    assert_eq!(d.on_confirm(), DialogAction::Confirm);
    assert_eq!(d.button_states(), (false, false, false));
    let off = Dialog::new().disabled();
    assert_eq!(off.on_confirm(), DialogAction::Ignore);
    assert_eq!(off.on_cancel(), DialogAction::CancelAndClose);
    assert_eq!(off.button_states(), (true, false, false));
    let busy = Dialog::new().loading();
    assert_eq!(busy.on_confirm(), DialogAction::Ignore);
    assert_eq!(busy.on_cancel(), DialogAction::Ignore);
    assert_eq!(busy.button_states(), (false, true, true));
    assert_eq!(busy.focus_on_render(false), DialogFocus::Dialog);
    assert_eq!(d.focus_on_render(false), DialogFocus::DialogThenFirst);
    assert_eq!(d.focus_on_render(true), DialogFocus::Stay);
}

#[test]
fn only_the_topmost_overlay_cancels() {
    let mut lower = Dialog::new();
    lower.layer_ix = 0;
    let mut upper = Dialog::new();
    upper.layer_ix = 1;
    assert!(!lower.overlay_click_cancels(2));
    assert!(upper.overlay_click_cancels(2));
    assert!(!upper.overlay_click_cancels(3));
    assert!(!upper.overlay_closable(false).overlay_click_cancels(2));
}

#[test]
fn field_settings_reach_the_state() {
    let mut state = InputState::new();
    input()
        .value("secret".to_string())
        .placeholder("Password".to_string())
        .masked(true)
        .mask("*".to_string())
        .max_length(8)
        .sync_state(&mut state);
    assert_eq!(state.value(), "secret");
    assert_eq!(state.placeholder(), "Password");
    assert!(state.is_masked());
    assert_eq!(state.mask(), "*");
    assert_eq!(state.max_length(), Some(8));

    input().sync_state(&mut state);
    assert_eq!(state.value(), "secret");
    assert_eq!(state.placeholder(), "");
    assert!(!state.is_masked());
    assert_eq!(state.mask(), DEFAULT_MASK);
    assert_eq!(state.max_length(), None);
}

#[test]
fn field_builders_keep_the_other_settings() {
    let f = input().tab_index(3).tab_stop(false).max_length(2);
    assert_eq!(f.tab_index, 3);
    assert!(!f.tab_stop);
    assert_eq!(f.max_length, Some(2));
    assert!(f.value.is_none() && !f.masked && !f.disabled);
}

fn zone() -> PointerZone {
    PointerZone {
        inner: false,
        top_left: false,
        top_right: false,
        bottom_left: false,
        bottom_right: false,
        above_top: false,
        below_bottom: false,
        left_of_left: false,
        right_of_right: false,
    }
}

#[test]
fn resize_edges_by_zone() {
    let free = Tiling::default();
    assert_eq!(resize_edge(PointerZone { inner: true, top_left: true, ..zone() }, free), None);
    assert_eq!(
        resize_edge(PointerZone { top_left: true, above_top: true, left_of_left: true, ..zone() }, free),
        Some(ResizeEdge::TopLeft)
    );
    assert_eq!(
        resize_edge(PointerZone { bottom_right: true, ..zone() }, free),
        Some(ResizeEdge::BottomRight)
    );
    assert_eq!(
        resize_edge(PointerZone { above_top: true, left_of_left: true, ..zone() }, free),
        Some(ResizeEdge::Top)
    );
    assert_eq!(resize_edge(PointerZone { right_of_right: true, ..zone() }, free), Some(ResizeEdge::Right));
    assert_eq!(resize_edge(zone(), free), None);
}

#[test]
fn tiled_sides_are_never_resized() {
    let top = Tiling { top: true, ..Tiling::default() };
    assert_eq!(
        resize_edge(PointerZone { top_left: true, left_of_left: true, ..zone() }, top),
        Some(ResizeEdge::Left)
    );
    assert_eq!(resize_edge(PointerZone { above_top: true, ..zone() }, top), None);
    let all = Tiling { top: true, left: true, right: true, bottom: true };
    let everywhere = PointerZone {
        inner: false,
        top_left: true,
        top_right: true,
        bottom_left: true,
        bottom_right: true,
        above_top: true,
        below_bottom: true,
        left_of_left: true,
        right_of_right: true,
    };
    assert_eq!(resize_edge(everywhere, all), None);
}

#[test]
fn resize_cursors_follow_the_edge() {
    assert_eq!(resize_cursor(ResizeEdge::Top), ResizeCursor::UpDown);
    assert_eq!(resize_cursor(ResizeEdge::Bottom), ResizeCursor::UpDown);
    assert_eq!(resize_cursor(ResizeEdge::Left), ResizeCursor::LeftRight);
    assert_eq!(resize_cursor(ResizeEdge::TopLeft), ResizeCursor::UpLeftDownRight);
    assert_eq!(resize_cursor(ResizeEdge::BottomRight), ResizeCursor::UpLeftDownRight);
    assert_eq!(resize_cursor(ResizeEdge::TopRight), ResizeCursor::UpRightDownLeft);
    assert_eq!(resize_cursor(ResizeEdge::BottomLeft), ResizeCursor::UpRightDownLeft);
}

#[test]
fn corners_round_away_from_tiled_sides() {
    let left = Tiling { left: true, ..Tiling::default() };
    assert_eq!(
        rounded_corners(Corners::all(), left),
        Corners { top_left: false, top_right: true, bottom_right: true, bottom_left: false }
    );
    assert_eq!(rounded_client_corners(Corners::all(), WindowDecorations::Server), Corners::none());
    assert_eq!(
        rounded_client_corners(Corners::all(), WindowDecorations::Client(Tiling::default())),
        Corners::all()
    );
    assert_eq!(
        decorated_sides(left),
        Sides { top: true, left: false, right: true, bottom: true }
    );
    assert!(shows_shadow(Tiling::default()));
    assert!(!shows_shadow(left));
    assert!(left.is_tiled());
    assert_eq!(client_inset(WindowDecorations::Server), 0);
    assert_eq!(client_inset(WindowDecorations::Client(left)), CLIENT_SIDE_DECORATION_SHADOW);
}

#[test]
fn bars_show_on_open_axes_only() {
    assert_eq!(
        scrollable_axes(ScrollAxes::Both, true, true),
        vec![ScrollbarAxis::Horizontal, ScrollbarAxis::Vertical]
    );
    assert_eq!(scrollable_axes(ScrollAxes::Both, false, true), vec![ScrollbarAxis::Vertical]);
    assert_eq!(scrollable_axes(ScrollAxes::Vertical, true, false), vec![]);
    assert_eq!(scrollable_axes(ScrollAxes::Horizontal, true, true), vec![ScrollbarAxis::Horizontal]);
}

#[test]
fn thumb_follows_the_pointer() {
    let mut t: ThumbTracker<f32> = ThumbTracker::new();
    assert_eq!(t.route_move(false, false), MoveRoute::Hover);
    let e = t.hover_move(true, Some(ScrollbarAxis::Vertical));
    assert_eq!(e, PointerEffects { mark_activity: true, notify: true });
    assert_eq!(t.thumb, ThumbState::Hover(ScrollbarAxis::Vertical));
    let e = t.hover_move(true, Some(ScrollbarAxis::Vertical));
    assert_eq!(e, PointerEffects { mark_activity: true, notify: false });
    assert!(t.fully_shown(false));

    t.press(ScrollbarAxis::Vertical, 4.5);
    assert!(t.thumb.is_dragging());
    assert_eq!(t.route_move(true, true), MoveRoute::Drag(ScrollbarAxis::Vertical, 4.5));
    assert_eq!(t.route_move(false, true), MoveRoute::Ignore);
    let e = t.release(None);
    assert_eq!(e, PointerEffects { mark_activity: true, notify: true });
    assert_eq!(t.thumb, ThumbState::Inactive);

    let e = t.hover_move(false, Some(ScrollbarAxis::Horizontal));
    assert_eq!(e, PointerEffects { mark_activity: true, notify: true });
    assert!(!t.was_hovered);
    let e = t.hover_move(false, None);
    assert_eq!(e, PointerEffects { mark_activity: false, notify: false });
    assert!(!t.fully_shown(false));
    assert!(t.fully_shown(true));
}

#[test]
fn icons_pick_their_picture_and_length() {
    assert_eq!(Icon::x().path, "icons/x.svg");
    assert_eq!(Icon::storefront().path, "icons/storefront.svg");
    assert_eq!(Icon::new("a.svg".to_string()).path, "a.svg");
    assert_eq!(Icon::length(Size::Small), 16);
    assert_eq!(Icon::length(Size::Medium), 18);
    assert_eq!(Icon::length(Size::Large), 20);
    let big = Icon::menu().size(Size::Large);
    assert_eq!(big.size, Size::Large);
    assert_eq!(Icon::length(big.size), 20);
}

#[test]
fn button_palettes_by_variant() {
    let p = Button::new().palette();
    assert_eq!(p.background, ThemeColor::Transparent);
    assert_eq!(p.foreground, ThemeColor::Primary);
    assert_eq!(p.border, ThemeColor::Border);
    assert_eq!(p.weight, FontWeight::Semibold);
    let p = Button::new().variant(Variant::Danger).palette();
    assert_eq!(p.background, ThemeColor::Danger);
    assert_eq!(p.foreground, ThemeColor::DangerForeground);
    assert_eq!(p.border, ThemeColor::Transparent);
    assert_eq!(p.ring, ThemeColor::Primary);
    let p = Button::new().variant(Variant::Ghosted).palette();
    assert_eq!(p.foreground, ThemeColor::Secondary);
    assert_eq!(p.ring, ThemeColor::Secondary);
    assert_eq!(p.weight, FontWeight::Normal);
}

#[test]
fn label_colours_follow_variant_and_fill() {
    let plain = Label::new("New".to_string());
    assert_eq!(plain.text, "New");
    assert_eq!(
        plain.colors(),
        LabelPalette { background: None, foreground: ThemeColor::Secondary }
    );
    let warn = Label::new("Low".to_string()).variant(Variant::Warning).filled().status_dot(true);
    assert_eq!(warn.status_dot, Some(true));
    assert_eq!(
        warn.colors(),
        LabelPalette { background: Some(ThemeColor::WarningBackground), foreground: ThemeColor::Warning }
    );
    assert_eq!(Label::accent(Variant::Accent), ThemeColor::Accent);
    assert_eq!(
        Label::palette(Variant::Outline, true, ThemeColor::Secondary),
        LabelPalette { background: None, foreground: ThemeColor::Secondary }
    );
}

#[test]
fn sidebar_palettes_by_kind() {
    let main = sidebar_palette(SidebarKind::Main);
    assert_eq!(main.hover, ThemeColor::SidebarHover);
    assert_eq!(main.ring, ThemeColor::SidebarPrimary);
    let content = sidebar_palette(SidebarKind::Content);
    assert_eq!(content.active_bg, ThemeColor::Surface);
    assert_eq!(content.muted_fg, ThemeColor::Secondary);
}

#[test]
fn dialog_buttons_take_the_dialog_state() {
    let d = Dialog::new();
    let ok = d.ok_button();
    assert_eq!((ok.variant, ok.size, ok.disabled, ok.loading), (Variant::Accent, Size::Large, false, false));
    let cancel = d.cancel_button();
    assert_eq!((cancel.variant, cancel.size, cancel.disabled), (Variant::Ghosted, Size::Large, false));
    let busy = Dialog::new().disabled().loading();
    let ok = busy.ok_button();
    assert!(ok.disabled && ok.loading && !ok.is_interactive());
    assert!(busy.cancel_button().disabled);
}

#[test]
fn sidebar_items_mark_the_active_one() {
    let palette = sidebar_palette(SidebarKind::Content);
    let active = item_style(palette, true, true, true);
    assert_eq!(active.foreground, ThemeColor::Primary);
    assert_eq!(active.weight, FontWeight::Semibold);
    assert_eq!(active.background, Some(ThemeColor::Surface));
    assert_eq!(active.ring, Some(ThemeColor::Primary));
    assert_eq!(active.icon_size, Size::Medium);
    let unfocused = item_style(palette, true, false, false);
    assert_eq!(unfocused.ring, None);
    assert_eq!(unfocused.icon_size, Size::Large);
    let idle = item_style(palette, false, true, true);
    assert_eq!(idle.foreground, ThemeColor::Secondary);
    assert_eq!(idle.weight, FontWeight::Normal);
    assert_eq!(idle.background, None);
    assert_eq!(idle.ring, None);
}
