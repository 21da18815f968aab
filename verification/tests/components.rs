use thrustr::components::input::cursor::{Cursor, INTERVAL_MS, PAUSE_DELAY_MS};
use thrustr::components::scrollbar::{FadeTimer, ScrollAxes, ScrollbarAxis};
use thrustr::components::sidebar::{active_index, neighbor_indices};
use thrustr::components::title_bar::{
    controls_placement, default_button_layout, linux_controls, title_click_action, CaptionButton,
    ControlsPlacement, PlatformStyle, TitleBarDrag, WindowAction, WindowButton, WindowControl,
    WindowControlArea,
};
use thrustr::components::tooltip::{Anchor, Side, Tooltip, TooltipState, Transition, SHOW_DELAY_MS};
use thrustr::portal::{after_tab, overlay_index, DialogStack, FocusScan, FocusTarget, TabFollowUp};

#[test]
fn scroll_axes_contain_their_axes() {
    assert!(ScrollAxes::Both.contains(ScrollbarAxis::Horizontal));
    assert!(ScrollAxes::Both.contains(ScrollbarAxis::Vertical));
    assert!(ScrollAxes::Horizontal.contains(ScrollbarAxis::Horizontal));
    assert!(!ScrollAxes::Horizontal.contains(ScrollbarAxis::Vertical));
    assert!(!ScrollAxes::Vertical.contains(ScrollbarAxis::Horizontal));
}

#[test]
fn fade_timer_remembers_the_mark() {
    let mut t = FadeTimer::default();
    assert!(t.since().is_none());
    t.mark();
    let first = t.since().unwrap();
    t.mark();
    assert!(t.since().unwrap() >= first);
}

#[test]
fn sidebar_neighbors_wrap_around() {
    assert_eq!(neighbor_indices(0, None), (None, None));
    assert_eq!(neighbor_indices(3, None), (Some(2), Some(0)));
    assert_eq!(neighbor_indices(3, Some(0)), (Some(2), Some(1)));
    assert_eq!(neighbor_indices(3, Some(2)), (Some(1), Some(0)));
    assert_eq!(neighbor_indices(1, Some(0)), (Some(0), Some(0)));
    assert_eq!(active_index(&vec![false, true, true]), Some(1));
    assert_eq!(active_index(&vec![false, false]), None);
}

#[test]
fn sidebar_up_then_down_comes_back() {
    for count in 1..5 {
        for i in 0..count {
            let (prev, next) = neighbor_indices(count, Some(i));
            assert_eq!(neighbor_indices(count, prev).1, Some(i));
            assert_eq!(neighbor_indices(count, next).0, Some(i));
        }
    }
}

#[test]
fn title_bar_controls_follow_the_platform() {
    assert_eq!(controls_placement(PlatformStyle::Windows, false, false), ControlsPlacement::Caption);
    assert_eq!(controls_placement(PlatformStyle::Windows, true, false), ControlsPlacement::Absent);
    assert_eq!(controls_placement(PlatformStyle::Linux, false, true), ControlsPlacement::DesktopLayout);
    assert_eq!(controls_placement(PlatformStyle::Linux, false, false), ControlsPlacement::Absent);
    assert_eq!(controls_placement(PlatformStyle::Macos, false, true), ControlsPlacement::Absent);
}

#[test]
fn caption_buttons() {
    assert_eq!(CaptionButton::Minimize.id(), "minimize");
    assert_eq!(CaptionButton::Maximize.id(), "maximize");
    assert_eq!(CaptionButton::Close.id(), "close");
    assert_eq!(CaptionButton::Close.control_area(), WindowControlArea::Close);
    assert_eq!(CaptionButton::Maximize.glyph(true), "\u{e923}");
    assert_eq!(CaptionButton::Maximize.glyph(false), "\u{e922}");
}

#[test]
fn linux_controls_keep_supported_buttons() {
    let (left, right) = default_button_layout();
    assert_eq!(linux_controls(&left, true, true, false), None);
    let controls = linux_controls(&right, false, true, true).unwrap();
    let buttons: Vec<WindowButton> = controls.iter().map(|c| c.button).collect();
    assert_eq!(buttons, vec![WindowButton::Maximize, WindowButton::Close]);
    assert_eq!(controls[0].icon(), "icons/restore.svg");
    assert_eq!(WindowControl::new(WindowButton::Maximize, false).icon(), "icons/maximize.svg");
    assert_eq!(controls[1].click_action(), WindowAction::Close);
}

#[test]
fn title_bar_presses() {
    let mut drag = TitleBarDrag::new();
    assert_eq!(drag.on_mouse_move(), None);
    drag.on_mouse_down();
    assert_eq!(drag.on_mouse_move(), Some(WindowAction::StartMove));
    assert_eq!(drag.on_mouse_move(), None);
    drag.on_mouse_down();
    drag.on_mouse_up();
    assert_eq!(drag.on_mouse_move(), None);
    assert_eq!(title_click_action(2, true), Some(WindowAction::TitlebarDoubleClick));
    assert_eq!(title_click_action(2, false), Some(WindowAction::Zoom));
    assert_eq!(title_click_action(1, false), None);
}

#[test]
fn tooltip_sides() {
    assert_eq!(Side::default(), Side::Top);
    assert_eq!(Side::Top.anchor(), Anchor::BottomCenter);
    assert_eq!(Side::Left.anchor(), Anchor::RightCenter);
    assert_eq!(Side::Right.direction(), (1, 0));
    assert_eq!(Side::Top.direction(), (0, -1));
    let t = Tooltip::new("hi".to_string()).side(Side::Bottom).delay(0);
    assert_eq!(t.side, Side::Bottom);
    assert_eq!(t.delay_ms, 0);
    assert_eq!(Tooltip::new("x".to_string()).delay_ms, SHOW_DELAY_MS);
}

#[test]
fn tooltips_open_after_the_delay_and_close() {
    let mut t = TooltipState::new();
    t.set_hovered(true, 500, false);
    assert!(!t.open);
    assert_eq!(t.transition, Some(Transition::Opening));
    t.on_timer(Transition::Opening);
    assert!(t.open && t.mounted);
    assert!(t.is_warm());
    t.set_hovered(false, 500, false);
    assert!(!t.open && t.mounted);
    assert_eq!(t.transition, Some(Transition::Unmounting));
    assert!(t.is_warm());
    t.on_timer(Transition::Unmounting);
    assert!(!t.mounted);
    t.set_hovered(true, 500, true);
    assert!(t.open);
    let fresh = TooltipState::new();
    assert!(!fresh.is_warm());
    assert!(!fresh.is_group_warm(None, false));
    assert!(fresh.is_group_warm(Some(&t), false));
}

#[test]
fn dialogs_trap_and_return_focus() {
    assert_eq!(overlay_index(&vec![true, false, true, false]), Some(2));
    assert_eq!(overlay_index(&vec![false]), None);
    let mut stack = DialogStack::new();
    assert_eq!(stack.trap(), None);
    assert_eq!(stack.open_dialog(10, Some(1)), FocusTarget::Handle(10));
    assert_eq!(stack.open_dialog(11, Some(10)), FocusTarget::Handle(11));
    assert_eq!(stack.trap(), Some(11));
    assert_eq!(stack.close_dialog(), FocusTarget::Handle(10));
    assert_eq!(stack.close_dialog(), FocusTarget::Handle(1));
    assert_eq!(stack.open_dialog(12, None), FocusTarget::Handle(12));
    assert_eq!(stack.close_dialog(), FocusTarget::Keep);
}

#[test]
fn tab_stays_inside_the_top_dialog() {
    assert_eq!(after_tab(false, true, false), TabFollowUp::Done);
    assert_eq!(after_tab(true, true, true), TabFollowUp::Done);
    assert_eq!(after_tab(true, true, false), TabFollowUp::FocusLastChild);
    assert_eq!(after_tab(true, false, false), TabFollowUp::FocusTrapThenNext);
    let mut scan = FocusScan::new();
    assert!(scan.step(true, Some(1)));
    assert!(scan.step(true, Some(2)));
    assert!(scan.step(true, Some(3)));
    assert!(!scan.step(true, Some(1)));
    assert_eq!(scan.result(), FocusTarget::Handle(3));
    let mut scan = FocusScan::new();
    assert!(!scan.step(false, Some(5)));
    assert_eq!(scan.result(), FocusTarget::Keep);
}

#[test]
fn caret_blinks_while_focused() {
    let mut c = Cursor::new();
    assert!(c.visible());
    assert_eq!(c.pause(), None);
    assert_eq!(c.start(), INTERVAL_MS);
    assert_eq!(c.on_blink(), Some(INTERVAL_MS));
    assert!(!c.visible());
    assert_eq!(c.pause(), Some(PAUSE_DELAY_MS));
    assert!(c.visible());
    c.stop();
    assert!(!c.visible());
    assert_eq!(c.on_blink(), None);
}
