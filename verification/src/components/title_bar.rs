//! The window's title bar: which window controls it shows, what they
//! show, and what presses on it do.
use vstd::prelude::*;

verus! {

/// The desktop whose conventions the title bar follows.
#[derive(Debug, Clone, Copy, PartialEq, Eq, Structural)]
pub enum PlatformStyle {
    Windows,
    Linux,
    Macos,
}

/// A window button as the desktop lays them out.
#[derive(Debug, Clone, Copy, PartialEq, Eq, Structural)]
pub enum WindowButton {
    Minimize,
    Maximize,
    Close,
}

/// What a region of the title bar does for the window system.
#[derive(Debug, Clone, Copy, PartialEq, Eq, Structural)]
pub enum WindowControlArea {
    Drag,
    Min,
    Max,
    Close,
}

/// Where the window controls go.
#[derive(Debug, Clone, Copy, PartialEq, Eq, Structural)]
pub enum ControlsPlacement {
    /// No controls drawn by the application.
    Absent,
    /// The caption buttons of Windows, on the right.
    Caption,
    /// The desktop's button layout, when the application decorates the window on Linux.
    DesktopLayout,
}

/// Windows gets caption buttons; Linux draws the desktop's layout when the
/// application decorates the window; a full-screen window and macOS get none.
pub fn controls_placement(platform: PlatformStyle, fullscreen: bool, client_decorated: bool) -> (r: ControlsPlacement)
    ensures
        r == if fullscreen {
            ControlsPlacement::Absent
        } else {
            match platform {
                PlatformStyle::Windows => ControlsPlacement::Caption,
                PlatformStyle::Linux => if client_decorated {
                    ControlsPlacement::DesktopLayout
                } else {
                    ControlsPlacement::Absent
                },
                PlatformStyle::Macos => ControlsPlacement::Absent,
            }
        },
{
    if fullscreen {
        return ControlsPlacement::Absent;
    }
    match platform {
        PlatformStyle::Windows => ControlsPlacement::Caption,
        PlatformStyle::Linux => if client_decorated {
            ControlsPlacement::DesktopLayout
        } else {
            ControlsPlacement::Absent
        },
        PlatformStyle::Macos => ControlsPlacement::Absent,
    }
}

/// What the title bar itself does on a platform, apart from its controls.
#[derive(Debug, Clone, Copy, PartialEq, Eq, Structural)]
pub struct TitleBarBehavior {
    /// The bar moves the window when dragged and zooms it on a double click.
    pub app_moves_window: bool,
    /// The bar keeps room on its left for the traffic lights.
    pub leading_pad: bool,
    /// A right click opens the window system's menu.
    pub window_menu: bool,
}

/// Windows moves the window by its caption area itself, so only the other
/// platforms let the bar drag and zoom; macOS keeps room for its traffic
/// lights unless full-screen; a Linux window that the application decorates
/// opens the window menu on a right click, when the window system offers one.
pub fn title_bar_behavior(
    platform: PlatformStyle,
    fullscreen: bool,
    client_decorated: bool,
    window_menu_offered: bool,
) -> (r: TitleBarBehavior)
    ensures
        r == (TitleBarBehavior {
            app_moves_window: platform != PlatformStyle::Windows,
            leading_pad: platform == PlatformStyle::Macos && !fullscreen,
            window_menu: platform == PlatformStyle::Linux && client_decorated && window_menu_offered,
        }),
{
    TitleBarBehavior {
        app_moves_window: !matches!(platform, PlatformStyle::Windows),
        leading_pad: matches!(platform, PlatformStyle::Macos) && !fullscreen,
        window_menu: matches!(platform, PlatformStyle::Linux) && client_decorated && window_menu_offered,
    }
}

/// The buttons a Linux desktop uses when it gives no layout: minimize,
/// maximize and close on the right, none on the left.
pub fn default_button_layout() -> (r: (Vec<Option<WindowButton>>, Vec<Option<WindowButton>>))
    ensures
        r.0@ == Seq::<Option<WindowButton>>::empty(),
        r.1@ == seq![
            Some(WindowButton::Minimize),
            Some(WindowButton::Maximize),
            Some(WindowButton::Close),
        ],
{
    let mut right: Vec<Option<WindowButton>> = Vec::new();
    right.push(Some(WindowButton::Minimize));
    right.push(Some(WindowButton::Maximize));
    right.push(Some(WindowButton::Close));
    (Vec::new(), right)
}

/// A button of the Windows caption.
#[derive(Debug, Clone, Copy, PartialEq, Eq, Structural)]
pub enum CaptionButton {
    Minimize,
    Maximize,
    Close,
}

impl CaptionButton {
    /// The element id of the button.
    pub fn id(self) -> (r: &'static str)
        ensures
            r@ == match self {
                CaptionButton::Minimize => "minimize"@,
                CaptionButton::Maximize => "maximize"@,
                CaptionButton::Close => "close"@,
            },
    {
        match self {
            CaptionButton::Minimize => "minimize",
            CaptionButton::Maximize => "maximize",
            CaptionButton::Close => "close",
        }
    }

    /// What the window system does when the button is pressed.
    pub fn control_area(self) -> (r: WindowControlArea)
        ensures
            r == match self {
                CaptionButton::Minimize => WindowControlArea::Min,
                CaptionButton::Maximize => WindowControlArea::Max,
                CaptionButton::Close => WindowControlArea::Close,
            },
    {
        match self {
            CaptionButton::Minimize => WindowControlArea::Min,
            CaptionButton::Maximize => WindowControlArea::Max,
            CaptionButton::Close => WindowControlArea::Close,
        }
    }

    /// The Segoe Fluent Icons glyph of the button; maximize shows restore
    /// on a maximized window.
    pub fn glyph(self, is_maximized: bool) -> (r: &'static str)
        ensures
            r@ == match self {
                CaptionButton::Minimize => "\u{e921}"@,
                CaptionButton::Maximize => if is_maximized {
                    "\u{e923}"@
                } else {
                    "\u{e922}"@
                },
                CaptionButton::Close => "\u{e8bb}"@,
            },
    {
        match self {
            CaptionButton::Minimize => "\u{e921}",
            CaptionButton::Maximize => if is_maximized {
                "\u{e923}"
            } else {
                "\u{e922}"
            },
            CaptionButton::Close => "\u{e8bb}",
        }
    }
}

/// A window button drawn on Linux.
#[derive(Debug, Clone, Copy, PartialEq, Eq, Structural)]
pub struct WindowControl {
    pub button: WindowButton,
    pub is_maximized: bool,
}

impl WindowControl {
    pub fn new(button: WindowButton, is_maximized: bool) -> (r: Self)
        ensures
            r.button == button,
            r.is_maximized == is_maximized,
    {
        WindowControl { button, is_maximized }
    }

    /// The icon of the button; maximize shows restore on a maximized window.
    pub fn icon(&self) -> (r: &'static str)
        ensures
            r@ == match self.button {
                WindowButton::Minimize => "icons/minimize.svg"@,
                WindowButton::Maximize => if self.is_maximized {
                    "icons/restore.svg"@
                } else {
                    "icons/maximize.svg"@
                },
                WindowButton::Close => "icons/x.svg"@,
            },
    {
        match self.button {
            WindowButton::Minimize => "icons/minimize.svg",
            WindowButton::Maximize => if self.is_maximized {
                "icons/restore.svg"
            } else {
                "icons/maximize.svg"
            },
            WindowButton::Close => "icons/x.svg",
        }
    }
}

/// Whether the window supports a button: close always.
pub open spec fn supported(button: WindowButton, minimize: bool, maximize: bool) -> bool {
    match button {
        WindowButton::Minimize => minimize,
        WindowButton::Maximize => maximize,
        WindowButton::Close => true,
    }
}

/// The controls of one side of a layout: its buttons, in order, that the
/// window supports.
pub open spec fn side_controls(
    buttons: Seq<Option<WindowButton>>,
    minimize: bool,
    maximize: bool,
    is_maximized: bool,
) -> Seq<WindowControl>
    decreases buttons.len(),
{
    if buttons.len() == 0 {
        Seq::empty()
    } else {
        let rest = side_controls(buttons.drop_last(), minimize, maximize, is_maximized);
        match buttons.last() {
            Some(b) => if supported(b, minimize, maximize) {
                rest.push(WindowControl { button: b, is_maximized })
            } else {
                rest
            },
            None => rest,
        }
    }
}

/// The controls drawn on one side of the title bar on Linux; `None` when
/// there are none.
pub fn linux_controls(
    buttons: &Vec<Option<WindowButton>>,
    minimize: bool,
    maximize: bool,
    is_maximized: bool,
) -> (r: Option<Vec<WindowControl>>)
    ensures
        match r {
            Some(c) => c@ == side_controls(buttons@, minimize, maximize, is_maximized) && c@.len()
                > 0,
            None => side_controls(buttons@, minimize, maximize, is_maximized).len() == 0,
        },
{
    let mut controls: Vec<WindowControl> = Vec::new();
    let mut i: usize = 0;
    while i < buttons.len()
        invariant
            i <= buttons.len(),
            controls@ == side_controls(buttons@.take(i as int), minimize, maximize, is_maximized),
        decreases buttons.len() - i,
    {
        assert(buttons@.take(i + 1).drop_last() =~= buttons@.take(i as int));
        match buttons[i] {
            Some(b) => {
                let keep = match b {
                    WindowButton::Minimize => minimize,
                    WindowButton::Maximize => maximize,
                    WindowButton::Close => true,
                };
                if keep {
                    controls.push(WindowControl::new(b, is_maximized));
                }
            },
            None => {},
        }
        i += 1;
    }
    assert(buttons@.take(i as int) =~= buttons@);
    if controls.len() == 0 {
        None
    } else {
        Some(controls)
    }
}

/// What the window does when a drawn control is clicked.
#[derive(Debug, Clone, Copy, PartialEq, Eq, Structural)]
pub enum WindowAction {
    Minimize,
    Zoom,
    Close,
    TitlebarDoubleClick,
    StartMove,
}

impl WindowControl {
    /// Minimize minimizes, maximize zooms, close asks to close the window.
    pub fn click_action(&self) -> (r: WindowAction)
        ensures
            r == match self.button {
                WindowButton::Minimize => WindowAction::Minimize,
                WindowButton::Maximize => WindowAction::Zoom,
                WindowButton::Close => WindowAction::Close,
            },
    {
        match self.button {
            WindowButton::Minimize => WindowAction::Minimize,
            WindowButton::Maximize => WindowAction::Zoom,
            WindowButton::Close => WindowAction::Close,
        }
    }
}

/// A press on the title bar that has not turned into a window move yet.
pub struct TitleBarDrag {
    pub pressed: bool,
}

impl TitleBarDrag {
    pub fn new() -> (r: Self)
        ensures
            !r.pressed,
    {
        TitleBarDrag { pressed: false }
    }

    /// The left button went down on the title bar.
    pub fn on_mouse_down(&mut self)
        ensures
            final(self).pressed,
    {
        self.pressed = true;
    }

    /// The left button went up, or down elsewhere.
    pub fn on_mouse_up(&mut self)
        ensures
            !final(self).pressed,
    {
        self.pressed = false;
    }

    /// The pointer moved: a pressed title bar starts moving the window, once.
    pub fn on_mouse_move(&mut self) -> (r: Option<WindowAction>)
        ensures
            !final(self).pressed,
            r == if old(self).pressed {
                Some(WindowAction::StartMove)
            } else {
                None::<WindowAction>
            },
    {
        if self.pressed {
            self.pressed = false;
            Some(WindowAction::StartMove)
        } else {
            None
        }
    }
}

/// A double click on the title bar does what macOS does with it there, and
/// zooms the window elsewhere.
pub fn title_click_action(click_count: usize, macos: bool) -> (r: Option<WindowAction>)
    ensures
        r == if click_count == 2 {
            if macos {
                Some(WindowAction::TitlebarDoubleClick)
            } else {
                Some(WindowAction::Zoom)
            }
        } else {
            None::<WindowAction>
        },
{
    if click_count == 2 {
        if macos {
            Some(WindowAction::TitlebarDoubleClick)
        } else {
            Some(WindowAction::Zoom)
        }
    } else {
        None
    }
}

} // verus!
