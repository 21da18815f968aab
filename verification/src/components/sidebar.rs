//! The sidebar's keyboard navigation: which item is active, and which
//! items the arrow keys lead to; and the colours of its two kinds.
use crate::foundation::{FontWeight, Size, ThemeColor};
use vstd::prelude::*;

verus! {

/// The application's main sidebar, or one inside a page's content.
#[derive(Debug, Clone, Copy, PartialEq, Eq, Structural)]
pub enum SidebarKind {
    Main,
    Content,
}

/// The colours a sidebar's items are drawn with.
#[derive(Debug, Clone, Copy, PartialEq, Eq, Structural)]
pub struct SidebarPalette {
    pub hover: ThemeColor,
    pub active_bg: ThemeColor,
    pub active_fg: ThemeColor,
    pub muted_fg: ThemeColor,
    pub ring: ThemeColor,
}

/// The main sidebar takes the theme's sidebar colours, a content sidebar
/// the general ones.
pub fn sidebar_palette(kind: SidebarKind) -> (r: SidebarPalette)
    ensures
        r == match kind {
            SidebarKind::Main => SidebarPalette {
                hover: ThemeColor::SidebarHover,
                active_bg: ThemeColor::SidebarSurface,
                active_fg: ThemeColor::SidebarPrimary,
                muted_fg: ThemeColor::SidebarSecondary,
                ring: ThemeColor::SidebarPrimary,
            },
            SidebarKind::Content => SidebarPalette {
                hover: ThemeColor::Hover,
                active_bg: ThemeColor::Surface,
                active_fg: ThemeColor::Primary,
                muted_fg: ThemeColor::Secondary,
                ring: ThemeColor::Primary,
            },
        },
{
    match kind {
        SidebarKind::Main => SidebarPalette {
            hover: ThemeColor::SidebarHover,
            active_bg: ThemeColor::SidebarSurface,
            active_fg: ThemeColor::SidebarPrimary,
            muted_fg: ThemeColor::SidebarSecondary,
            ring: ThemeColor::SidebarPrimary,
        },
        SidebarKind::Content => SidebarPalette {
            hover: ThemeColor::Hover,
            active_bg: ThemeColor::Surface,
            active_fg: ThemeColor::Primary,
            muted_fg: ThemeColor::Secondary,
            ring: ThemeColor::Primary,
        },
    }
}

/// How an item of a sidebar is drawn.
#[derive(Debug, Clone, Copy, PartialEq, Eq, Structural)]
pub struct ItemStyle {
    pub foreground: ThemeColor,
    pub weight: FontWeight,
    /// The background while not hovered.
    pub background: Option<ThemeColor>,
    /// The colour of the focus ring, when drawn.
    pub ring: Option<ThemeColor>,
    /// The size of the item's icon.
    pub icon_size: Size,
}

/// The style of an item: the active item is emphasised and filled, and
/// ringed while the sidebar has keyboard focus; an icon is smaller beside a
/// label than alone.
pub fn item_style(palette: SidebarPalette, active: bool, focused: bool, has_label: bool) -> (r: ItemStyle)
    ensures
        r == (ItemStyle {
            foreground: if active {
                palette.active_fg
            } else {
                palette.muted_fg
            },
            weight: if active {
                FontWeight::Semibold
            } else {
                FontWeight::Normal
            },
            background: if active {
                Some(palette.active_bg)
            } else {
                None
            },
            ring: if active && focused {
                Some(palette.ring)
            } else {
                None
            },
            icon_size: if has_label {
                Size::Medium
            } else {
                Size::Large
            },
        }),
{
    ItemStyle {
        foreground: if active {
            palette.active_fg
        } else {
            palette.muted_fg
        },
        weight: if active {
            FontWeight::Semibold
        } else {
            FontWeight::Normal
        },
        background: if active {
            Some(palette.active_bg)
        } else {
            None
        },
        ring: if active && focused {
            Some(palette.ring)
        } else {
            None
        },
        icon_size: if has_label {
            Size::Medium
        } else {
            Size::Large
        },
    }
}

/// Whether choosing an item calls the sidebar's change handler:
/// `same_as_current` is `None` when the sidebar has no current value, else
/// whether the chosen value equals it. Choosing the current value again
/// calls nothing.
pub fn emits_change(same_as_current: Option<bool>) -> (r: bool)
    ensures
        r == !(same_as_current == Some(true)),
{
    match same_as_current {
        Some(same) => !same,
        None => true,
    }
}

/// What a sidebar item can stand for.
pub trait SidebarValue: Clone + PartialEq + 'static {

}

impl<T: Clone + PartialEq + 'static> SidebarValue for T {

}

/// The first index whose item matches the current value.
pub open spec fn first_match(matches: Seq<bool>) -> Option<int>
    decreases matches.len(),
{
    if matches.len() == 0 {
        None
    } else if matches[0] {
        Some(0)
    } else {
        match first_match(matches.drop_first()) {
            Some(i) => Some(i + 1),
            None => None,
        }
    }
}

/// The index of the active item: the first whose value matches the current
/// one (`matches` holds, for each item with a value, whether it matches).
pub fn active_index(matches: &Vec<bool>) -> (r: Option<usize>)
    ensures
        match r {
            Some(i) => first_match(matches@) == Some(i as int) && i < matches.len(),
            None => first_match(matches@) is None,
        },
{
    let mut i: usize = 0;
    while i < matches.len()
        invariant
            i <= matches.len(),
            forall|k: int| 0 <= k < i ==> !matches@[k],
        decreases matches.len() - i,
    {
        if matches[i] {
            proof {
                lemma_first_match(matches@, i as int);
            }
            return Some(i);
        }
        i += 1;
    }
    proof {
        lemma_no_match(matches@);
    }
    None
}

proof fn lemma_first_match(m: Seq<bool>, i: int)
    requires
        0 <= i < m.len(),
        m[i],
        forall|k: int| 0 <= k < i ==> !m[k],
    ensures
        first_match(m) == Some(i),
    decreases i,
{
    if i > 0 {
        lemma_first_match(m.drop_first(), i - 1);
    }
}

proof fn lemma_no_match(m: Seq<bool>)
    requires
        forall|k: int| 0 <= k < m.len() ==> !m[k],
    ensures
        first_match(m) is None,
    decreases m.len(),
{
    if m.len() > 0 {
        lemma_no_match(m.drop_first());
    }
}

/// The items before and after the active one, wrapping around; without an
/// active item, the last and the first; nothing without items.
pub open spec fn neighbors_spec(count: int, active: Option<int>) -> (Option<int>, Option<int>) {
    if count == 0 {
        (None, None)
    } else {
        match active {
            Some(i) => (Some((i - 1) % count), Some((i + 1) % count)),
            None => (Some(count - 1), Some(0)),
        }
    }
}

/// The indices of the items the up and down keys lead to.
pub fn neighbor_indices(count: usize, active: Option<usize>) -> (r: (Option<usize>, Option<usize>))
    requires
        count <= isize::MAX,
        active matches Some(i) ==> i < count,
    ensures
        (match r.0 {
            Some(p) => Some(p as int),
            None => None,
        }, match r.1 {
            Some(n) => Some(n as int),
            None => None,
        }) == neighbors_spec(
            count as int,
            match active {
                Some(i) => Some(i as int),
                None => None,
            },
        ),
{
    if count == 0 {
        return (None, None);
    }
    match active {
        Some(i) => {
            let prev = if i == 0 {
                count - 1
            } else {
                i - 1
            };
            let next = if i + 1 == count {
                0
            } else {
                i + 1
            };
            proof {
                if i == 0 {
                    assert((-1int) % (count as int) == count - 1) by (nonlinear_arith)
                        requires
                            count > 0,
                    ;
                } else {
                    assert(((i - 1) as int) % (count as int) == i - 1) by (nonlinear_arith)
                        requires
                            0 <= i - 1 < count,
                    ;
                }
                if i + 1 == count {
                    assert((count as int) % (count as int) == 0) by (nonlinear_arith)
                        requires
                            count > 0,
                    ;
                } else {
                    assert(((i + 1) as int) % (count as int) == i + 1) by (nonlinear_arith)
                        requires
                            0 <= i + 1 < count,
                    ;
                }
            }
            (Some(prev), Some(next))
        },
        None => (Some(count - 1), Some(0)),
    }
}

/// Going down from the item above the active one comes back to it, and so
/// does going up from the item below.
pub proof fn law_neighbors_undo(count: int, i: int)
    requires
        0 <= i < count,
    ensures
        neighbors_spec(count, neighbors_spec(count, Some(i)).0).1 == Some(i),
        neighbors_spec(count, neighbors_spec(count, Some(i)).1).0 == Some(i),
{
    let p = (i - 1) % count;
    let n = (i + 1) % count;
    assert(0 <= p < count && 0 <= n < count) by (nonlinear_arith)
        requires
            count > 0,
            p == (i - 1) % count,
            n == (i + 1) % count,
    ;
    assert((p + 1) % count == i) by (nonlinear_arith)
        requires
            0 <= i < count,
            p == (i - 1) % count,
    ;
    assert((n - 1) % count == i) by (nonlinear_arith)
        requires
            0 <= i < count,
            n == (i + 1) % count,
    ;
}

} // verus!
