//! Screen sizes for the responsive layout.
use vstd::prelude::*;

verus! {

/// The size class of the screen.
#[derive(Debug, Clone, Copy, PartialEq, Eq, Structural)]
pub enum ScreenSize {
    /// Narrower than 768 pixels.
    Mobile,
    /// From 768 up to 1024 pixels.
    Tablet,
    /// 1024 pixels and wider.
    Desktop,
}

impl ScreenSize {
    pub fn is_mobile(&self) -> (r: bool)
        ensures
            r == (*self == ScreenSize::Mobile),
    {
        matches!(self, ScreenSize::Mobile)
    }

    pub fn is_tablet(&self) -> (r: bool)
        ensures
            r == (*self == ScreenSize::Tablet),
    {
        matches!(self, ScreenSize::Tablet)
    }

    pub fn is_desktop(&self) -> (r: bool)
        ensures
            r == (*self == ScreenSize::Desktop),
    {
        matches!(self, ScreenSize::Desktop)
    }

    pub fn is_mobile_or_tablet(&self) -> (r: bool)
        ensures
            r == (*self == ScreenSize::Mobile || *self == ScreenSize::Tablet),
    {
        matches!(self, ScreenSize::Mobile | ScreenSize::Tablet)
    }
}

/// The size class of a window `width` pixels wide; without a width, the desktop.
pub open spec fn screen_size_spec(width: Option<u64>) -> ScreenSize {
    match width {
        Some(w) => if w < 768 {
            ScreenSize::Mobile
        } else if w < 1024 {
            ScreenSize::Tablet
        } else {
            ScreenSize::Desktop
        },
        None => ScreenSize::Desktop,
    }
}

/// The size class of the window, from its width when the window reports one.
pub fn screen_size_for_width(width: Option<u64>) -> (r: ScreenSize)
    ensures
        r == screen_size_spec(width),
{
    match width {
        Some(w) => {
            if w < 768 {
                ScreenSize::Mobile
            } else if w < 1024 {
                ScreenSize::Tablet
            } else {
                ScreenSize::Desktop
            }
        },
        None => ScreenSize::Desktop,
    }
}

/// The media query of phones.
pub const MOBILE_QUERY: &'static str = "(max-width: 767px)";

/// The media query of tablets.
pub const TABLET_QUERY: &'static str = "(min-width: 768px) and (max-width: 1023px)";

/// The media query of desktops.
pub const DESKTOP_QUERY: &'static str = "(min-width: 1024px)";

/// The media query of large screens.
pub const LARGE_SCREEN_QUERY: &'static str = "(min-width: 1280px)";

} // verus!
