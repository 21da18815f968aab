//! Icons: which picture they show, and how large they are drawn.
use crate::foundation::{Size, WithSize};
use vstd::prelude::*;
use vstd::string::StringExecFns;

verus! {

/// An icon: the path of its picture among the application's assets, and its size.
pub struct Icon {
    pub path: String,
    pub size: Size,
}

impl Icon {
    /// The icon drawn from the picture at `path`, at the default size.
    pub fn new(path: String) -> (r: Self)
        ensures
            r.path == path,
            r.size == Size::Medium,
    {
        Icon { path, size: Size::Medium }
    }

    /// The side of an icon's square, in sixteenths of a rem: one rem when
    /// small, 1.125 rem at medium size, 1.25 rem when large.
    pub open spec fn length_spec(size: Size) -> u32 {
        match size {
            Size::Small => 16u32,
            Size::Medium => 18u32,
            Size::Large => 20u32,
        }
    }

    /// The side of an icon's square, in sixteenths of a rem.
    pub fn length(size: Size) -> (r: u32)
        ensures
            r == Self::length_spec(size),
    {
        match size {
            Size::Small => 16,
            Size::Medium => 18,
            Size::Large => 20,
        }
    }

    /// The `appearance` icon.
    pub fn appearance() -> (r: Self)
        ensures
            r.path@ == "icons/appearance.svg"@,
            r.size == Size::Medium,
    {
        Self::new(String::from_str("icons/appearance.svg"))
    }

    /// The `arrow` icon.
    pub fn arrow() -> (r: Self)
        ensures
            r.path@ == "icons/arrow.svg"@,
            r.size == Size::Medium,
    {
        Self::new(String::from_str("icons/arrow.svg"))
    }

    /// The `collections` icon.
    pub fn collections() -> (r: Self)
        ensures
            r.path@ == "icons/collections.svg"@,
            r.size == Size::Medium,
    {
        Self::new(String::from_str("icons/collections.svg"))
    }

    /// The `danger` icon.
    pub fn danger() -> (r: Self)
        ensures
            r.path@ == "icons/danger.svg"@,
            r.size == Size::Medium,
    {
        Self::new(String::from_str("icons/danger.svg"))
    }

    /// The `download` icon.
    pub fn download() -> (r: Self)
        ensures
            r.path@ == "icons/download.svg"@,
            r.size == Size::Medium,
    {
        Self::new(String::from_str("icons/download.svg"))
    }

    /// The `home` icon.
    pub fn home() -> (r: Self)
        ensures
            r.path@ == "icons/home.svg"@,
            r.size == Size::Medium,
    {
        Self::new(String::from_str("icons/home.svg"))
    }

    /// The `library` icon.
    pub fn library() -> (r: Self)
        ensures
            r.path@ == "icons/library.svg"@,
            r.size == Size::Medium,
    {
        Self::new(String::from_str("icons/library.svg"))
    }

    /// The `loader` icon.
    pub fn loader() -> (r: Self)
        ensures
            r.path@ == "icons/loader.svg"@,
            r.size == Size::Medium,
    {
        Self::new(String::from_str("icons/loader.svg"))
    }

    /// The `logo` icon.
    pub fn logo() -> (r: Self)
        ensures
            r.path@ == "icons/logo.svg"@,
            r.size == Size::Medium,
    {
        Self::new(String::from_str("icons/logo.svg"))
    }

    /// The `maximize` icon.
    pub fn maximize() -> (r: Self)
        ensures
            r.path@ == "icons/maximize.svg"@,
            r.size == Size::Medium,
    {
        Self::new(String::from_str("icons/maximize.svg"))
    }

    /// The `menu` icon.
    pub fn menu() -> (r: Self)
        ensures
            r.path@ == "icons/menu.svg"@,
            r.size == Size::Medium,
    {
        Self::new(String::from_str("icons/menu.svg"))
    }

    /// The `minimize` icon.
    pub fn minimize() -> (r: Self)
        ensures
            r.path@ == "icons/minimize.svg"@,
            r.size == Size::Medium,
    {
        Self::new(String::from_str("icons/minimize.svg"))
    }

    /// The `plugin` icon.
    pub fn plugin() -> (r: Self)
        ensures
            r.path@ == "icons/plugin.svg"@,
            r.size == Size::Medium,
    {
        Self::new(String::from_str("icons/plugin.svg"))
    }

    /// The `restore` icon.
    pub fn restore() -> (r: Self)
        ensures
            r.path@ == "icons/restore.svg"@,
            r.size == Size::Medium,
    {
        Self::new(String::from_str("icons/restore.svg"))
    }

    /// The `search` icon.
    pub fn search() -> (r: Self)
        ensures
            r.path@ == "icons/search.svg"@,
            r.size == Size::Medium,
    {
        Self::new(String::from_str("icons/search.svg"))
    }

    /// The `settings` icon.
    pub fn settings() -> (r: Self)
        ensures
            r.path@ == "icons/settings.svg"@,
            r.size == Size::Medium,
    {
        Self::new(String::from_str("icons/settings.svg"))
    }

    /// The `storefront` icon.
    pub fn storefront() -> (r: Self)
        ensures
            r.path@ == "icons/storefront.svg"@,
            r.size == Size::Medium,
    {
        Self::new(String::from_str("icons/storefront.svg"))
    }

    /// The `x` icon.
    pub fn x() -> (r: Self)
        ensures
            r.path@ == "icons/x.svg"@,
            r.size == Size::Medium,
    {
        Self::new(String::from_str("icons/x.svg"))
    }
}

impl WithSize for Icon {
    fn size(self, size: Size) -> (r: Self)
        ensures
            r.path == self.path,
            r.size == size,
    {
        Icon { size, ..self }
    }
}

} // verus!
