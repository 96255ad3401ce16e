//! The system-information screen: what it shows and in which colors.

use vstd::prelude::*;
use crate::colors::{Color, BRIGHT_VIOLET, COSMIC_BLUE, NEON_GREEN, SMOKE_WHITE};

verus! {

/// The facts the screen shows.
#[derive(Clone, Copy, Debug)]
pub struct SystemInfo {
    pub os_name: &'static str,
    pub os_version: &'static str,
    pub kernel_version: &'static str,
    pub cpu_info: &'static str,
    pub uptime: &'static str,
    /// Usable memory in megabytes.
    pub memory_total_mb: u64,
    pub resolution_width: u64,
    pub resolution_height: u64,
}

/// The screen's palette.
#[derive(Clone, Copy, Debug)]
pub struct VesperFetchTheme {
    /// Labels such as "Kernel:".
    pub label_color: Color,
    /// The values next to the labels.
    pub value_color: Color,
    /// The operating system's name.
    pub accent_color: Color,
    /// Borders and separators.
    pub border_color: Color,
}

impl Default for VesperFetchTheme {
    fn default() -> (r: Self)
        ensures
            r.label_color == BRIGHT_VIOLET,
            r.value_color == SMOKE_WHITE,
            r.accent_color == NEON_GREEN,
            r.border_color == COSMIC_BLUE,
    {
        VesperFetchTheme {
            label_color: BRIGHT_VIOLET,
            value_color: SMOKE_WHITE,
            accent_color: NEON_GREEN,
            border_color: COSMIC_BLUE,
        }
    }
}

/// The screen: system facts and a palette.
pub struct VesperFetch {
    theme: VesperFetchTheme,
    system_info: SystemInfo,
}

impl VesperFetch {
    /// The palette in use.
    pub closed spec fn spec_theme(&self) -> VesperFetchTheme {
        self.theme
    }

    /// The facts shown.
    pub closed spec fn spec_system_info(&self) -> SystemInfo {
        self.system_info
    }

    /// A screen for `system_info` in the default palette.
    pub fn new(system_info: SystemInfo) -> (r: Self)
        ensures
            r.spec_system_info() == system_info,
            r.spec_theme().label_color == BRIGHT_VIOLET,
            r.spec_theme().value_color == SMOKE_WHITE,
            r.spec_theme().accent_color == NEON_GREEN,
            r.spec_theme().border_color == COSMIC_BLUE,
    {
        VesperFetch { theme: VesperFetchTheme::default(), system_info }
    }

    /// The same screen in the palette `theme`.
    pub fn with_theme(self, theme: VesperFetchTheme) -> (r: Self)
        ensures
            r.spec_theme() == theme,
            r.spec_system_info() == self.spec_system_info(),
    {
        let mut s = self;
        s.theme = theme;
        s
    }

    /// The palette in use.
    pub fn theme(&self) -> (r: &VesperFetchTheme)
        ensures
            *r == self.spec_theme(),
    {
        &self.theme
    }

    /// The facts shown.
    pub fn system_info(&self) -> (r: &SystemInfo)
        ensures
            *r == self.spec_system_info(),
    {
        &self.system_info
    }
}

} // verus!
