use vstd::prelude::*;

use crate::text::copy_of;

verus! {

/// Terminal emulator configuration with sensible defaults.
#[derive(Debug)]
pub struct CockpitConfig {
    pub font_family: String,
    /// In hundredths of a point.
    pub font_size: u32,
    pub scrollback_lines: usize,
    /// In physical pixels.
    pub sidebar_width: u32,
    pub sidebar_visible: bool,
    pub colors: ColorScheme,
    /// Seconds between two requests for usage.
    pub poll_usage_secs: u64,
    /// Seconds between two scans for sessions.
    pub poll_sessions_secs: u64,
}

/// A colour by its parts.
#[derive(Debug, Clone, Copy, PartialEq, Eq, Structural)]
pub struct Rgb {
    pub r: u8,
    pub g: u8,
    pub b: u8,
}

/// The colours of the terminal.
#[derive(Debug)]
pub struct ColorScheme {
    pub foreground: Rgb,
    pub background: Rgb,
    pub cursor: Rgb,
    pub ansi: [Rgb; 16],
}

/// The 16 colours of Solarized Dark.
pub open spec fn solarized_dark() -> Seq<Rgb> {
    seq![
        Rgb { r: 0x07, g: 0x36, b: 0x42 },
        Rgb { r: 0xdc, g: 0x32, b: 0x2f },
        Rgb { r: 0x85, g: 0x99, b: 0x00 },
        Rgb { r: 0xb5, g: 0x89, b: 0x00 },
        Rgb { r: 0x26, g: 0x8b, b: 0xd2 },
        Rgb { r: 0xd3, g: 0x36, b: 0x82 },
        Rgb { r: 0x2a, g: 0xa1, b: 0x98 },
        Rgb { r: 0xee, g: 0xe8, b: 0xd5 },
        Rgb { r: 0x00, g: 0x2b, b: 0x36 },
        Rgb { r: 0xcb, g: 0x4b, b: 0x16 },
        Rgb { r: 0x58, g: 0x6e, b: 0x75 },
        Rgb { r: 0x65, g: 0x7b, b: 0x83 },
        Rgb { r: 0x83, g: 0x94, b: 0x96 },
        Rgb { r: 0x6c, g: 0x71, b: 0xc4 },
        Rgb { r: 0x93, g: 0xa1, b: 0xa1 },
        Rgb { r: 0xfd, g: 0xf6, b: 0xe3 },
    ]
}

impl Default for ColorScheme {
    /// Solarized Dark.
    fn default() -> (colors: ColorScheme)
        ensures
            colors.foreground == (Rgb { r: 0x83, g: 0x94, b: 0x96 }),
            colors.background == (Rgb { r: 0x00, g: 0x2b, b: 0x36 }),
            colors.cursor == (Rgb { r: 0x65, g: 0x7b, b: 0x83 }),
            colors.ansi@ == solarized_dark(),
    {
        let colors = ColorScheme {
            foreground: Rgb { r: 0x83, g: 0x94, b: 0x96 },
            background: Rgb { r: 0x00, g: 0x2b, b: 0x36 },
            cursor: Rgb { r: 0x65, g: 0x7b, b: 0x83 },
            ansi: [
                Rgb { r: 0x07, g: 0x36, b: 0x42 },  // black
                Rgb { r: 0xdc, g: 0x32, b: 0x2f },  // red
                Rgb { r: 0x85, g: 0x99, b: 0x00 },  // green
                Rgb { r: 0xb5, g: 0x89, b: 0x00 },  // yellow
                Rgb { r: 0x26, g: 0x8b, b: 0xd2 },  // blue
                Rgb { r: 0xd3, g: 0x36, b: 0x82 },  // magenta
                Rgb { r: 0x2a, g: 0xa1, b: 0x98 },  // cyan
                Rgb { r: 0xee, g: 0xe8, b: 0xd5 },  // white
                Rgb { r: 0x00, g: 0x2b, b: 0x36 },  // bright black
                Rgb { r: 0xcb, g: 0x4b, b: 0x16 },  // bright red
                Rgb { r: 0x58, g: 0x6e, b: 0x75 },  // bright green
                Rgb { r: 0x65, g: 0x7b, b: 0x83 },  // bright yellow
                Rgb { r: 0x83, g: 0x94, b: 0x96 },  // bright blue
                Rgb { r: 0x6c, g: 0x71, b: 0xc4 },  // bright magenta
                Rgb { r: 0x93, g: 0xa1, b: 0xa1 },  // bright cyan
                Rgb { r: 0xfd, g: 0xf6, b: 0xe3 },  // bright white
            ],
        };
        assert(colors.ansi@ =~= solarized_dark());
        colors
    }
}

impl Default for CockpitConfig {
    fn default() -> (config: CockpitConfig)
        ensures
            config.font_family@ == "Hack Nerd Font"@,
            config.font_size == 1400,
            config.scrollback_lines == 10_000,
            config.sidebar_width == 280,
            config.sidebar_visible,
            config.colors.foreground == (Rgb { r: 0x83, g: 0x94, b: 0x96 }),
            config.colors.background == (Rgb { r: 0x00, g: 0x2b, b: 0x36 }),
            config.colors.cursor == (Rgb { r: 0x65, g: 0x7b, b: 0x83 }),
            config.colors.ansi@ == solarized_dark(),
            config.poll_usage_secs == 180,
            config.poll_sessions_secs == 5,
    {
        CockpitConfig {
            font_family: copy_of("Hack Nerd Font"),
            font_size: 1400,
            scrollback_lines: 10_000,
            sidebar_width: 280,
            sidebar_visible: true,
            colors: ColorScheme::default(),
            poll_usage_secs: 180,
            poll_sessions_secs: 5,
        }
    }
}

/// The font size that is set on demand, in hundredths of a point.
pub const DEFAULT_FONT_SIZE: u32 = 1400;

pub const MIN_FONT_SIZE: u32 = 800;

pub const MAX_FONT_SIZE: u32 = 7200;

/// A wish to change the font size.
#[derive(Debug, Clone, Copy, PartialEq, Eq, Structural)]
pub enum FontStep {
    Larger,
    Smaller,
    Reset,
}

/// The font size after a step of one point, kept within its limits; a reset gives the default.
pub open spec fn stepped_font_size(size: u32, step: FontStep) -> int {
    let wanted = match step {
        FontStep::Larger => size + 100,
        FontStep::Smaller => size - 100,
        FontStep::Reset => DEFAULT_FONT_SIZE as int,
    };
    if step == FontStep::Reset {
        wanted
    } else if wanted < MIN_FONT_SIZE {
        MIN_FONT_SIZE as int
    } else if wanted > MAX_FONT_SIZE {
        MAX_FONT_SIZE as int
    } else {
        wanted
    }
}

impl CockpitConfig {
    /// Change the font size by a step. Says whether it is another one now.
    pub fn step_font_size(&mut self, step: FontStep) -> (changed: bool)
        ensures
            final(self).font_size == stepped_font_size(old(self).font_size, step),
            changed == (final(self).font_size != old(self).font_size),
            final(self).font_family == old(self).font_family,
            final(self).scrollback_lines == old(self).scrollback_lines,
            final(self).sidebar_width == old(self).sidebar_width,
            final(self).sidebar_visible == old(self).sidebar_visible,
            final(self).colors == old(self).colors,
            final(self).poll_usage_secs == old(self).poll_usage_secs,
            final(self).poll_sessions_secs == old(self).poll_sessions_secs,
    {
        let size: u32 = self.font_size;
        let new_size: u32 = match step {
            FontStep::Larger => if size >= MAX_FONT_SIZE - 100 {
                MAX_FONT_SIZE
            } else if size < MIN_FONT_SIZE - 100 {
                MIN_FONT_SIZE
            } else {
                size + 100
            },
            FontStep::Smaller => if size < MIN_FONT_SIZE + 100 {
                MIN_FONT_SIZE
            } else if size > MAX_FONT_SIZE + 100 {
                MAX_FONT_SIZE
            } else {
                size - 100
            },
            FontStep::Reset => DEFAULT_FONT_SIZE,
        };
        let changed = new_size != size;
        self.font_size = new_size;
        changed
    }
}

/// However often the font size is stepped, it stays within its limits.
pub proof fn font_sizes_keep_their_limits(size: u32, step: FontStep)
    ensures
        MIN_FONT_SIZE <= stepped_font_size(size, step) <= MAX_FONT_SIZE,
{
}

/// A step up and a step down cancel out within the limits.
pub proof fn font_steps_cancel_out(size: u32)
    requires
        MIN_FONT_SIZE <= size <= MAX_FONT_SIZE - 100,
    ensures
        stepped_font_size(stepped_font_size(size, FontStep::Larger) as u32, FontStep::Smaller)
            == size,
{
}

/// Within the limits of 8 and 72 points a step changes the font size by one point; a reset gives
/// 14 points.
pub proof fn font_steps_are_one_point(size: u32)
    ensures
        800 <= size <= 7100 ==> stepped_font_size(size, FontStep::Larger) == size + 100,
        900 <= size <= 7200 ==> stepped_font_size(size, FontStep::Smaller) == size - 100,
        stepped_font_size(size, FontStep::Reset) == 14 * 100,
        7100 <= size <= 7200 ==> stepped_font_size(size, FontStep::Larger) == 72 * 100,
        800 <= size <= 900 ==> stepped_font_size(size, FontStep::Smaller) == 8 * 100,
{
}

} // verus!
