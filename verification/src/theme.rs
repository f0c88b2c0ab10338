//! Color themes of the user interface.

use vstd::prelude::*;

use crate::text::{chars_eq, chars_of, eq_ignore_ascii_case, eq_ignore_ascii_case_spec};

verus! {

/// The terminal colors that the themes use.
#[derive(Clone, Copy, Debug, PartialEq, Eq, Structural)]
pub enum Color {
    Black,
    Red,
    Green,
    Yellow,
    Blue,
    Magenta,
    Cyan,
    Gray,
    DarkGray,
    LightRed,
    LightGreen,
    LightYellow,
    LightMagenta,
    LightCyan,
    White,
}

/// A color theme for the user interface.
#[derive(Clone, Copy, Debug, PartialEq)]
pub struct Theme {
    /// Human-readable theme name.
    pub name: &'static str,
    /// Color for ERROR level logs.
    pub error: Color,
    /// Color for WARN level logs.
    pub warn: Color,
    /// Color for INFO level logs.
    pub info: Color,
    /// Color for DEBUG level logs.
    pub debug: Color,
    /// Color for UNKNOWN level logs.
    pub unknown: Color,
    /// Foreground color for search highlights.
    pub highlight_fg: Color,
    /// Background color for search highlights.
    pub highlight_bg: Color,
    /// Color for the input bar when in editing mode.
    pub input_active: Color,
    /// Color for source labels in multi-file mode.
    pub source_color: Color,
    /// Color for relative timestamp prefixes.
    pub timestamp_color: Color,
}

/// Number of theme presets.
pub const PRESET_COUNT: usize = 4;

/// The colors of the preset themes, in cycle order: dark, light, solarized, dracula.
pub open spec fn preset_spec(i: int) -> Theme {
    if i == 0 {
        Theme {
            name: "dark",
            error: Color::Red,
            warn: Color::Yellow,
            info: Color::Green,
            debug: Color::Blue,
            unknown: Color::White,
            highlight_fg: Color::Black,
            highlight_bg: Color::Cyan,
            input_active: Color::Yellow,
            source_color: Color::Magenta,
            timestamp_color: Color::DarkGray,
        }
    } else if i == 1 {
        Theme {
            name: "light",
            error: Color::Red,
            warn: Color::Yellow,
            info: Color::Green,
            debug: Color::Blue,
            unknown: Color::DarkGray,
            highlight_fg: Color::White,
            highlight_bg: Color::DarkGray,
            input_active: Color::Yellow,
            source_color: Color::Magenta,
            timestamp_color: Color::Gray,
        }
    } else if i == 2 {
        Theme {
            name: "solarized",
            error: Color::Red,
            warn: Color::Yellow,
            info: Color::Cyan,
            debug: Color::Blue,
            unknown: Color::White,
            highlight_fg: Color::White,
            highlight_bg: Color::Magenta,
            input_active: Color::Cyan,
            source_color: Color::Green,
            timestamp_color: Color::DarkGray,
        }
    } else {
        Theme {
            name: "dracula",
            error: Color::LightRed,
            warn: Color::LightYellow,
            info: Color::LightGreen,
            debug: Color::LightCyan,
            unknown: Color::White,
            highlight_fg: Color::Black,
            highlight_bg: Color::LightMagenta,
            input_active: Color::LightMagenta,
            source_color: Color::LightCyan,
            timestamp_color: Color::DarkGray,
        }
    }
}

/// The index of the first preset whose name equals `name` up to ASCII case, if any.
pub open spec fn preset_index_ignore_case(name: Seq<char>, i: int) -> Option<int>
    decreases PRESET_COUNT - i,
{
    if i < 0 || i >= PRESET_COUNT {
        None
    } else if eq_ignore_ascii_case_spec(preset_spec(i).name@, name) {
        Some(i)
    } else {
        preset_index_ignore_case(name, i + 1)
    }
}

/// The index of the first preset whose name is exactly `name`, if any.
pub open spec fn preset_index(name: Seq<char>, i: int) -> Option<int>
    decreases PRESET_COUNT - i,
{
    if i < 0 || i >= PRESET_COUNT {
        None
    } else if preset_spec(i).name@ == name {
        Some(i)
    } else {
        preset_index(name, i + 1)
    }
}

/// The theme that `by_name` picks: the first preset whose name matches
/// ignoring ASCII case, the dark theme when none does.
pub open spec fn by_name_spec(name: Seq<char>) -> Theme {
    match preset_index_ignore_case(name, 0) {
        Some(i) => preset_spec(i),
        None => preset_spec(0),
    }
}

/// The theme that follows `t` in the preset cycle (the light theme after
/// anything whose name is not a preset's).
pub open spec fn next_spec(t: Theme) -> Theme {
    match preset_index(t.name@, 0) {
        Some(i) => preset_spec((i + 1) % (PRESET_COUNT as int)),
        None => preset_spec(1),
    }
}

impl Theme {
    /// Dark theme (default) — designed for dark terminal backgrounds.
    pub fn dark() -> (t: Theme)
        ensures
            t == preset_spec(0),
    {
        Theme {
            name: "dark",
            error: Color::Red,
            warn: Color::Yellow,
            info: Color::Green,
            debug: Color::Blue,
            unknown: Color::White,
            highlight_fg: Color::Black,
            highlight_bg: Color::Cyan,
            input_active: Color::Yellow,
            source_color: Color::Magenta,
            timestamp_color: Color::DarkGray,
        }
    }

    /// Light theme — designed for light terminal backgrounds.
    pub fn light() -> (t: Theme)
        ensures
            t == preset_spec(1),
    {
        Theme {
            name: "light",
            error: Color::Red,
            warn: Color::Yellow,
            info: Color::Green,
            debug: Color::Blue,
            unknown: Color::DarkGray,
            highlight_fg: Color::White,
            highlight_bg: Color::DarkGray,
            input_active: Color::Yellow,
            source_color: Color::Magenta,
            timestamp_color: Color::Gray,
        }
    }

    /// Solarized theme — based on the Solarized color palette.
    pub fn solarized() -> (t: Theme)
        ensures
            t == preset_spec(2),
    {
        Theme {
            name: "solarized",
            error: Color::Red,
            warn: Color::Yellow,
            info: Color::Cyan,
            debug: Color::Blue,
            unknown: Color::White,
            highlight_fg: Color::White,
            highlight_bg: Color::Magenta,
            input_active: Color::Cyan,
            source_color: Color::Green,
            timestamp_color: Color::DarkGray,
        }
    }

    /// Dracula theme — based on the Dracula color palette.
    pub fn dracula() -> (t: Theme)
        ensures
            t == preset_spec(3),
    {
        Theme {
            name: "dracula",
            error: Color::LightRed,
            warn: Color::LightYellow,
            info: Color::LightGreen,
            debug: Color::LightCyan,
            unknown: Color::White,
            highlight_fg: Color::Black,
            highlight_bg: Color::LightMagenta,
            input_active: Color::LightMagenta,
            source_color: Color::LightCyan,
            timestamp_color: Color::DarkGray,
        }
    }

    /// The preset with the given index in cycle order.
    pub fn preset(i: usize) -> (t: Theme)
        requires
            i < PRESET_COUNT,
        ensures
            t == preset_spec(i as int),
    {
        if i == 0 {
            Theme::dark()
        } else if i == 1 {
            Theme::light()
        } else if i == 2 {
            Theme::solarized()
        } else {
            Theme::dracula()
        }
    }

    /// Returns all available theme presets, in cycle order.
    pub fn all() -> (v: Vec<Theme>)
        ensures
            v@.len() == PRESET_COUNT,
            forall|i: int| 0 <= i < PRESET_COUNT ==> v@[i] == preset_spec(i),
    {
        let mut v: Vec<Theme> = Vec::new();
        v.push(Theme::dark());
        v.push(Theme::light());
        v.push(Theme::solarized());
        v.push(Theme::dracula());
        v
    }

    /// Returns the theme whose name matches (ignoring ASCII case), defaulting to dark.
    pub fn by_name(name: &str) -> (t: Theme)
        ensures
            t == by_name_spec(name@),
    {
        let mut i: usize = 0;
        while i < PRESET_COUNT
            invariant
                i <= PRESET_COUNT,
                preset_index_ignore_case(name@, 0) == preset_index_ignore_case(name@, i as int),
            decreases PRESET_COUNT - i,
        {
            let t = Theme::preset(i);
            if eq_ignore_ascii_case(t.name, name) {
                return t;
            }
            i = i + 1;
        }
        Theme::dark()
    }

    /// Returns the next theme in the preset cycle.
    pub fn next(self) -> (t: Theme)
        ensures
            t == next_spec(self),
    {
        let own = chars_of(self.name);
        let mut i: usize = 0;
        while i < PRESET_COUNT
            invariant
                i <= PRESET_COUNT,
                own@ == self.name@,
                preset_index(self.name@, 0) == preset_index(self.name@, i as int),
            decreases PRESET_COUNT - i,
        {
            let t = Theme::preset(i);
            if chars_eq(&chars_of(t.name), &own) {
                return Theme::preset((i + 1) % PRESET_COUNT);
            }
            i = i + 1;
        }
        Theme::preset(1)
    }
}

/// The preset names are pairwise different, even ignoring ASCII case.
pub proof fn preset_names_distinct(i: int, j: int)
    requires
        0 <= i < PRESET_COUNT,
        0 <= j < PRESET_COUNT,
        i != j,
    ensures
        !eq_ignore_ascii_case_spec(preset_spec(i).name@, preset_spec(j).name@),
        preset_spec(i).name@ != preset_spec(j).name@,
{
    reveal_strlit("dark");
    reveal_strlit("light");
    reveal_strlit("solarized");
    reveal_strlit("dracula");
    assert(preset_spec(i).name@.len() != preset_spec(j).name@.len());
}

/// Stepping through the cycle visits every preset and returns after four steps.
pub proof fn next_cycles_through_presets(i: int)
    requires
        0 <= i < PRESET_COUNT,
    ensures
        next_spec(preset_spec(i)) == preset_spec((i + 1) % (PRESET_COUNT as int)),
        next_spec(next_spec(next_spec(next_spec(preset_spec(i))))) == preset_spec(i),
{
    assert forall|k: int| 0 <= k < PRESET_COUNT implies preset_index(preset_spec(k).name@, 0) == Some(
        k,
    ) by {
        assert forall|j: int| 0 <= j < k implies preset_spec(j).name@ != preset_spec(k).name@ by {
            preset_names_distinct(j, k);
        }
        if k == 1 {
            assert(preset_index(preset_spec(k).name@, 1) == Some(1int));
        } else if k == 2 {
            assert(preset_index(preset_spec(k).name@, 2) == Some(2int));
            assert(preset_index(preset_spec(k).name@, 1) == Some(2int));
        } else if k == 3 {
            assert(preset_index(preset_spec(k).name@, 3) == Some(3int));
            assert(preset_index(preset_spec(k).name@, 2) == Some(3int));
            assert(preset_index(preset_spec(k).name@, 1) == Some(3int));
        }
    }
}

/// Looking a preset up by its own name (in any ASCII case) gives that preset back.
pub proof fn by_name_finds_preset(i: int, name: Seq<char>)
    requires
        0 <= i < PRESET_COUNT,
        eq_ignore_ascii_case_spec(preset_spec(i).name@, name),
    ensures
        by_name_spec(name) == preset_spec(i),
{
    assert forall|j: int| 0 <= j < PRESET_COUNT && j != i implies !eq_ignore_ascii_case_spec(
        preset_spec(j).name@,
        name,
    ) by {
        preset_names_distinct(i, j);
    }
    if i == 1 {
        assert(preset_index_ignore_case(name, 1) == Some(1int));
    } else if i == 2 {
        assert(preset_index_ignore_case(name, 2) == Some(2int));
        assert(preset_index_ignore_case(name, 1) == Some(2int));
    } else if i == 3 {
        assert(preset_index_ignore_case(name, 3) == Some(3int));
        assert(preset_index_ignore_case(name, 2) == Some(3int));
        assert(preset_index_ignore_case(name, 1) == Some(3int));
    }
}

} // verus!
