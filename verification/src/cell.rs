use vstd::prelude::*;

verus! {

/// The tallest pile a single cell can hold.
pub const MAX_HEIGHT: u8 = 8;

/// Visual kind of a falling snowflake.
#[derive(Clone, Copy, PartialEq, Eq, Structural, Debug)]
pub enum Snowflake {
    Type1,
    Type2,
    Type3,
}

impl Snowflake {
    /// The kind that a one-based variant number selects.
    pub open spec fn from_variant_spec(variant: u8) -> Snowflake {
        if variant == 1 {
            Snowflake::Type1
        } else if variant == 2 {
            Snowflake::Type2
        } else {
            Snowflake::Type3
        }
    }

    pub fn create(variant: u8) -> (s: Snowflake)
        requires
            1 <= variant <= 3,
        ensures
            s == Snowflake::from_variant_spec(variant),
    {
        match variant {
            1 => Snowflake::Type1,
            2 => Snowflake::Type2,
            _ => Snowflake::Type3,
        }
    }

    /// Display glyph of this kind.
    pub open spec fn char_spec(self) -> char {
        match self {
            Snowflake::Type1 => '\u{2744}',
            Snowflake::Type2 => '\u{2745}',
            Snowflake::Type3 => '\u{2746}',
        }
    }

    pub fn get_char(&self) -> (c: char)
        ensures
            c == self.char_spec(),
    {
        match self {
            Snowflake::Type1 => '\u{2744}',
            Snowflake::Type2 => '\u{2745}',
            Snowflake::Type3 => '\u{2746}',
        }
    }
}

/// One grid position: either empty air, a falling flake that still has
/// `delay` ticks to wait before its next step down, or a pile of snow
/// `height` units tall.
#[derive(Clone, Copy, PartialEq, Eq, Structural, Debug)]
pub enum Cell {
    Empty,
    Flake(Snowflake, u8),
    Stack(u8),
}

impl Cell {
    /// Every cell the engine ever writes satisfies this: pile heights stay
    /// within `[1, MAX_HEIGHT]` and fall delays within `[0, 5]`.
    pub open spec fn valid(self) -> bool {
        match self {
            Cell::Empty => true,
            Cell::Flake(_, delay) => delay <= 5,
            Cell::Stack(height) => 1 <= height <= MAX_HEIGHT,
        }
    }

    /// Display glyph of this cell: blank for air, the kind's glyph for a
    /// flake, a proportional fill block for a pile.
    pub open spec fn glyph_spec(self) -> char {
        match self {
            Cell::Empty => ' ',
            Cell::Flake(kind, _) => kind.char_spec(),
            Cell::Stack(height) => stack_char_spec(height),
        }
    }

    pub fn glyph(&self) -> (c: char)
        requires
            self.valid(),
        ensures
            c == self.glyph_spec(),
    {
        match self {
            Cell::Empty => ' ',
            Cell::Flake(kind, _) => kind.get_char(),
            Cell::Stack(height) => stack_char(*height),
        }
    }
}

/// Fill glyph for a pile of the given height.
pub open spec fn stack_char_spec(height: u8) -> char {
    if height == 1 {
        '\u{2581}'
    } else if height == 2 {
        '\u{2582}'
    } else if height == 3 {
        '\u{2583}'
    } else if height == 4 {
        '\u{2584}'
    } else if height == 5 {
        '\u{2585}'
    } else if height == 6 {
        '\u{2586}'
    } else if height == 7 {
        '\u{2587}'
    } else if height == 8 {
        '\u{2588}'
    } else {
        ' '
    }
}

pub fn stack_char(height: u8) -> (c: char)
    requires
        1 <= height <= MAX_HEIGHT,
    ensures
        c == stack_char_spec(height),
{
    match height {
        1 => '\u{2581}',
        2 => '\u{2582}',
        3 => '\u{2583}',
        4 => '\u{2584}',
        5 => '\u{2585}',
        6 => '\u{2586}',
        7 => '\u{2587}',
        _ => '\u{2588}',
    }
}

} // verus!
