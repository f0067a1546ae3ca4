use snowfall::cell::{stack_char, Cell, Snowflake};
use snowfall::engine::Snow;
use snowfall::rng::MinRandom;

#[test]
fn variant_numbers_select_kinds() {
    assert_eq!(Snowflake::create(1), Snowflake::Type1);
    assert_eq!(Snowflake::create(2), Snowflake::Type2);
    assert_eq!(Snowflake::create(3), Snowflake::Type3);
}

#[test]
fn kind_glyphs() {
    assert_eq!(Snowflake::Type1.get_char(), '\u{2744}');
    assert_eq!(Snowflake::Type2.get_char(), '\u{2745}');
    assert_eq!(Snowflake::Type3.get_char(), '\u{2746}');
}

#[test]
fn pile_glyphs_are_proportional_fills() {
    let expected = [
        '\u{2581}', '\u{2582}', '\u{2583}', '\u{2584}', '\u{2585}', '\u{2586}', '\u{2587}',
        '\u{2588}',
    ];
    for h in 1..=8u8 {
        assert_eq!(stack_char(h), expected[(h - 1) as usize]);
    }
}

#[test]
fn cell_glyphs() {
    assert_eq!(Cell::Empty.glyph(), ' ');
    assert_eq!(Cell::Flake(Snowflake::Type1, 4).glyph(), '\u{2744}');
    assert_eq!(Cell::Stack(8).glyph(), '\u{2588}');
}

#[test]
fn render_row_maps_every_cell() {
    let mut s = Snow::create(2, 3);
    s.set(1, 0, Cell::Flake(Snowflake::Type2, 1));
    s.set(1, 2, Cell::Stack(3));
    assert_eq!(s.render_row(0), vec![' ', ' ', ' ']);
    assert_eq!(s.render_row(1), vec!['\u{2745}', ' ', '\u{2583}']);
    s.tick(&mut MinRandom {});
    assert_eq!(s.render_row(1).len(), 3);
}
