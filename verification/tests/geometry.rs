use roguelike::color::Color;
use roguelike::text::{append_decimal, decimal_string};
use roguelike::tile::{Rect, Tile, MAP_HEIGHT, MAP_WIDTH};

#[test]
fn empty_tile_blocks_nothing() {
    let tile = Tile::empty();
    assert!(!tile.blocked);
    assert!(!tile.block_sight);
    assert!(!tile.explored);
}

#[test]
fn wall_tile_blocks_movement_and_sight() {
    let tile = Tile::wall();
    assert!(tile.blocked);
    assert!(tile.block_sight);
    assert!(!tile.explored);
}

#[test]
fn map_has_its_fixed_size() {
    assert_eq!(MAP_WIDTH, 80);
    assert_eq!(MAP_HEIGHT, 43);
}

#[test]
fn rect_new_adds_width_and_height() {
    let rect = Rect::new(3, 5, 10, 6);
    assert_eq!(rect, Rect { x1: 3, y1: 5, x2: 13, y2: 11 });
}

#[test]
fn rect_center_is_the_midpoint() {
    assert_eq!(Rect::new(2, 4, 6, 8).center(), (5, 8));
    assert_eq!(Rect::new(0, 0, 7, 9).center(), (3, 4));
}

#[test]
fn rect_center_rounds_towards_zero() {
    let rect = Rect { x1: -4, y1: -7, x2: 1, y2: 2 };
    assert_eq!(rect.center(), (-1, -2));
}

#[test]
fn rects_that_overlap_intersect() {
    let a = Rect::new(0, 0, 6, 6);
    let b = Rect::new(3, 3, 6, 6);
    assert!(a.intersects_with(&b));
    assert!(b.intersects_with(&a));
}

#[test]
fn rects_that_share_a_border_intersect() {
    let a = Rect::new(0, 0, 6, 6);
    let b = Rect::new(6, 0, 6, 6);
    assert!(a.intersects_with(&b));
}

#[test]
fn rects_apart_do_not_intersect() {
    let a = Rect::new(0, 0, 6, 6);
    let b = Rect::new(7, 0, 6, 6);
    let c = Rect::new(0, 7, 6, 6);
    assert!(!a.intersects_with(&b));
    assert!(!b.intersects_with(&a));
    assert!(!a.intersects_with(&c));
}

#[test]
fn decimal_string_of_small_numbers() {
    assert_eq!(decimal_string(0), "0");
    assert_eq!(decimal_string(7), "7");
    assert_eq!(decimal_string(10), "10");
    assert_eq!(decimal_string(350), "350");
    assert_eq!(decimal_string(-1), "-1");
    assert_eq!(decimal_string(-42), "-42");
}

#[test]
fn decimal_string_of_the_extremes() {
    assert_eq!(decimal_string(i32::MAX), "2147483647");
    assert_eq!(decimal_string(i32::MIN), "-2147483648");
}

#[test]
fn decimal_string_agrees_with_display() {
    let mut n: i32 = -100_003;
    while n < 100_000 {
        assert_eq!(decimal_string(n), format!("{}", n));
        n += 997;
    }
}

#[test]
fn append_decimal_keeps_what_was_there() {
    let mut s = String::from("hp: ");
    append_decimal(&mut s, 1234);
    assert_eq!(s, "hp: 1234");
}

#[test]
fn colors_have_their_components() {
    assert_eq!(Color::White.rgb(), (255, 255, 255));
    assert_eq!(Color::Red.rgb(), (255, 0, 0));
    assert_eq!(Color::DarkRed.rgb(), (191, 0, 0));
    assert_eq!(Color::Orange.rgb(), (255, 127, 0));
    assert_eq!(Color::LightViolet.rgb(), (159, 63, 255));
    assert_eq!(Color::DesaturatedGreen.rgb(), (63, 127, 63));
}

#[test]
fn colors_round_trip_through_their_components() {
    let all = [
        Color::White,
        Color::Red,
        Color::DarkRed,
        Color::Orange,
        Color::DarkerOrange,
        Color::Yellow,
        Color::LightYellow,
        Color::Green,
        Color::LightGreen,
        Color::DesaturatedGreen,
        Color::DarkerGreen,
        Color::LightCyan,
        Color::Sky,
        Color::LightBlue,
        Color::Violet,
        Color::LightViolet,
    ];
    for color in all.iter() {
        let (r, g, b) = color.rgb();
        assert_eq!(Color::from_rgb(r, g, b), Some(*color));
    }
    assert_eq!(Color::from_rgb(1, 2, 3), None);
}
