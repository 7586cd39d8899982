use particle_sandbox::color::color_for;
use particle_sandbox::color::mix;
use particle_sandbox::color::Color;
use particle_sandbox::color::BLUE_MASK;
use particle_sandbox::color::GREEN_MASK;
use particle_sandbox::color::RED_MASK;

#[test]
fn the_tag_zero_is_blue() {
    assert_eq!(color_for(0), Color { r: 0, g: 0, b: 255, a: 255 });
}

#[test]
fn the_colour_is_read_from_the_lowest_byte() {
    assert_eq!(color_for(0x12), Color { r: 0x12, g: 0x12, b: 0xED, a: 255 });
    assert_eq!(color_for(0x1FF), Color { r: 255, g: 255, b: 0, a: 255 });
    assert_eq!(color_for(0xABCD_EF80), Color { r: 0x80, g: 0x80, b: 0x7F, a: 255 });
    assert_eq!(color_for(u128::MAX), Color { r: 255, g: 255, b: 0, a: 255 });
}

#[test]
fn the_colour_is_what_a_cut_off_mix_gives() {
    for tag in [0u128, 1, 0x7F, 0x80, 0xFF, 0x100, 1_700_000_000_123_456_789, u128::MAX - 3] {
        let color = color_for(tag);
        assert_eq!(color.r, (tag ^ 0xFF0000) as u8);
        assert_eq!(color.g, (tag ^ 0x00FF00) as u8);
        assert_eq!(color.b, (tag ^ 0x0000FF) as u8);
        assert_eq!(color.a, 255);
    }
}

#[test]
fn equal_tags_give_equal_colours() {
    let tag = 1_723_456_789_012_345_678u128;
    assert_eq!(color_for(tag), color_for(tag));
    assert_eq!(color_for(tag), color_for(tag + 256));
}

#[test]
fn tags_that_differ_in_the_lowest_byte_give_different_colours() {
    let tag = 1_723_456_789_012_345_678u128;
    for step in 1..256u128 {
        assert_ne!(color_for(tag), color_for(tag + step));
    }
}

#[test]
fn a_channel_is_the_lowest_byte_of_the_mix() {
    assert_eq!(mix(0x0012_3456, RED_MASK), 0x56);
    assert_eq!(mix(0x0012_3456, GREEN_MASK), 0x56);
    assert_eq!(mix(0x0012_3456, BLUE_MASK), 0xA9);
    assert_eq!(mix(0xAA, 0x0F), 0xA5);
    assert_eq!(mix(0, 0), 0);
}
