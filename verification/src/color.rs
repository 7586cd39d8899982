//! The colour of a box, derived from its tag.
//!
//! Each channel is the lowest byte of the tag after it was mixed with that
//! channel's mask by exclusive or. Opacity is always full.
use vstd::prelude::*;

verus! {

/// The mask that is mixed into the tag for the red channel.
pub const RED_MASK: u128 = 0xFF_00_00;

/// The mask that is mixed into the tag for the green channel.
pub const GREEN_MASK: u128 = 0x00_FF_00;

/// The mask that is mixed into the tag for the blue channel.
pub const BLUE_MASK: u128 = 0x00_00_FF;

/// Full opacity.
pub const OPAQUE: u8 = 255;

/// A colour with eight bits for each of red, green, blue and opacity.
#[derive(Clone, Copy, Debug, PartialEq, Eq, Structural)]
pub struct Color {
    pub r: u8,
    pub g: u8,
    pub b: u8,
    pub a: u8,
}

/// The lowest byte of `tag` mixed with `mask`.
pub open spec fn channel(tag: u128, mask: u128) -> u8 {
    ((tag ^ mask) & 0xFF) as u8
}

/// The colour of a box whose tag is `tag`.
pub open spec fn color_of(tag: u128) -> Color {
    Color {
        r: channel(tag, RED_MASK),
        g: channel(tag, GREEN_MASK),
        b: channel(tag, BLUE_MASK),
        a: OPAQUE,
    }
}

/// The lowest byte of `tag` mixed with `mask`.
pub fn mix(tag: u128, mask: u128) -> (byte: u8)
    ensures
        byte == channel(tag, mask),
{
    let low: u128 = (tag ^ mask) & 0xFF;
    assert(low <= 0xFF) by (bit_vector)
        requires
            low == (tag ^ mask) & 0xFF,
    ;
    low as u8
}

/// The colour of a box whose tag is `tag`.
pub fn color_for(tag: u128) -> (color: Color)
    ensures
        color == color_of(tag),
{
    Color { r: mix(tag, RED_MASK), g: mix(tag, GREEN_MASK), b: mix(tag, BLUE_MASK), a: OPAQUE }
}

/// Only the lowest byte of the tag reaches the colour: red and green repeat
/// it, blue is its complement, and the colour is opaque.
pub proof fn law_color_reads_lowest_byte(tag: u128)
    ensures
        color_of(tag).r == tag & 0xFF,
        color_of(tag).g == tag & 0xFF,
        color_of(tag).b == 255 - (tag & 0xFF),
        color_of(tag).a == 255,
{
    assert((tag ^ 0xFF_00_00u128) & 0xFF == tag & 0xFF) by (bit_vector);
    assert((tag ^ 0x00_FF_00u128) & 0xFF == tag & 0xFF) by (bit_vector);
    assert((tag ^ 0x00_00_FFu128) & 0xFF == 255 - (tag & 0xFF)) by (bit_vector);
    assert(tag & 0xFF <= 255) by (bit_vector);
}

/// Two boxes with the same tag have the same colour.
pub proof fn law_equal_tags_equal_colors(first: u128, second: u128)
    requires
        first == second,
    ensures
        color_of(first) == color_of(second),
{
}

/// Two boxes differ in colour exactly when their tags differ in the lowest
/// byte.
pub proof fn law_colors_differ_by_lowest_byte(first: u128, second: u128)
    ensures
        (color_of(first) != color_of(second)) <==> (first & 0xFF) != (second & 0xFF),
{
    law_color_reads_lowest_byte(first);
    law_color_reads_lowest_byte(second);
}

} // verus!
