use qd_varallax::types::color::{
    change_channel, html_slicing_inside_char, hex_to_color, hex_to_color_with_alpha, html_to_color, name_to_color, swap_color,
    VxColorChannel, VxColorChannelSwap, VxColorName, VxColorU8,
};

#[test]
fn named_colors_have_their_channels() {
    assert_eq!(name_to_color(VxColorName::White), (255, 255, 255, 255));
    assert_eq!(name_to_color(VxColorName::Black), (0, 0, 0, 255));
    assert_eq!(name_to_color(VxColorName::Red), (255, 0, 0, 255));
    assert_eq!(name_to_color(VxColorName::Green), (0, 255, 0, 255));
    assert_eq!(name_to_color(VxColorName::Blue), (0, 0, 255, 255));
    assert_eq!(name_to_color(VxColorName::Cyan), (0, 255, 255, 255));
    assert_eq!(name_to_color(VxColorName::Magenta), (255, 0, 255, 255));
    assert_eq!(name_to_color(VxColorName::Yellow), (255, 255, 0, 255));
    assert_eq!(name_to_color(VxColorName::Transparent), (0, 0, 0, 0));
}

#[test]
fn html_six_digits() {
    assert_eq!(html_to_color("#FF8000"), Ok((255, 128, 0, 255)));
    assert_eq!(html_to_color("ff8000"), Ok((255, 128, 0, 255)));
}

#[test]
fn html_eight_digits_with_alpha() {
    assert_eq!(html_to_color("#11223344"), Ok((0x11, 0x22, 0x33, 0x44)));
}

#[test]
fn html_short_forms_double_each_digit() {
    assert_eq!(html_to_color("#FFF"), Ok((255, 255, 255, 255)));
    assert_eq!(html_to_color("#1234"), Ok((0x11, 0x22, 0x33, 0x44)));
    assert_eq!(html_to_color("a0c"), Ok((0xaa, 0x00, 0xcc, 255)));
}

#[test]
fn html_any_number_of_leading_hashes() {
    assert_eq!(html_to_color("##abcdef80"), Ok((0xab, 0xcd, 0xef, 0x80)));
}

#[test]
fn html_wrong_length_is_rejected() {
    assert_eq!(html_to_color("12345"), Err("Invalid hex length"));
    assert_eq!(html_to_color(""), Err("Invalid hex length"));
    assert_eq!(html_to_color("#"), Err("Invalid hex length"));
    assert_eq!(html_to_color("1234567"), Err("Invalid hex length"));
}

#[test]
fn html_non_hex_digit_is_rejected() {
    assert_eq!(html_to_color("zz0000"), Err("Invalid hex"));
    assert_eq!(html_to_color("#12345g"), Err("Invalid hex"));
    assert_eq!(html_to_color("#ggg"), Err("Invalid hex"));
}

#[test]
fn html_plus_sign_reads_as_radix_parse_does() {
    assert_eq!(html_to_color("+F+F+F"), Ok((15, 15, 15, 255)));
    assert_eq!(u8::from_str_radix("+F", 16), Ok(15));
    assert_eq!(html_to_color("1+FFFF"), Err("Invalid hex"));
    assert_eq!(html_to_color("++FFFF"), Err("Invalid hex"));
    assert_eq!(html_to_color("-1FFFF"), Err("Invalid hex"));
    assert_eq!(html_to_color("+FF"), Err("Invalid hex"));
}

#[test]
fn hex_literals() {
    assert_eq!(hex_to_color(0x112233), (0x11, 0x22, 0x33, 255));
    assert_eq!(hex_to_color(0xAA112233), (0x11, 0x22, 0x33, 255));
    assert_eq!(hex_to_color_with_alpha(0x11223344), (0x11, 0x22, 0x33, 0x44));
}

#[test]
fn channel_swaps() {
    let h = 0x11223344;
    assert_eq!(swap_color(VxColorChannelSwap::NoSwap, h), (0x11, 0x22, 0x33, 0x44));
    assert_eq!(swap_color(VxColorChannelSwap::SwapRG, h), (0x22, 0x11, 0x33, 0x44));
    assert_eq!(swap_color(VxColorChannelSwap::SwapGB, h), (0x11, 0x33, 0x22, 0x44));
    assert_eq!(swap_color(VxColorChannelSwap::SwapBA, h), (0x11, 0x22, 0x44, 0x33));
    assert_eq!(swap_color(VxColorChannelSwap::SwapRA, h), (0x44, 0x22, 0x33, 0x11));
    assert_eq!(swap_color(VxColorChannelSwap::SwapRB, h), (0x33, 0x22, 0x11, 0x44));
    assert_eq!(swap_color(VxColorChannelSwap::SwapGA, h), (0x11, 0x44, 0x33, 0x22));
}

#[test]
fn channel_layouts() {
    let h = 0x11223344;
    assert_eq!(change_channel(VxColorChannel::RGBA, h), (0x11, 0x22, 0x33, 0x44));
    assert_eq!(change_channel(VxColorChannel::ARGB, h), (0x44, 0x11, 0x22, 0x33));
    assert_eq!(change_channel(VxColorChannel::BGRA, h), (0x33, 0x22, 0x11, 0x44));
    assert_eq!(change_channel(VxColorChannel::ABGR, h), (0x44, 0x33, 0x22, 0x11));
    assert_eq!(change_channel(VxColorChannel::GRBA, h), (0x22, 0x11, 0x33, 0x44));
    assert_eq!(change_channel(VxColorChannel::RBGA, h), (0x11, 0x33, 0x22, 0x44));
}

#[test]
fn swapping_twice_restores() {
    let mut c = VxColorU8::rgba(1, 2, 3, 4);
    c.swap_channel(VxColorChannelSwap::SwapRA);
    assert_eq!(c.to_tuple(), (4, 2, 3, 1));
    c.swap_channel(VxColorChannelSwap::SwapRA);
    assert_eq!(c, VxColorU8::rgba(1, 2, 3, 4));
}

#[test]
fn color_hex_round_trip() {
    let c = VxColorU8::rgba(0x12, 0x34, 0x56, 0x78);
    assert_eq!(c.to_hex(), 0x12345678);
    assert_eq!(VxColorU8::from_hex_with_alpha(c.to_hex()), c);
    assert_eq!(VxColorU8::from_hex_with_alpha(0xDEADBEEF).to_hex(), 0xDEADBEEF);
}

#[test]
fn color_constructors_and_getters() {
    let c = VxColorU8::rgb(10, 20, 30);
    assert_eq!((c.red(), c.green(), c.blue(), c.alpha()), (10, 20, 30, 255));
    assert_eq!(c.to_array(), [10, 20, 30]);
    assert_eq!(c.to_array_with_alpha(), [10, 20, 30, 255]);
    assert_eq!(VxColorU8::default().to_tuple(), (0, 0, 0, 255));
    assert_eq!(VxColorU8::from_name(VxColorName::Magenta).to_tuple(), (255, 0, 255, 255));
    assert_eq!(VxColorU8::from_hex(0x0000FF).to_tuple(), (0, 0, 255, 255));
}

#[test]
fn color_from_html() {
    assert_eq!(VxColorU8::from_html("#0000FF").map(|c| c.to_tuple()), Ok((0, 0, 255, 255)));
    assert!(VxColorU8::from_html("#00").is_err());
    assert_eq!(VxColorU8::from_html("xyz").err(), Some("Invalid hex"));
}

#[test]
fn color_setters_and_with() {
    let mut c = VxColorU8::default();
    c.set_red(1);
    c.set_green(2);
    c.set_blue(3);
    c.set_alpha(4);
    assert_eq!(c.to_tuple(), (1, 2, 3, 4));
    c.set_rgba(5, 6, 7, 8);
    assert_eq!(c.to_tuple(), (5, 6, 7, 8));
    let d = c.with_red(9).with_green(10).with_blue(11).with_alpha(12);
    assert_eq!(d.to_tuple(), (9, 10, 11, 12));
    assert_eq!(c.to_tuple(), (5, 6, 7, 8));
}

#[test]
fn color_channel_layout_in_place() {
    let mut c = VxColorU8::rgba(1, 2, 3, 4);
    c.set_color_channel(VxColorChannel::ABGR);
    assert_eq!(c.to_tuple(), (4, 3, 2, 1));
}

#[test]
fn color_prints_as_upper_case_hex() {
    assert_eq!(VxColorU8::from_name(VxColorName::Transparent).to_string(), "#00000000");
    assert_eq!(VxColorU8::from((0u8, 0u8, 255u8)).to_string(), "#0000FFFF");
    assert_eq!(VxColorU8::default().to_string(), "#000000FF");
    assert_eq!(VxColorU8::rgba(0xab, 0x0c, 0x9f, 0x10).to_string(), "#AB0C9F10");
}

#[test]
fn color_conversions() {
    assert_eq!(VxColorU8::from((1u8, 2u8, 3u8, 4u8)), VxColorU8::rgba(1, 2, 3, 4));
    assert_eq!(VxColorU8::from([1u8, 2, 3]), VxColorU8::rgb(1, 2, 3));
    assert_eq!(VxColorU8::from([1u8, 2, 3, 4]), VxColorU8::rgba(1, 2, 3, 4));
    assert_eq!(VxColorU8::from(0x102030u32), VxColorU8::rgb(0x10, 0x20, 0x30));
    assert_eq!(VxColorU8::from(VxColorName::Yellow), VxColorU8::rgb(255, 255, 0));
}

#[test]
fn printed_color_parses_back() {
    for c in [
        VxColorU8::rgba(0, 0, 0, 0),
        VxColorU8::rgba(0xab, 0x0c, 0x9f, 0x10),
        VxColorU8::rgba(255, 255, 255, 255),
        VxColorU8::rgba(1, 0x80, 0xfe, 0x7f),
    ] {
        assert_eq!(VxColorU8::from_html(&c.to_string()), Ok(c));
    }
}

#[test]
fn color_channel_arithmetic() {
    let a = VxColorU8::rgba(1, 2, 3, 4);
    let b = VxColorU8::rgba(10, 20, 30, 40);
    assert_eq!(a + b, VxColorU8::rgba(11, 22, 33, 44));
    assert_eq!(VxColorU8::rgba(2, 3, 4, 5) * VxColorU8::rgba(3, 3, 3, 3), VxColorU8::rgba(6, 9, 12, 15));
    assert_eq!(VxColorU8::rgba(255, 0, 7, 1) * VxColorU8::rgba(1, 200, 0, 1), VxColorU8::rgba(255, 0, 0, 1));
}

#[test]
fn html_slicing_inside_a_character_is_detected() {
    assert!(html_slicing_inside_char("é12"));
    assert!(!html_slicing_inside_char("#FFF"));
    assert!(!html_slicing_inside_char("zé1"));
    assert!(!html_slicing_inside_char("12345é"));
}
