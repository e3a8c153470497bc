use myquest::color::{color32_to_hex, hex_to_color32, Color32};

#[test]
fn hex_text_to_color() {
    assert_eq!(hex_to_color32("#4A90E2"), Color32 { r: 0x4A, g: 0x90, b: 0xE2, a: 255 });
    assert_eq!(hex_to_color32("4a90e2"), Color32 { r: 0x4A, g: 0x90, b: 0xE2, a: 255 });
    assert_eq!(hex_to_color32("##ff0000"), Color32 { r: 255, g: 0, b: 0, a: 255 });
    // A pair that is not hexadecimal counts as 255; a leading `+` is a sign.
    assert_eq!(hex_to_color32("#zz10+f"), Color32 { r: 255, g: 0x10, b: 15, a: 255 });
    assert_eq!(hex_to_color32("#-1000099"), Color32 { r: 255, g: 0, b: 0, a: 255 });
    // A two-byte character is a piece of its own, and not a number.
    assert_eq!(hex_to_color32("#é1234"), Color32 { r: 255, g: 0x12, b: 0x34, a: 255 });
    assert_eq!(hex_to_color32("ab\u{e9}\u{e9}"), Color32 { r: 0xAB, g: 255, b: 255, a: 255 });
    // A sign followed by a digit is a number.
    assert_eq!(hex_to_color32("+a+b+c"), Color32 { r: 10, g: 11, b: 12, a: 255 });
    // Characters after the sixth are ignored.
    assert_eq!(hex_to_color32("#01020304"), Color32 { r: 1, g: 2, b: 3, a: 255 });
}

#[test]
fn color_to_hex_text() {
    assert_eq!(color32_to_hex(Color32 { r: 0x4A, g: 0x90, b: 0xE2, a: 255 }), "#4A90E2");
    assert_eq!(color32_to_hex(Color32 { r: 0, g: 0, b: 0, a: 0 }), "#000000");
    assert_eq!(color32_to_hex(Color32::from_rgb(255, 15, 16)), "#FF0F10");
}

#[test]
fn hex_round_trip() {
    for (r, g, b) in [(0u8, 0u8, 0u8), (1, 2, 3), (255, 254, 16), (0x4A, 0x90, 0xE2)] {
        let c = Color32::from_rgb(r, g, b);
        assert_eq!(hex_to_color32(&color32_to_hex(c)), c);
    }
}
