use chip8::draw::Draw;
use chip8::utils::test_print;

#[test]
fn test_pattern_marks_the_corners() {
    let mut draw = Draw::new(64, 32);
    test_print(&mut draw);

    assert!(draw.pixel_at(0, 0));
    assert!(draw.pixel_at(63, 0));
    assert!(draw.pixel_at(0, 31));
    assert!(draw.pixel_at(63, 31));
}

#[test]
fn test_pattern_renders_the_font_ramp() {
    let mut draw = Draw::new(64, 32);
    test_print(&mut draw);

    // Glyph '0' sits at (2, 3); its top row is 0xF0.
    assert!(draw.pixel_at(2, 3));
    assert!(draw.pixel_at(5, 3));
    assert!(!draw.pixel_at(6, 3));

    // Glyph '1' sits at (7, 3); its top row is 0x20.
    assert!(!draw.pixel_at(8, 3));
    assert!(draw.pixel_at(9, 3));

    // Glyph 'A' opens the second row at (2, 10); its top row is 0xF0.
    assert!(draw.pixel_at(2, 10));
    assert!(draw.pixel_at(5, 10));
    assert!(!draw.pixel_at(6, 10));
}
