use chip8::draw::Drawable;
use chip8::font::{get_character_set, Font};

#[test]
fn character_set_holds_the_glyphs() {
    let set = get_character_set();

    assert_eq!(set.len(), 16);
    assert_eq!(set[0x0], [0xF0, 0x90, 0x90, 0x90, 0xF0]);
    assert_eq!(set[0x1], [0x20, 0x60, 0x20, 0x20, 0x70]);
    assert_eq!(set[0xA], [0xF0, 0x90, 0xF0, 0x90, 0x90]);
    assert_eq!(set[0xF], [0xF0, 0x80, 0xF0, 0x80, 0x80]);
}

#[test]
fn get_character_finds_known_symbols() {
    let font = Font::new();

    assert_eq!(font.get_character(&0x1).unwrap(), [0x20, 0x60, 0x20, 0x20, 0x70]);
    assert_eq!(font.get_character(&0xE).unwrap(), [0xF0, 0x80, 0xF0, 0x80, 0xF0]);
    assert!(font.get_character(&0x10).is_err());
}

#[test]
fn conversion_unpacks_bits_most_significant_first() {
    let pixels = Font::convert_font_to_sprite(&[0xF0]);
    assert_eq!(pixels, vec![1, 1, 1, 1, 0, 0, 0, 0]);

    let pixels = Font::convert_font_to_sprite(&[0x20, 0x01]);
    assert_eq!(
        pixels,
        vec![0, 0, 1, 0, 0, 0, 0, 0, 0, 0, 0, 0, 0, 0, 0, 1]
    );
}

#[test]
fn font_sprites_cover_the_character_set() {
    let font = Font::new();

    let sprite = font.get_font_sprite(&0x0).unwrap();
    assert_eq!(sprite.character, 0x0);
    assert_eq!(sprite.width(), 8);
    assert_eq!(sprite.height(), 5);
    assert_eq!(&sprite.pixels()[0..8], &[1, 1, 1, 1, 0, 0, 0, 0]);

    assert!(font.get_font_sprite(&0x10).is_none());
}
