use pokemon_colorscripts::ansi::image_to_ansi_art;
use pokemon_colorscripts::pipeline::{
    add_padding, decode_sprite, inspect_sprite, process_pokemon, resize_if_too_large, sprite_url,
    SpriteError,
};
use pokemon_colorscripts::sprite::{crop_to_content, Sprite};

fn sprite(w: u32, h: u32, px: &[(u8, u8, u8, u8)]) -> Sprite {
    let mut data = Vec::new();
    for p in px {
        data.extend_from_slice(&[p.0, p.1, p.2, p.3]);
    }
    Sprite::from_raw(w, h, data).unwrap()
}

const T: (u8, u8, u8, u8) = (0, 0, 0, 0);
const RED: (u8, u8, u8, u8) = (255, 0, 0, 255);
const BLUE: (u8, u8, u8, u8) = (0, 0, 255, 255);

fn png(w: u32, h: u32, px: &[(u8, u8, u8, u8)]) -> Vec<u8> {
    let mut img = image::RgbaImage::new(w, h);
    for y in 0..h {
        for x in 0..w {
            let p = px[(y * w + x) as usize];
            img.put_pixel(x, y, image::Rgba([p.0, p.1, p.2, p.3]));
        }
    }
    let mut buf: Vec<u8> = Vec::new();
    img.write_to(&mut std::io::Cursor::new(&mut buf), image::ImageFormat::Png).unwrap();
    buf
}

#[test]
fn from_raw_checks_the_size() {
    assert!(Sprite::from_raw(2, 1, vec![0; 8]).is_some());
    assert!(Sprite::from_raw(2, 1, vec![0; 7]).is_none());
    let s = Sprite::from_raw(1, 1, vec![1, 2, 3, 4, 5, 6]).unwrap();
    assert_eq!(s.bytes(), &vec![1, 2, 3, 4]);
    assert_eq!(s.pixel(0, 0), (1, 2, 3, 4));
    assert_eq!((s.width(), s.height()), (1, 1));
    assert!(Sprite::from_raw(0, 5, vec![]).is_some());
}

#[test]
fn crop_to_the_opaque_pixels() {
    let s = sprite(3, 3, &[T, T, T, T, RED, BLUE, T, T, T]);
    let c = crop_to_content(s);
    assert_eq!((c.width(), c.height()), (2, 1));
    assert_eq!(c.pixel(0, 0), RED);
    assert_eq!(c.pixel(1, 0), BLUE);
}

#[test]
fn crop_keeps_a_sprite_without_opaque_pixels() {
    let s = sprite(2, 2, &[T, (9, 9, 9, 128), T, T]);
    let c = crop_to_content(s);
    assert_eq!((c.width(), c.height()), (2, 2));
    assert_eq!(c.pixel(1, 0), (9, 9, 9, 128));
}

#[test]
fn crop_bounds_take_in_what_lies_between() {
    let s = sprite(3, 2, &[RED, T, T, T, (1, 2, 3, 100), BLUE]);
    let c = crop_to_content(s);
    assert_eq!((c.width(), c.height()), (3, 2));
    assert_eq!(c.pixel(1, 1), (1, 2, 3, 100));
}

#[test]
fn tall_sprites_are_scaled_by_two_thirds() {
    let s = sprite(3, 65, &vec![RED; 3 * 65]);
    let r = resize_if_too_large(s);
    assert_eq!((r.width(), r.height()), (2, 43));
    for y in 0..43 {
        for x in 0..2 {
            assert_eq!(r.pixel(x, y), RED);
        }
    }
    let t = sprite(5, 100, &vec![BLUE; 500]);
    let r = resize_if_too_large(t);
    assert_eq!((r.width(), r.height()), (3, 67));
}

#[test]
fn sprites_up_to_the_threshold_are_kept() {
    let s = sprite(1, 64, &vec![RED; 64]);
    let r = resize_if_too_large(s);
    assert_eq!((r.width(), r.height()), (1, 64));
}

#[test]
fn padding_adds_a_transparent_margin() {
    let s = sprite(2, 1, &[RED, BLUE]);
    let p = add_padding(s, 1);
    assert_eq!((p.width(), p.height()), (4, 3));
    for y in 0..3 {
        for x in 0..4 {
            let expected = if y == 1 && x == 1 {
                RED
            } else if y == 1 && x == 2 {
                BLUE
            } else {
                T
            };
            assert_eq!(p.pixel(x, y), expected);
        }
    }
    let q = add_padding(sprite(1, 1, &[RED]), 0);
    assert_eq!(q.pixel(0, 0), RED);
}

#[test]
fn ansi_art_single_pixel() {
    assert_eq!(image_to_ansi_art(&sprite(1, 1, &[RED])), "\n\x1b[38;2;255;0;0m▀\x1b[0m\n");
    assert_eq!(image_to_ansi_art(&sprite(1, 1, &[T])), "\n \x1b[0m\n");
    assert_eq!(image_to_ansi_art(&sprite(0, 0, &[])), "\n");
}

#[test]
fn ansi_art_half_blocks_and_shared_codes() {
    // top row: red, transparent; bottom row: blue, blue
    let s = sprite(2, 2, &[RED, T, BLUE, BLUE]);
    assert_eq!(
        image_to_ansi_art(&s),
        "\n\x1b[38;2;255;0;0m\x1b[48;2;0;0;255m▀\x1b[38;2;0;0;255m\x1b[49m▄\x1b[0m\n"
    );
    // the same colors twice share their codes; a transparent cell resets the background
    let s = sprite(3, 2, &[RED, RED, T, BLUE, BLUE, T]);
    assert_eq!(
        image_to_ansi_art(&s),
        "\n\x1b[38;2;255;0;0m\x1b[48;2;0;0;255m▀▀\x1b[49m \x1b[0m\n"
    );
}

#[test]
fn ansi_art_rows_of_two_pixels() {
    let s = sprite(1, 3, &[RED, RED, BLUE]);
    assert_eq!(
        image_to_ansi_art(&s),
        "\n\x1b[38;2;255;0;0m\x1b[48;2;255;0;0m▀\x1b[0m\n\x1b[38;2;0;0;255m▀\x1b[0m\n"
    );
}

#[test]
fn decode_errors_carry_the_decoders_message() {
    match decode_sprite(&[1, 2, 3]) {
        Err(SpriteError::Decode(m)) => assert!(!m.is_empty()),
        _ => panic!("expected a decode error"),
    }
    assert!(matches!(process_pokemon(b"not a png"), Err(SpriteError::Decode(_))));
}

#[test]
fn decode_reads_a_png() {
    let bytes = png(2, 1, &[RED, (1, 2, 3, 4)]);
    match decode_sprite(&bytes) {
        Ok(s) => {
            assert_eq!((s.width(), s.height()), (2, 1));
            assert_eq!(s.pixel(0, 0), RED);
            assert_eq!(s.pixel(1, 0), (1, 2, 3, 4));
        }
        Err(_) => panic!("expected a sprite"),
    }
}

#[test]
fn process_a_one_pixel_sprite() {
    let bytes = png(3, 2, &[T, T, T, T, RED, T]);
    match process_pokemon(&bytes) {
        // cropped to the red pixel, padded by one: 3x3 with red in the middle
        Ok(art) => assert_eq!(art, "\n \x1b[38;2;255;0;0m▄ \x1b[0m\n   \x1b[0m\n"),
        Err(_) => panic!("expected art"),
    }
}

#[test]
fn inspect_counts_alpha_values() {
    let s = sprite(3, 1, &[RED, (1, 2, 3, 128), T]);
    assert_eq!(
        inspect_sprite(&s),
        vec![
            "Raw sprite: 3x1".to_string(),
            "  semi-transparent (1,0) rgba=(1,2,3,128)".to_string(),
            "fully opaque (alpha=255): 1".to_string(),
            "semi-transparent (0<a<255): 1".to_string(),
            "fully transparent (alpha=0): 1".to_string(),
        ]
    );
}

#[test]
fn sprite_address() {
    assert_eq!(sprite_url("pikachu"), "https://img.pokemondb.net/sprites/sword-shield/icon/pikachu.png");
}
