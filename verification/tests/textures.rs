use gameclient::combat::CombatUiState;
use gameclient::entities::build_sprite_registry;
use gameclient::terrain::textures::{
    bake_ground_only_texture, bake_map_texture, bake_overlays_only_texture, count_anim_frames,
    cut_tile, load_image, load_images, load_sheet, measure_sheet, ImageFile, RgbaImage,
};

/// A picture of the given size as a PNG file.
fn png(width: u32, height: u32, color: fn(u32, u32) -> [u8; 4]) -> Vec<u8> {
    let picture = image::RgbaImage::from_fn(width, height, |x, y| image::Rgba(color(x, y)));
    let mut file = std::io::Cursor::new(Vec::new());
    picture.write_to(&mut file, image::ImageFormat::Png).unwrap();
    file.into_inner()
}

fn red_then_clear(x: u32, _y: u32) -> [u8; 4] {
    if x < 16 {
        [200, 10, 20, 255]
    } else {
        [0, 0, 0, 0]
    }
}

#[test]
fn picture_is_decoded() {
    let bytes = png(2, 1, |x, _| [x as u8, 5, 6, 7]);
    let picture = load_image(&bytes).unwrap();
    assert_eq!((picture.width, picture.height), (2, 1));
    assert_eq!(picture.pixels, vec![0, 5, 6, 7, 1, 5, 6, 7]);
}

#[test]
fn bytes_that_are_no_picture() {
    assert!(load_image(&[1, 2, 3]).is_none());
    assert!(load_sheet(&[]).is_none());
}

#[test]
fn sheet_is_measured() {
    let sheet = load_sheet(&png(48, 32, red_then_clear)).unwrap();
    assert_eq!((sheet.cols, sheet.rows, sheet.frames), (3, 2, 1));
}

#[test]
fn faint_frames_do_not_count() {
    // Alpha of ten and below counts as empty.
    let mut pixels = vec![0u8; 32 * 16 * 4];
    pixels[(16 * 4) + 3] = 10;
    let image = RgbaImage { width: 32, height: 16, pixels };
    assert_eq!(count_anim_frames(&image), 0);
    let mut pixels = vec![0u8; 32 * 16 * 4];
    pixels[(16 * 4) + 3] = 11;
    let image = RgbaImage { width: 32, height: 16, pixels };
    // The first frame is empty, the second is not.
    assert_eq!(count_anim_frames(&image), 2);
    assert_eq!(measure_sheet(image).frames, 2);
}

#[test]
fn unreadable_pictures_are_left_out() {
    let files = vec![
        ImageFile { name: "bad".into(), bytes: vec![0, 1] },
        ImageFile { name: "good".into(), bytes: png(1, 1, |_, _| [9, 9, 9, 255]) },
    ];
    let images = load_images(&files);
    assert_eq!(images.len(), 1);
    assert_eq!(images[0].name, "good");
    assert_eq!(images[0].image.pixels, vec![9, 9, 9, 255]);
}

#[test]
fn registry_falls_back_to_the_first_sheet() {
    let files = vec![
        ImageFile { name: "broken".into(), bytes: vec![] },
        ImageFile { name: "slime".into(), bytes: png(32, 16, red_then_clear) },
        ImageFile { name: "yeti".into(), bytes: png(32, 16, |_, _| [0, 0, 0, 0]) },
    ];
    let registry = build_sprite_registry(&files);
    assert_eq!(registry.sheets.len(), 2);
    assert_eq!(registry.find("yeti"), Some(1));
    assert_eq!(registry.find("dragon"), Some(0));
    // An empty sheet still has a walk cycle of one frame.
    assert_eq!(registry.sheets[1].anim_frames, 1);
    assert_eq!(registry.sheets[0].anim_frames, 1);
    let empty = build_sprite_registry(&vec![]);
    assert_eq!(empty.find("slime"), None);
}

/// A tileset of one column and two tiles: the first of one color, the second
/// half of another and half clear.
fn tileset() -> RgbaImage {
    let mut pixels = Vec::new();
    for y in 0..40u32 {
        for x in 0..20u32 {
            if y < 20 {
                pixels.extend_from_slice(&[1, 2, 3, 255]);
            } else if x < 10 {
                pixels.extend_from_slice(&[50, 60, 70, 255]);
            } else {
                pixels.extend_from_slice(&[0, 0, 0, 0]);
            }
        }
    }
    RgbaImage { width: 20, height: 40, pixels }
}

#[test]
fn baking_lays_overlays_over_ground() {
    let set = tileset();
    let whole = bake_map_texture(1, 1, &vec![0], &vec![Some(1)], &set, 1);
    let ground = bake_ground_only_texture(1, 1, &vec![0], &set, 1);
    let overlay = bake_overlays_only_texture(1, 1, &vec![Some(1)], &set, 1);
    assert_eq!(whole.len(), 1024);
    assert_eq!(&ground[0..4], &[1, 2, 3, 255]);
    assert_eq!(&overlay[0..4], &[50, 60, 70, 255]);
    assert_eq!(&overlay[60..64], &[0, 0, 0, 0]);
    assert_eq!(&whole[0..4], &[50, 60, 70, 255]);
    assert_eq!(&whole[60..64], &[1, 2, 3, 255]);
}

#[test]
fn tile_is_cut_out() {
    let tile = cut_tile(&tileset(), 0);
    assert_eq!(tile.len(), 1024);
    assert!(tile.chunks(4).all(|p| p == [1, 2, 3, 255]));
}

#[test]
fn no_fight_at_first() {
    let combat = CombatUiState::default();
    assert!(!combat.active && combat.state.is_none() && !combat.action_pending);
}
