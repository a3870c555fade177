use image::{Rgba, RgbaImage};
use ocmapgen::group::{Entry, Group};
use ocmapgen::mapgen::{MapGen, MapGenHandle, get_mat_color, map_to_image};
use ocmapgen::mattex::{Material, MaterialMap, TexMapLine, TextureMap};

const SKY: (u8, u8, u8) = (100, 100, 255);

fn uniform_png(r: u8, g: u8, b: u8) -> Vec<u8> {
    let mut img = RgbaImage::new(1, 1);
    for p in img.pixels_mut() {
        *p = Rgba([r, g, b, 255]);
    }
    let mut bytes: Vec<u8> = Vec::new();
    img.write_to(&mut std::io::Cursor::new(&mut bytes), image::ImageFormat::Png).unwrap();
    bytes
}

fn rgb_of(color: u32) -> (u8, u8, u8) {
    (((color >> 16) & 0xff) as u8, ((color >> 8) & 0xff) as u8, (color & 0xff) as u8)
}

/// Catalogs with: index 1 = known texture "rock"; index 5 = animated
/// "Water-1" with "water" cached; index 6 = animated "Lava-2" with no
/// "lava" cached but material Lava overlaying "rock"; index 7 = "Gold-1"
/// with nothing to fall back on.
fn catalogs() -> (MaterialMap, TextureMap) {
    let mut g = Group::from_entries(
        String::from("Material.ocg"),
        String::from("Material.ocg"),
        vec![
            Entry { name: String::from("rock.png"), data: uniform_png(10, 20, 30) },
            Entry { name: String::from("water.png"), data: uniform_png(40, 50, 60) },
        ],
    );
    let mut texs = TextureMap::new();
    texs.load_textures(&mut g).unwrap();
    texs.load_map(
        &vec![
            TexMapLine { index: 1, texture: String::from("rock"), material: String::from("Rock") },
            TexMapLine {
                index: 5,
                texture: String::from("Water-1"),
                material: String::from("Water"),
            },
            TexMapLine { index: 6, texture: String::from("Lava-2"), material: String::from("Lava") },
            TexMapLine { index: 7, texture: String::from("Gold-1"), material: String::from("Gold") },
        ],
        false,
        false,
    );
    let mut mats = MaterialMap::new();
    mats.load(vec![
        Material::new(String::from("Rock"), String::from("")),
        Material::new(String::from("Lava"), String::from("rock")),
    ]);
    (mats, texs)
}

#[test]
fn raster_index_zero_is_always_sky() {
    let (mats, texs) = catalogs();
    assert_eq!(get_mat_color(0, &mats, &texs), SKY);
    let empty_mats = MaterialMap::new();
    let empty_texs = TextureMap::new();
    assert_eq!(get_mat_color(0, &empty_mats, &empty_texs), SKY);
}

#[test]
fn undefined_raster_index_is_sky() {
    let (mats, texs) = catalogs();
    assert_eq!(get_mat_color(9, &mats, &texs), SKY);
}

#[test]
fn known_texture_resolves_to_its_average_color() {
    let (mats, texs) = catalogs();
    let expected = rgb_of(texs.get_average_texture_color("rock"));
    assert_eq!(get_mat_color(1, &mats, &texs), expected);
    assert_ne!(get_mat_color(1, &mats, &texs), SKY);
}

#[test]
fn dashed_texture_resolves_by_its_first_segment() {
    let (mats, texs) = catalogs();
    let expected = rgb_of(texs.get_average_texture_color("water"));
    assert_eq!(get_mat_color(5, &mats, &texs), expected);
}

#[test]
fn unknown_segment_falls_back_to_the_material_overlay() {
    let (mats, texs) = catalogs();
    let expected = rgb_of(texs.get_average_texture_color("rock"));
    assert_eq!(get_mat_color(6, &mats, &texs), expected);
}

#[test]
fn unknown_segment_without_material_is_sky() {
    let (mats, texs) = catalogs();
    assert_eq!(get_mat_color(7, &mats, &texs), SKY);
}

#[test]
fn materialization_walks_the_raster_with_its_rowstride() {
    let (mats, texs) = catalogs();
    // Two rows of two cells, rows three bytes apart: the third byte of each
    // row is padding and must not show up in the image.
    let data = vec![0u8, 1, 99, 5, 0, 99];
    let img = map_to_image(&data, 2, 2, 3, &mats, &texs);
    assert_eq!(img.width, 2);
    assert_eq!(img.height, 2);
    assert_eq!(img.rgb.len(), 12);
    let rock = rgb_of(texs.get_average_texture_color("rock"));
    let water = rgb_of(texs.get_average_texture_color("water"));
    let px = |x: usize, y: usize| {
        let k = 3 * (y * 2 + x);
        (img.rgb[k], img.rgb[k + 1], img.rgb[k + 2])
    };
    assert_eq!(px(0, 0), SKY);
    assert_eq!(px(1, 0), rock);
    assert_eq!(px(0, 1), water);
    assert_eq!(px(1, 1), SKY);
}

#[test]
fn handle_materializes_both_rasters() {
    let (mats, texs) = catalogs();
    let handle = MapGenHandle::new(
        1,
        1,
        1,
        vec![1u8],
        vec![0u8],
        Some(String::from("warned")),
        None,
    );
    let rock = rgb_of(texs.get_average_texture_color("rock"));
    let fg = handle.map_as_image(&mats, &texs);
    assert_eq!((fg.rgb[0], fg.rgb[1], fg.rgb[2]), rock);
    let bg = handle.map_bg_as_image(&mats, &texs);
    assert_eq!((bg.rgb[0], bg.rgb[1], bg.rgb[2]), SKY);
    assert_eq!(handle.warnings().as_deref(), Some("warned"));
    assert!(handle.script_output().is_none());
    assert_eq!(handle.width(), 1);
    assert_eq!(handle.height(), 1);
    assert_eq!(handle.rowstride(), 1);
}

#[test]
fn startup_counts_are_recorded() {
    let mut mapgen = MapGen::init();
    mapgen.set_startup_player_count(3);
    mapgen.set_startup_team_count(2);
}
