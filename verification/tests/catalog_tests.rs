use image::{Rgba, RgbaImage};
use ocmapgen::group::{Entry, Group};
use ocmapgen::mattex::{Material, MaterialMap, TexMapLine, TextureMap};

fn png_bytes(width: u32, height: u32, pixels: &[(u8, u8, u8, u8)]) -> Vec<u8> {
    let mut img = RgbaImage::new(width, height);
    let mut k: usize = 0;
    for p in img.pixels_mut() {
        let (r, g, b, a) = pixels[k];
        *p = Rgba([r, g, b, a]);
        k += 1;
    }
    let mut bytes: Vec<u8> = Vec::new();
    img.write_to(&mut std::io::Cursor::new(&mut bytes), image::ImageFormat::Png).unwrap();
    bytes
}

fn line(index: u8, texture: &str, material: &str) -> TexMapLine {
    TexMapLine {
        index,
        texture: String::from(texture),
        material: String::from(material),
    }
}

#[test]
fn material_lookup_ignores_case() {
    let mut mats = MaterialMap::new();
    let count = mats.load(vec![
        Material::new(String::from("Rock"), String::from("rock")),
        Material::new(String::from("Water"), String::from("")),
    ]);
    assert_eq!(count, 2);
    assert_eq!(mats.len(), 2);
    let found = mats.get_material_by_name("ROCK").unwrap();
    assert_eq!(found.name(), "Rock");
    assert_eq!(found.texture_overlay(), "rock");
    assert!(mats.get_material_by_name("lava").is_none());
}

#[test]
fn material_lookup_by_index() {
    let mut mats = MaterialMap::new();
    mats.load(vec![Material::new(String::from("Rock"), String::from(""))]);
    assert_eq!(mats.get_material_by_index(0).unwrap().name(), "Rock");
    assert!(mats.get_material_by_index(1).is_none());
}

#[test]
fn loads_accumulate_and_keep_indices() {
    let mut mats = MaterialMap::new();
    mats.load(vec![Material::new(String::from("Rock"), String::from(""))]);
    mats.load(vec![Material::new(String::from("Water"), String::from(""))]);
    assert_eq!(mats.len(), 2);
    assert_eq!(mats.get_material_by_index(0).unwrap().name(), "Rock");
    assert_eq!(mats.get_material_by_index(1).unwrap().name(), "Water");
}

#[test]
fn texture_map_lines_define_indices() {
    let mut texs = TextureMap::new();
    let result = texs.load_map(
        &vec![line(1, "rock", "Rock"), line(2, "water", "Water"), line(0, "sky", "Sky")],
        true,
        false,
    );
    assert_eq!(result.num_loaded, 2);
    assert!(result.overload_materials);
    assert!(!result.overload_textures);
    assert_eq!(texs.get_texture_name(1).unwrap(), "rock");
    assert_eq!(texs.get_material_name(1).unwrap(), "Rock");
    assert_eq!(texs.get_texture_name(2).unwrap(), "water");
    assert!(texs.get_texture_name(0).is_none());
    assert!(texs.get_texture_name(3).is_none());
    assert!(texs.get_texture_name(256).is_none());
}

#[test]
fn reloading_a_definition_keeps_untouched_indices() {
    let mut texs = TextureMap::new();
    texs.load_map(&vec![line(1, "rock", "Rock"), line(2, "water", "Water")], false, false);
    texs.load_map(&vec![line(2, "lava", "Lava")], false, false);
    assert_eq!(texs.get_texture_name(1).unwrap(), "rock");
    assert_eq!(texs.get_texture_name(2).unwrap(), "lava");
}

#[test]
fn uniform_texture_average_is_exact() {
    let px = (10u8, 20u8, 30u8, 255u8);
    let bytes = png_bytes(2, 2, &[px, px, px, px]);
    let mut g = Group::from_entries(
        String::from("Material.ocg"),
        String::from("Material.ocg"),
        vec![Entry { name: String::from("Rock.png"), data: bytes }],
    );
    let mut texs = TextureMap::new();
    texs.load_textures(&mut g).unwrap();
    // 0xaarrggbb: alpha 255, red 10, green 20, blue 30.
    assert_eq!(texs.get_average_texture_color("Rock"), 4278850590);
    assert_eq!(texs.get_average_texture_color("rock"), 4278850590);
    assert_eq!(texs.get_average_texture_color("unknown"), 0);
}

#[test]
fn half_and_half_texture_rounds_halves_up() {
    let bytes = png_bytes(2, 1, &[(0, 0, 0, 255), (255, 255, 255, 255)]);
    let mut g = Group::from_entries(
        String::from("Material.ocg"),
        String::from("Material.ocg"),
        vec![Entry { name: String::from("Gray.png"), data: bytes }],
    );
    let mut texs = TextureMap::new();
    texs.load_textures(&mut g).unwrap();
    // Each color channel averages to 127.5 and rounds up to 128.
    assert_eq!(texs.get_average_texture_color("Gray"), 4286611584);
}

#[test]
fn known_texture_names_are_not_reloaded() {
    let px = (10u8, 20u8, 30u8, 255u8);
    let first = png_bytes(1, 1, &[px]);
    let second = png_bytes(1, 1, &[(200, 200, 200, 255)]);
    let mut g = Group::from_entries(
        String::from("Material.ocg"),
        String::from("Material.ocg"),
        vec![
            Entry { name: String::from("Rock.png"), data: first },
            Entry { name: String::from("ROCK.PNG"), data: second },
        ],
    );
    let mut texs = TextureMap::new();
    texs.load_textures(&mut g).unwrap();
    // The second entry strips to the same lowercased name and is skipped.
    assert_eq!(texs.get_average_texture_color("rock"), 4278850590);
}

#[test]
fn entries_without_image_suffix_are_passed_over() {
    let mut g = Group::from_entries(
        String::from("Material.ocg"),
        String::from("Material.ocg"),
        vec![Entry { name: String::from("TexMap.txt"), data: vec![0, 1, 2] }],
    );
    let mut texs = TextureMap::new();
    texs.load_textures(&mut g).unwrap();
    assert_eq!(texs.get_average_texture_color("TexMap"), 0);
}

#[test]
fn undecodable_texture_image_fails_the_load() {
    let mut g = Group::from_entries(
        String::from("Material.ocg"),
        String::from("Material.ocg"),
        vec![Entry { name: String::from("Bad.png"), data: vec![0, 1, 2, 3] }],
    );
    let mut texs = TextureMap::new();
    match texs.load_textures(&mut g) {
        Ok(_) => panic!("expected the load to fail"),
        Err(ocmapgen::errors::Error::Msg(m)) => {
            assert_eq!(m, "could not load texture image");
        },
        Err(_) => panic!("expected a plain message"),
    }
}

#[test]
fn crossmap_binds_default_textures() {
    let mut mats = MaterialMap::new();
    mats.load(vec![
        Material::new(String::from("Rock"), String::from("")),
        Material::new(String::from("Water"), String::from("waves")),
    ]);
    let mut texs = TextureMap::new();
    texs.load_map(&vec![line(1, "rock", "ROCK")], false, false);
    mats.set_default_textures(&texs);
    // The empty overlay is bound through the raster-index table, without
    // regard to case; an explicit overlay stays.
    assert_eq!(mats.get_material_by_name("Rock").unwrap().texture_overlay(), "rock");
    assert_eq!(mats.get_material_by_name("Water").unwrap().texture_overlay(), "waves");
}
