use image::{Rgba, RgbaImage};
use ocmapgen::easy::{ArchiveLoad, Easy};
use ocmapgen::errors::Error;
use ocmapgen::group::{Entry, Group};
use ocmapgen::mattex::{Material, TexMapLine};

fn uniform_png(r: u8, g: u8, b: u8) -> Vec<u8> {
    let mut img = RgbaImage::new(1, 1);
    for p in img.pixels_mut() {
        *p = Rgba([r, g, b, 255]);
    }
    let mut bytes: Vec<u8> = Vec::new();
    img.write_to(&mut std::io::Cursor::new(&mut bytes), image::ImageFormat::Png).unwrap();
    bytes
}

fn base_group() -> Group {
    Group::from_entries(
        String::from("Material.ocg"),
        String::from("/planet/Material.ocg"),
        vec![
            Entry { name: String::from("TexMap.txt"), data: vec![] },
            Entry { name: String::from("rock.png"), data: uniform_png(10, 20, 30) },
        ],
    )
}

fn base_load() -> ArchiveLoad {
    ArchiveLoad {
        materials: vec![Material::new(String::from("Rock"), String::from(""))],
        texmap: vec![TexMapLine {
            index: 1,
            texture: String::from("rock"),
            material: String::from("Rock"),
        }],
        overload_materials: false,
        overload_textures: false,
    }
}

#[test]
fn loading_at_least_one_material_succeeds() {
    let mut easy = Easy::new();
    let mut base = base_group();
    let mut overlays: Vec<Group> = Vec::new();
    easy.load_archives(&mut base, base_load(), &mut overlays, Vec::new()).unwrap();
    let rock = easy.material_map.get_material_by_name("rock").unwrap();
    assert_eq!(rock.name(), "Rock");
    // The crossmap step bound the overlay-less material to its texture.
    assert_eq!(rock.texture_overlay(), "rock");
    assert_eq!(easy.texture_map.get_texture_name(1).unwrap(), "rock");
    assert_ne!(easy.texture_map.get_average_texture_color("rock"), 0);
}

#[test]
fn zero_materials_over_all_archives_fail_with_nothing_loaded() {
    let mut easy = Easy::new();
    let mut base = base_group();
    let mut overlays: Vec<Group> = Vec::new();
    let empty = ArchiveLoad {
        materials: Vec::new(),
        texmap: vec![TexMapLine {
            index: 1,
            texture: String::from("rock"),
            material: String::from("Rock"),
        }],
        overload_materials: false,
        overload_textures: false,
    };
    match easy.load_archives(&mut base, empty, &mut overlays, Vec::new()) {
        Ok(_) => panic!("expected the load to fail"),
        Err(Error::NothingLoaded) => {},
        Err(_) => panic!("expected the nothing-loaded kind"),
    }
}

#[test]
fn empty_texture_map_definition_fails_with_nothing_loaded() {
    let mut easy = Easy::new();
    let mut base = base_group();
    let mut overlays: Vec<Group> = Vec::new();
    let load = ArchiveLoad {
        materials: vec![Material::new(String::from("Rock"), String::from(""))],
        texmap: Vec::new(),
        overload_materials: false,
        overload_textures: false,
    };
    match easy.load_archives(&mut base, load, &mut overlays, Vec::new()) {
        Ok(_) => panic!("expected the load to fail"),
        Err(Error::NothingLoaded) => {},
        Err(_) => panic!("expected the nothing-loaded kind"),
    }
}

#[test]
fn overlay_archives_load_after_the_base() {
    let mut easy = Easy::new();
    let mut base = base_group();
    let mut overlays = vec![Group::from_entries(
        String::from("Material.ocg"),
        String::from("/planet/Worlds/Material.ocg"),
        vec![Entry { name: String::from("water.png"), data: uniform_png(40, 50, 60) }],
    )];
    let overlay_load = ArchiveLoad {
        materials: vec![Material::new(String::from("Water"), String::from("water"))],
        texmap: vec![TexMapLine {
            index: 2,
            texture: String::from("water"),
            material: String::from("Water"),
        }],
        overload_materials: false,
        overload_textures: false,
    };
    easy.load_archives(&mut base, base_load(), &mut overlays, vec![overlay_load]).unwrap();
    assert_eq!(easy.material_map.len(), 2);
    assert_eq!(easy.material_map.get_material_by_index(0).unwrap().name(), "Rock");
    assert_eq!(easy.material_map.get_material_by_index(1).unwrap().name(), "Water");
    // The base definition is the one reloaded last: its indices win.
    assert_eq!(easy.texture_map.get_texture_name(1).unwrap(), "rock");
    assert_eq!(easy.texture_map.get_texture_name(2).unwrap(), "water");
    assert_ne!(easy.texture_map.get_average_texture_color("water"), 0);
}
