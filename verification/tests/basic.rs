use ocmapgen::easy::{Easy, MapType};
use ocmapgen::errors::Error;
use ocmapgen::is_bmp;

#[test]
fn it_works() {
}

#[test]
fn map_type_inferred_from_script_extension() {
    let easy = Easy::new();
    let mut cfg = easy.build();
    cfg.filename("Foo/Map.c");
    match cfg.autodetect_map_type() {
        Ok(t) => assert!(matches!(t, MapType::MapC)),
        Err(_) => panic!("expected inference to succeed"),
    }
}

#[test]
fn map_type_inferred_from_landscape_extension() {
    let easy = Easy::new();
    let mut cfg = easy.build();
    cfg.filename("Foo/Landscape.txt");
    match cfg.autodetect_map_type() {
        Ok(t) => assert!(matches!(t, MapType::LandscapeTxt)),
        Err(_) => panic!("expected inference to succeed"),
    }
}

#[test]
fn map_type_inference_fails_on_unknown_extension() {
    let easy = Easy::new();
    let mut cfg = easy.build();
    cfg.filename("Foo/Map.bin");
    match cfg.autodetect_map_type() {
        Ok(_) => panic!("expected inference to fail"),
        Err(Error::MapTypeDetectionFailed(name)) => assert_eq!(name, "Foo/Map.bin"),
        Err(_) => panic!("expected the detection-failure kind"),
    }
}

#[test]
fn map_type_inference_fails_without_filename() {
    let easy = Easy::new();
    let cfg = easy.build();
    match cfg.autodetect_map_type() {
        Ok(_) => panic!("expected inference to fail"),
        Err(Error::MapTypeDetectionFailed(name)) => assert_eq!(name, "<no filename>"),
        Err(_) => panic!("expected the detection-failure kind"),
    }
}

#[test]
fn render_plan_requires_source_or_filename() {
    let easy = Easy::new();
    let mut cfg = easy.build();
    cfg.map_type(MapType::MapC);
    match cfg.render_plan() {
        Ok(_) => panic!("expected the plan to fail"),
        Err(Error::Msg(m)) => assert_eq!(m, "neither source nor filename set"),
        Err(_) => panic!("expected a plain message"),
    }
}

#[test]
fn render_plan_carries_the_configuration() {
    let easy = Easy::new();
    let mut cfg = easy.build();
    cfg.filename("Village/Map.c");
    cfg.source("func InitializeMap() { return true; }");
    cfg.width(320);
    cfg.height(240);
    let plan = cfg.render_plan().unwrap();
    assert!(matches!(plan.map_type, MapType::MapC));
    assert_eq!(plan.filename, "Village/Map.c");
    assert_eq!(plan.source.as_deref(), Some("func InitializeMap() { return true; }"));
    assert_eq!(plan.width, 320);
    assert_eq!(plan.height, 240);
    assert_eq!(plan.algo_script_path, "");
}

#[test]
fn render_plan_reads_file_when_no_source_given() {
    let easy = Easy::new();
    let mut cfg = easy.build();
    cfg.filename("Hills/Landscape.txt");
    let plan = cfg.render_plan().unwrap();
    assert!(matches!(plan.map_type, MapType::LandscapeTxt));
    assert!(plan.source.is_none());
}

#[test]
fn bmp_paths_are_recognized() {
    assert!(is_bmp("out/map.bmp"));
    assert!(!is_bmp("out/map.png"));
    assert!(!is_bmp("bmp"));
}

#[test]
fn error_messages_match_their_kinds() {
    assert_eq!(Error::NothingLoaded.message(), "texture/material loading failed");
    assert_eq!(Error::Group(String::from("boom")).message(), "c4group: boom");
    assert_eq!(
        Error::MapTypeDetectionFailed(String::from("x.bin")).message(),
        "file 'x.bin' has neither Landscape.txt nor Map.c file type"
    );
    assert_eq!(Error::NoParameterDefs.message(), "no ParameterDefs.txt file found");
    assert_eq!(Error::MapGen(String::from("script error")).message(), "script error");
}
