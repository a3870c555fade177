use ocmapgen::errors::Error;
use ocmapgen::resolver::{DirProbe, resolve};

fn dir(has_material: bool, overload: bool, has_root_markers: bool) -> DirProbe {
    DirProbe { has_material, overload, has_root_markers }
}

#[test]
fn material_beside_root_markers_is_the_only_base() {
    let dirs = vec![dir(true, false, true)];
    let res = resolve(&dirs).unwrap();
    assert_eq!(res.base, 0);
    assert!(res.overlays.is_empty());
    assert_eq!(res.root, 0);
}

#[test]
fn base_without_overload_collects_no_overlays() {
    // The material archive two levels below the root, its definition not
    // asking for continuation; the archives above stay unopened.
    let dirs = vec![dir(true, false, false), dir(true, false, false), dir(true, false, true)];
    let res = resolve(&dirs).unwrap();
    assert_eq!(res.base, 0);
    assert!(res.overlays.is_empty());
    assert_eq!(res.root, 2);
}

#[test]
fn overload_flag_keeps_the_search_going() {
    let dirs = vec![dir(true, true, false), dir(false, false, false), dir(true, false, true)];
    let res = resolve(&dirs).unwrap();
    assert_eq!(res.base, 0);
    assert_eq!(res.overlays, vec![2]);
    assert_eq!(res.root, 2);
}

#[test]
fn overlay_without_continuation_stops_collecting() {
    let dirs = vec![
        dir(true, true, false),
        dir(true, false, false),
        dir(true, false, false),
        dir(false, false, true),
    ];
    let res = resolve(&dirs).unwrap();
    assert_eq!(res.base, 0);
    assert_eq!(res.overlays, vec![1]);
    assert_eq!(res.root, 3);
}

#[test]
fn running_out_of_parents_fails() {
    let dirs = vec![dir(true, false, false), dir(false, false, false)];
    match resolve(&dirs) {
        Ok(_) => panic!("expected the walk to fail"),
        Err(Error::Msg(m)) => assert_eq!(m, "couldn't find base path"),
        Err(_) => panic!("expected a plain message"),
    }
}

#[test]
fn root_without_any_material_archive_fails() {
    let dirs = vec![dir(false, false, false), dir(false, false, true)];
    match resolve(&dirs) {
        Ok(_) => panic!("expected the walk to fail"),
        Err(Error::Msg(m)) => assert_eq!(m, "couldn't find Material.ocg"),
        Err(_) => panic!("expected a plain message"),
    }
}

#[test]
fn material_found_at_the_root_directory_itself() {
    let dirs = vec![dir(false, false, false), dir(true, false, true)];
    let res = resolve(&dirs).unwrap();
    assert_eq!(res.base, 1);
    assert!(res.overlays.is_empty());
    assert_eq!(res.root, 1);
}
