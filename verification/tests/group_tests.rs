use ocmapgen::errors::Error;
use ocmapgen::group::{Entry, Group};

fn sample_group() -> Group {
    let entries = vec![
        Entry { name: String::from("TexMap.txt"), data: vec![1, 2, 3] },
        Entry { name: String::from("Rock.png"), data: vec![4, 5] },
        Entry { name: String::from("Water.png"), data: vec![6] },
    ];
    Group::from_entries(
        String::from("Material.ocg"),
        String::from("/games/planet/Material.ocg"),
        entries,
    )
}

fn collect_names(g: &mut Group) -> Vec<String> {
    let mut names = Vec::new();
    while let Some(name) = g.next_entry() {
        names.push(name);
    }
    names
}

#[test]
fn rewind_reproduces_the_same_sequence() {
    let mut g = sample_group();
    let first = collect_names(&mut g);
    g.rewind();
    let second = collect_names(&mut g);
    assert_eq!(first, vec!["TexMap.txt", "Rock.png", "Water.png"]);
    assert_eq!(first, second);
    g.rewind();
    let third = collect_names(&mut g);
    assert_eq!(first, third);
}

#[test]
fn load_entry_reads_the_named_bytes() {
    let g = sample_group();
    assert_eq!(g.load_entry("Rock.png").unwrap(), vec![4, 5]);
    assert_eq!(g.load_entry("TexMap.txt").unwrap(), vec![1, 2, 3]);
}

#[test]
fn load_entry_fails_with_archive_error_on_absent_name() {
    let g = sample_group();
    match g.load_entry("Missing.png") {
        Ok(_) => panic!("expected the read to fail"),
        Err(Error::Group(msg)) => assert_eq!(msg, "entry not found: Missing.png"),
        Err(_) => panic!("expected the archive kind"),
    }
}

#[test]
fn names_are_reported() {
    let g = sample_group();
    assert_eq!(g.name(), "Material.ocg");
    assert_eq!(g.full_name(), "/games/planet/Material.ocg");
}
