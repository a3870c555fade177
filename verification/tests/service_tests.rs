use ocmapgen::easy::Easy;
use ocmapgen::errors::Error;
use ocmapgen::msg::{Request, RenderOutput, Response, apply_request, response_for};
use ocmapgen::scenpar::{Scenpar, ScenparEntry};
use ocmapgen::system::player_controls_compat_script;
use ocmapgen::watch::{WatchEvent, should_rerender};

#[test]
fn request_source_replaces_the_configured_one() {
    let easy = Easy::new();
    let mut cfg = easy.build();
    cfg.source("old source");
    cfg.filename("Map.c");
    let req = Request::RenderMap { source: String::from("new source") };
    apply_request(&mut cfg, &req);
    let plan = cfg.render_plan().unwrap();
    assert_eq!(plan.source.as_deref(), Some("new source"));
}

#[test]
fn successful_render_answers_with_its_images() {
    let out = RenderOutput {
        fg: vec![1, 2, 3],
        bg: Some(vec![4, 5]),
        warnings: None,
        script_output: Some(String::from("logged")),
    };
    match response_for(Ok(out)) {
        Response::Image { fg, bg, warnings, script_output } => {
            assert_eq!(fg, vec![1, 2, 3]);
            assert_eq!(bg, Some(vec![4, 5]));
            assert!(warnings.is_none());
            assert_eq!(script_output.as_deref(), Some("logged"));
        },
        Response::Error(_) => panic!("expected an image response"),
    }
}

#[test]
fn failed_render_answers_with_an_error_and_the_loop_goes_on() {
    // A request whose script fails yields an error response...
    match response_for(Err(Error::MapGen(String::from("syntax error")))) {
        Response::Error(m) => assert_eq!(m, "syntax error"),
        Response::Image { .. } => panic!("expected an error response"),
    }
    // ...and the next outcome is answered as usual.
    let out = RenderOutput { fg: vec![9], bg: None, warnings: None, script_output: None };
    match response_for(Ok(out)) {
        Response::Image { fg, .. } => assert_eq!(fg, vec![9]),
        Response::Error(_) => panic!("expected an image response"),
    }
}

#[test]
fn only_events_on_the_input_file_rerender() {
    let input = "/maps/Map.c";
    assert!(should_rerender(&WatchEvent::Write(String::from("/maps/Map.c")), input));
    assert!(should_rerender(&WatchEvent::Create(String::from("/maps/Map.c")), input));
    assert!(!should_rerender(&WatchEvent::Write(String::from("/maps/Other.c")), input));
    assert!(!should_rerender(&WatchEvent::Other, input));
}

#[test]
fn compat_script_defines_one_constant_per_identifier() {
    let data = Vec::from(
        &b"[ControlDef]\n  Identifier=Jump\n[ControlDef]\nIdentifier=Dig\n"[..],
    );
    let script = player_controls_compat_script(&data);
    assert_eq!(script, "static const CON_Jump = 0;\nstatic const CON_Dig = 0;\n");
}

#[test]
fn compat_script_of_empty_definition_is_empty() {
    let data = Vec::from(&b"nothing here"[..]);
    assert_eq!(player_controls_compat_script(&data), "");
}

#[test]
fn scenario_parameters_answer_with_defaults() {
    let mut sp = Scenpar::new();
    sp.load(vec![
        ScenparEntry { id: String::from("MapSize"), value: 3 },
        ScenparEntry { id: String::from("Goal"), value: 1 },
    ]);
    assert_eq!(sp.get_value_by_id("MapSize", 0), 3);
    assert_eq!(sp.get_value_by_id("Missing", 7), 7);
}

#[test]
fn setting_a_value_overwrites_or_adds() {
    let mut sp = Scenpar::new();
    sp.load(vec![ScenparEntry { id: String::from("MapSize"), value: 3 }]);
    sp.set_value("MapSize", 5, false);
    assert_eq!(sp.get_value_by_id("MapSize", 0), 5);
    sp.set_value("Teams", 2, false);
    assert_eq!(sp.get_value_by_id("Teams", 0), 2);
}

#[test]
fn only_if_larger_keeps_larger_values() {
    let mut sp = Scenpar::new();
    sp.load(vec![ScenparEntry { id: String::from("MapSize"), value: 5 }]);
    sp.set_value("MapSize", 3, true);
    assert_eq!(sp.get_value_by_id("MapSize", 0), 5);
    sp.set_value("MapSize", 8, true);
    assert_eq!(sp.get_value_by_id("MapSize", 0), 8);
}
