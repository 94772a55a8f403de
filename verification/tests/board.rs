use api_runtime::board::{
    board_saved, image_input_paths, image_written, place_generated, place_image, resolve_refs,
    source_pair, Asset, BoardDoc, OverlayMap, Placement,
};

fn asset(id: &str, path: &str) -> Asset<u8> {
    Asset { id: id.to_string(), path: path.to_string(), rest: 7 }
}

fn placement(id: &str, asset_id: &str) -> Placement<i32> {
    Placement { id: id.to_string(), asset_id: asset_id.to_string(), rest: -1 }
}

fn doc() -> BoardDoc<u8, i32> {
    BoardDoc {
        assets: vec![asset("a1", "assets/one.png"), asset("a2", "assets/two.png")],
        placements: vec![
            placement("p1", "a1"),
            placement("p2", "a2"),
            placement("p3", "gone"),
            placement("p1", "a2"),
        ],
    }
}

fn texts(list: &[&str]) -> Vec<String> {
    list.iter().map(|s| s.to_string()).collect()
}

fn pairs(list: &[(&str, &str)]) -> Vec<(String, String)> {
    list.iter().map(|(a, b)| (a.to_string(), b.to_string())).collect()
}

#[test]
fn the_last_overlay_of_a_placement_counts() {
    let m = OverlayMap::new(&pairs(&[("p1", "x"), ("p2", "y"), ("p1", "z")]));
    assert_eq!(m.get("p1"), Some("z".to_string()));
    assert_eq!(m.get("p2"), Some("y".to_string()));
    assert_eq!(m.get("p3"), None);
    let mut paths = m.paths();
    paths.sort();
    assert_eq!(paths, texts(&["y", "z"]));
}

#[test]
fn references_are_resolved_in_order() {
    let overlays = OverlayMap::new(&pairs(&[("p1", ".overlay-1.png"), ("p9", "unused")]));
    let refs = resolve_refs(Some(&doc()), &texts(&["p2", "p3", "p9", "p1"]), &overlays).unwrap();
    assert_eq!(refs.len(), 2);
    assert_eq!(refs[0].clean_rel, "assets/two.png");
    assert_eq!(refs[0].overlay_rel, None);
    assert_eq!(refs[1].clean_rel, "assets/one.png");
    assert_eq!(refs[1].overlay_rel, Some(".overlay-1.png".to_string()));
    assert_eq!(
        image_input_paths(&refs),
        texts(&["assets/two.png", "assets/one.png", ".overlay-1.png"])
    );
}

#[test]
fn references_need_a_board() {
    let none: Option<&BoardDoc<u8, i32>> = None;
    let overlays = OverlayMap::new(&vec![]);
    assert_eq!(
        resolve_refs(none, &texts(&["p1"]), &overlays).unwrap_err(),
        "unknown board".to_string()
    );
}

#[test]
fn the_first_source_is_derived_from() {
    assert_eq!(source_pair(&doc(), &texts(&["p2", "p1"])), Some((1, 1)));
    assert_eq!(source_pair(&doc(), &texts(&["p1"])), Some((0, 0)));
    assert_eq!(source_pair(&doc(), &texts(&["p3", "p1"])), None);
    assert_eq!(source_pair(&doc(), &texts(&["p9", "p1"])), None);
    assert_eq!(source_pair(&doc(), &vec![]), None);
}

#[test]
fn placed_images_enter_the_board_once() {
    let mut d = doc();
    place_generated(&mut d, asset("a3", "assets/gen.png"), placement("p4", "a3"));
    assert_eq!(d.assets.len(), 3);
    assert_eq!(d.placements.len(), 5);
    assert_eq!(source_pair(&d, &texts(&["p4"])), Some((4, 2)));
    place_generated(&mut d, asset("a3", "elsewhere.png"), placement("p5", "a3"));
    assert_eq!(d.assets.len(), 3);
    assert_eq!(d.assets[2].path, "assets/gen.png");
    assert_eq!(d.placements.len(), 6);
    assert_eq!(source_pair(&d, &texts(&["p5"])), Some((5, 2)));
    assert_eq!(source_pair(&d, &texts(&["p2"])), Some((1, 1)));
}

#[test]
fn images_are_placed_on_open_boards() {
    assert_eq!(place_image(true, b"GIF89a.."), Ok("gif"));
    assert_eq!(place_image(true, b""), Ok("png"));
    assert_eq!(place_image(false, b"GIF89a.."), Err("unknown board".to_string()));
}

#[test]
fn written_images_are_kept() {
    assert_eq!(image_written(Ok(asset("a3", "x.png"))).unwrap().id, "a3");
    assert_eq!(
        image_written::<u8>(Err("full".to_string())).unwrap_err(),
        "write generated image: full"
    );
}

#[test]
fn saved_boards_hold_the_image() {
    let (a, p) = board_saved(asset("a3", "x.png"), Some(Ok(placement("p4", "a3")))).unwrap();
    assert_eq!((a.id.as_str(), a.path.as_str(), p.id.as_str()), ("a3", "x.png", "p4"));
    assert_eq!(
        board_saved::<u8, i32>(asset("a3", "x.png"), Some(Err("locked".to_string()))).unwrap_err(),
        "save board after generation: locked"
    );
    assert_eq!(
        board_saved::<u8, i32>(asset("a3", "x.png"), None).unwrap_err(),
        "unknown board"
    );
}
