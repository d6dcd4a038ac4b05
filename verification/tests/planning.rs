use image_resizer::gate::{resolve_with_tokens, Decision};
use image_resizer::messages::resized_message;
use image_resizer::paths::{join_path, mirror_output};
use image_resizer::plan::{plan_items, plan_single};

fn paths(ps: &[&str]) -> Vec<String> {
    ps.iter().map(|p| p.to_string()).collect()
}

#[test]
fn join_inserts_separator() {
    assert_eq!(join_path("/out", "a/b.png"), "/out/a/b.png");
    assert_eq!(join_path("/out/", "a.png"), "/out/a.png");
}

#[test]
fn mirror_places_file_under_output_root() {
    let r = mirror_output(
        &"/in/sub/f.png".to_string(),
        &"/in".to_string(),
        &"/out".to_string(),
    );
    assert_eq!(r, Some("/out/sub/f.png".to_string()));
}

#[test]
fn mirror_keeps_nested_directories() {
    let r = mirror_output(
        &"/data/a/b/c/deep.JPG".to_string(),
        &"/data".to_string(),
        &"/mirror".to_string(),
    );
    assert_eq!(r, Some("/mirror/a/b/c/deep.JPG".to_string()));
}

#[test]
fn plan_without_output_root_is_in_place() {
    let files = paths(&["/d/one.jpg", "/d/notes.txt", "/d/sub/two.PNG"]);
    let items = plan_items(&files, &"/d".to_string(), &None, false);
    assert_eq!(items.len(), 2);
    for it in &items {
        assert_eq!(it.output, None);
        assert_eq!(it.target(), &it.input);
    }
    // Re-running the same plan in place with force approves every item
    // without reading input.
    for it in &items {
        let _ = it;
        assert_eq!(resolve_with_tokens(true, true, &Vec::new()), (Decision::Proceed, 0));
    }
}

#[test]
fn plan_with_output_root_mirrors_relative_paths() {
    let files = paths(&["/in/a.jpg", "/in/sub/b.png"]);
    let items = plan_items(&files, &"/in".to_string(), &Some("/out".to_string()), false);
    assert_eq!(items.len(), 2);
    assert_eq!(items[0].input, "/in/a.jpg");
    assert_eq!(items[0].output, Some("/out/a.jpg".to_string()));
    assert_eq!(items[1].input, "/in/sub/b.png");
    assert_eq!(items[1].output, Some("/out/sub/b.png".to_string()));
}

#[test]
fn plan_keeps_traversal_order() {
    let files = paths(&["/d/z.png", "/d/a.png", "/d/m.png"]);
    let items = plan_items(&files, &"/d".to_string(), &None, false);
    let inputs: Vec<&str> = items.iter().map(|it| it.input.as_str()).collect();
    assert_eq!(inputs, vec!["/d/z.png", "/d/a.png", "/d/m.png"]);
}

#[test]
fn gif_not_enumerated_without_allow_gif() {
    // A directory holding one PNG and one GIF: without the GIF toggle only
    // the PNG is queued; the GIF is not enumerated at all.
    let files = paths(&["/d/pic.png", "/d/anim.gif"]);
    let items = plan_items(&files, &"/d".to_string(), &None, false);
    assert_eq!(items.len(), 1);
    assert_eq!(items[0].input, "/d/pic.png");

    let with_gif = plan_items(&files, &"/d".to_string(), &None, true);
    assert_eq!(with_gif.len(), 2);
}

#[test]
fn single_file_in_place() {
    // A single input with no output path is rewritten in place, and the
    // confirmation line names that same path.
    let it = plan_single(&"/img/photo.jpg".to_string(), &None);
    assert_eq!(it.input, "/img/photo.jpg");
    assert_eq!(it.output, None);
    assert_eq!(it.target(), "/img/photo.jpg");
    assert_eq!(
        resized_message(it.target()),
        "`/img/photo.jpg` has been resized."
    );
}

#[test]
fn single_file_with_explicit_output() {
    let it = plan_single(
        &"/img/photo.jpg".to_string(),
        &Some("/img/photo2.jpg".to_string()),
    );
    assert_eq!(it.target(), "/img/photo2.jpg");
}

#[test]
fn mirror_handles_root_with_trailing_separator() {
    let r = mirror_output(
        &"/in/sub/f.png".to_string(),
        &"/in/".to_string(),
        &"/out".to_string(),
    );
    assert_eq!(r, Some("/out/sub/f.png".to_string()));
}

#[test]
fn join_with_empty_base() {
    assert_eq!(join_path("", "a.png"), "a.png");
}
