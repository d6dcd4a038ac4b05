use image_resizer::gate::{classify_token, resolve_with_tokens, Answer, Decision};
use image_resizer::messages::prompt_line;
use image_resizer::session::confirm_existing_batch;

fn tokens(ts: &[&str]) -> Vec<String> {
    ts.iter().map(|t| t.to_string()).collect()
}

#[test]
fn token_classification() {
    assert_eq!(classify_token("y"), Answer::Yes);
    assert_eq!(classify_token("Y"), Answer::Yes);
    assert_eq!(classify_token("yes"), Answer::Yes);
    assert_eq!(classify_token("Yeah"), Answer::Yes);
    assert_eq!(classify_token("n"), Answer::No);
    assert_eq!(classify_token("NO"), Answer::No);
    assert_eq!(classify_token("nope"), Answer::No);
    assert_eq!(classify_token(""), Answer::Other);
    assert_eq!(classify_token("?"), Answer::Other);
    assert_eq!(classify_token("oui"), Answer::Other);
    assert_eq!(classify_token("ño"), Answer::Other);
}

#[test]
fn force_proceeds_without_reading() {
    let ts = tokens(&["n", "n"]);
    assert_eq!(resolve_with_tokens(true, true, &ts), (Decision::Proceed, 0));
    assert_eq!(resolve_with_tokens(true, false, &ts), (Decision::Proceed, 0));
}

#[test]
fn missing_output_proceeds_without_reading() {
    let ts = tokens(&["n"]);
    assert_eq!(resolve_with_tokens(false, false, &ts), (Decision::Proceed, 0));
}

#[test]
fn first_decisive_token_wins() {
    assert_eq!(
        resolve_with_tokens(false, true, &tokens(&["YES"])),
        (Decision::Proceed, 1)
    );
    assert_eq!(
        resolve_with_tokens(false, true, &tokens(&["n", "y"])),
        (Decision::Skip, 1)
    );
}

#[test]
fn unrecognized_tokens_reprompt_until_valid() {
    assert_eq!(
        resolve_with_tokens(false, true, &tokens(&["maybe", "Nah"])),
        (Decision::Skip, 2)
    );
    assert_eq!(
        resolve_with_tokens(false, true, &tokens(&["x", "", "yup"])),
        (Decision::Proceed, 3)
    );
}

#[test]
fn end_of_input_skips() {
    assert_eq!(resolve_with_tokens(false, true, &tokens(&[])), (Decision::Skip, 0));
    assert_eq!(
        resolve_with_tokens(false, true, &tokens(&["huh"])),
        (Decision::Skip, 1)
    );
}

#[test]
fn negative_answer_skips_run_goes_on() {
    // An existing output, no force, and a typed `n`: the item is skipped.
    let (transcript, decisions) = confirm_existing_batch(
        &vec!["/out/pic.jpg".to_string()],
        &tokens(&["n"]),
    );
    assert_eq!(decisions, vec![Decision::Skip]);
    assert_eq!(transcript.len(), 1);
    assert_eq!(transcript[0].reply, Some("n".to_string()));
}

#[test]
fn batch_transcript_one_cycle_per_item() {
    let paths = vec!["/out/a.png".to_string(), "/out/b.png".to_string()];
    let ts = tokens(&["x", "y", "n"]);
    let (transcript, decisions) = confirm_existing_batch(&paths, &ts);
    assert_eq!(decisions, vec![Decision::Proceed, Decision::Skip]);
    // First cycle: two iterations for the first path; second cycle: one.
    assert_eq!(transcript.len(), 3);
    assert_eq!(transcript[0].prompt, prompt_line("/out/a.png"));
    assert_eq!(transcript[0].reply, Some("x".to_string()));
    assert_eq!(transcript[1].prompt, prompt_line("/out/a.png"));
    assert_eq!(transcript[1].reply, Some("y".to_string()));
    assert_eq!(transcript[2].prompt, prompt_line("/out/b.png"));
    assert_eq!(transcript[2].reply, Some("n".to_string()));
}

#[test]
fn batch_exhausting_input_still_answers_every_item() {
    let paths = vec!["/o/a".to_string(), "/o/b".to_string()];
    let (transcript, decisions) = confirm_existing_batch(&paths, &tokens(&["what"]));
    assert_eq!(decisions, vec![Decision::Skip, Decision::Skip]);
    // First cycle: one answered prompt and one that hit the end of input;
    // second cycle: a single end-of-input prompt.
    assert_eq!(transcript.len(), 3);
    assert_eq!(transcript[1].reply, None);
    assert_eq!(transcript[2].reply, None);
}

#[test]
fn prompt_line_names_the_path() {
    assert_eq!(
        prompt_line("/out/pic.jpg"),
        "`/out/pic.jpg` exists, do you want to overwrite it? [y/n] "
    );
}
