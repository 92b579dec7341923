use poem_pipeline::aggregate::{aggregate_fragments, aggregate_stream, StreamEvent};
use poem_pipeline::artifact::{
    artifact_path, hyphenate, parse_report, render_report, sanitize_title, RunArtifact,
};
use poem_pipeline::catalog::{pick_poem_prompt, pick_poem_type, poem_prompts, poem_types, AiType, PoemType};
use poem_pipeline::chain::{poem_prompt, title_prompt, ChainStage};
use poem_pipeline::images::{build_image_request, image_path, image_prompt, image_save_summary, ImageSize};
use poem_pipeline::settings::AiSettings;
use poem_pipeline::strutil::trim;

fn sep() -> String {
    "-".repeat(80)
}

#[test]
fn aggregates_fragments_in_order() {
    let frags = vec![
        String::from("Hel"),
        String::from("lo "),
        String::from("wor"),
        String::from("ld"),
    ];
    assert_eq!(aggregate_fragments(&frags), "Hello world");
}

#[test]
fn aggregate_is_boundary_independent() {
    let a = aggregate_fragments(&vec![String::from("ab"), String::from("cd")]);
    let b = aggregate_fragments(&vec![String::from("a"), String::from("bcd")]);
    let c = aggregate_fragments(&vec![String::from("abcd")]);
    assert_eq!(a, b);
    assert_eq!(b, c);
}

#[test]
fn aggregate_stream_skips_decode_errors() {
    let events = vec![
        StreamEvent::Chunk(vec![String::from("a")]),
        StreamEvent::DecodeError(String::from("bad fragment")),
        StreamEvent::Chunk(vec![String::from("b"), String::from("c")]),
    ];
    assert_eq!(aggregate_stream(&events), "abc");
}

#[test]
fn aggregate_of_empty_stream_is_empty() {
    let events: Vec<StreamEvent> = vec![];
    assert_eq!(aggregate_stream(&events), "");
}

#[test]
fn presets_hold_their_parameters() {
    let poem = AiSettings::new_poem();
    assert_eq!(poem.model, AiType::Davinci);
    assert_eq!(poem.max_tokens, 2048);
    assert_eq!(poem.n, 1);
    assert_eq!(poem.temperature_milli, 969);

    let title = AiSettings::new_title();
    assert_eq!(title.model, AiType::Davinci);
    assert_eq!(title.max_tokens, 80);
    assert_eq!(title.n, 1);
    assert_eq!(title.temperature_milli, 769);

    let prompt = AiSettings::new_prompt();
    assert_eq!(prompt.model, AiType::Babbage);
    assert_eq!(prompt.max_tokens, 128);
    assert_eq!(prompt.n, 1);
    assert_eq!(prompt.temperature_milli, 769);
}

#[test]
fn model_names() {
    assert_eq!(AiType::Davinci.model_name(), "text-davinci-003");
    assert_eq!(AiType::Curie.model_name(), "text-curie-001");
    assert_eq!(AiType::Babbage.model_name(), "text-babbage-001");
    assert_eq!(AiType::Ada.model_name(), "text-ada-001");
}

#[test]
fn display_names() {
    assert_eq!(PoemType::Haiku.display_name(), "Haiku");
    assert_eq!(PoemType::Villanelle.display_name(), "Villanelle Poem");
    assert_eq!(PoemType::FreeVerse.display_name(), "Free Verse Poem");
}

#[test]
fn catalogs_hold_their_entries() {
    let types = poem_types();
    assert_eq!(types.len(), 10);
    assert_eq!(types[0], PoemType::Sonnet);
    assert_eq!(types[9], PoemType::FreeVerse);
    let prompts = poem_prompts();
    assert_eq!(prompts.len(), 5);
    assert_eq!(
        prompts[0],
        "Write a prompt for a poem about robots that compete with other robots"
    );
}

#[test]
fn selection_wraps_around() {
    let types = poem_types();
    assert_eq!(pick_poem_type(&types, 0), PoemType::Sonnet);
    assert_eq!(pick_poem_type(&types, 10), PoemType::Sonnet);
    assert_eq!(pick_poem_type(&types, 13), PoemType::Concrete);
    let prompts = poem_prompts();
    assert_eq!(pick_poem_prompt(&prompts, 6), prompts[1]);
}

#[test]
fn haiku_poem_prompt_substitution() {
    let p = poem_prompt(PoemType::Haiku, "robots dueling");
    assert_eq!(p, "Write a Haiku about:\nrobots dueling");
}

#[test]
fn title_prompt_substitution() {
    let p = title_prompt(PoemType::Haiku, "robots dueling");
    assert_eq!(p, "Write a title for a Haiku about:\nrobots dueling");
}

#[test]
fn substitution_is_deterministic() {
    let a = poem_prompt(PoemType::Elegy, "the sea");
    let b = poem_prompt(PoemType::Elegy, "the sea");
    assert_eq!(a, b);
}

#[test]
fn trims_whitespace() {
    assert_eq!(trim("  \t robots dueling \n\r "), "robots dueling");
    assert_eq!(trim("untouched"), "untouched");
    assert_eq!(trim(" \n "), "");
}

#[test]
fn sanitize_removes_every_forbidden_character() {
    assert_eq!(sanitize_title("a\"b:c,d?e/f'g\nh"), "abcdefgh");
    assert_eq!(sanitize_title("\"?:,"), "");
    assert_eq!(sanitize_title("plain title"), "plain title");
}

#[test]
fn sanitize_keeps_nonforbidden_content() {
    let s = sanitize_title("::x::");
    assert_eq!(s, "x");
    assert!(!s.is_empty());
}

#[test]
fn hyphenate_joins_words() {
    assert_eq!(hyphenate(" My  Poem \t Title "), "My-Poem-Title");
    assert_eq!(hyphenate("one"), "one");
    assert_eq!(hyphenate("   "), "");
}

#[test]
fn artifact_path_layout() {
    assert_eq!(
        artifact_path(1234567890, "MyPoem"),
        "./poem/1234567890-MyPoem.poem.txt"
    );
    assert_eq!(artifact_path(0, ""), "./poem/0-.poem.txt");
}

#[test]
fn report_has_fixed_layout() {
    let r = render_report("T", "in", "gen", "poem body");
    let s = sep();
    let expected = format!(
        "T\n{s}\nINPUT PROMPT: in\n{s}\nGENERATED PROMPT:\ngen\n{s}\nPOEM:\n{s}\npoem body\n{s}"
    );
    assert_eq!(r, expected);
}

#[test]
fn report_round_trip() {
    let title = "A Quiet Machine";
    let input = "Write a prompt for a poem about robots that compete with other robots";
    let gen = "Write a Haiku about:\nrobots dueling";
    let poem = "gears hum in moonlight\nsteel hands fold a paper crane\nvictory is shared";
    let text = render_report(title, input, gen, poem);
    let parsed = parse_report(text.as_str()).expect("round trip must parse");
    assert_eq!(parsed.0, title);
    assert_eq!(parsed.1, input);
    assert_eq!(parsed.2, gen);
    assert_eq!(parsed.3, poem);
}

#[test]
fn parse_rejects_malformed_text() {
    assert!(parse_report("").is_none());
    assert!(parse_report("no separators here").is_none());
}

#[test]
fn run_artifact_renders_and_names_itself() {
    let a = RunArtifact {
        timestamp: 7,
        title: String::from("My: Poem?"),
        seed_prompt: String::from("seed"),
        expanded_prompt: String::from("gen"),
        poem_text: String::from("body"),
        image_refs: None,
    };
    assert_eq!(a.file_path(), "./poem/7-My Poem.poem.txt");
    assert_eq!(a.display_name(), "My-Poem");
    let parsed = parse_report(a.render().as_str()).unwrap();
    assert_eq!(parsed.0, "My: Poem?");
}

#[test]
fn chain_runs_every_stage_in_order() {
    let stage = ChainStage::start(PoemType::Haiku, String::from("Write a prompt about X"));
    let (prompt, settings) = stage.request().expect("expansion request");
    assert_eq!(prompt, "Write a prompt about X");
    assert_eq!(settings, AiSettings::new_prompt());

    let stage = stage.step(Ok(String::from(" robots dueling \n")));
    let (prompt, settings) = stage.request().expect("title request");
    assert_eq!(prompt, "Write a title for a Haiku about:\nrobots dueling");
    assert_eq!(settings, AiSettings::new_title());

    let stage = stage.step(Ok(String::from(" Steel Duel \n")));
    let (prompt, settings) = stage.request().expect("poem request");
    assert_eq!(prompt, "Write a Haiku about:\nrobots dueling");
    assert_eq!(settings, AiSettings::new_poem());

    let stage = stage.step(Ok(String::from("\nsteel meets steel\n")));
    match stage {
        ChainStage::Done { output } => {
            assert_eq!(output.seed_prompt, "Write a prompt about X");
            assert_eq!(output.expanded_seed, "robots dueling");
            assert_eq!(output.generated_prompt, "Write a Haiku about:\nrobots dueling");
            assert_eq!(output.title, "Steel Duel");
            assert_eq!(output.poem, "steel meets steel");
        }
        _ => panic!("chain did not finish"),
    }
}

#[test]
fn transport_error_on_poem_stage_aborts_without_artifact() {
    let stage = ChainStage::start(PoemType::Haiku, String::from("Write a prompt about X"));
    let stage = stage.step(Ok(String::from("robots dueling")));
    let stage = stage.step(Ok(String::from("Steel Duel")));
    // the poem-generation call fails in transport
    let stage = stage.step(Err(String::from("connection reset")));
    match &stage {
        ChainStage::Failed { message } => assert_eq!(message, "connection reset"),
        _ => panic!("a failed stage must abort the run"),
    }
    // a failed run makes no further requests and yields no artifact
    assert!(stage.request().is_none());
    assert!(!matches!(stage, ChainStage::Done { .. }));
}

#[test]
fn error_on_first_stage_aborts() {
    let stage = ChainStage::start(PoemType::Ode, String::from("seed"));
    let stage = stage.step(Err(String::from("no route to host")));
    assert!(matches!(stage, ChainStage::Failed { .. }));
}

#[test]
fn two_images_at_512_and_their_save_outcomes() {
    let req = build_image_request("a robot poem", 2, ImageSize::S512);
    assert_eq!(req.n, 2);
    assert_eq!(req.size.pixels(), 512);
    assert_eq!(req.user, "poem-gen");
    assert_eq!(req.prompt, "a robot poem");

    // both downloads succeed: exactly two files persisted
    assert_eq!(image_save_summary(&vec![true, true]), (2, 0));
    // one download fails: one file persisted, one reported failure
    assert_eq!(image_save_summary(&vec![true, false]), (1, 1));
}

#[test]
fn image_prompt_and_truncation() {
    let p = image_prompt(PoemType::Haiku, "Steel Duel", "steel meets steel");
    assert_eq!(
        p,
        "Picture of the Haiku named Steel Duel\n\nCONTENT:\n\nsteel meets steel\n\n"
    );
    let long = "x".repeat(1500);
    let req = build_image_request(long.as_str(), 1, ImageSize::S256);
    assert_eq!(req.prompt.chars().count(), 1000);
}

#[test]
fn image_paths_are_indexed() {
    assert_eq!(image_path("./poem/7-My Poem", 0), "./poem/7-My Poem-0.png");
    assert_eq!(image_path("./poem/7-My Poem", 11), "./poem/7-My Poem-11.png");
}
