//! The model registry, the display text, and the file-listing helper.

use gptshell::Models;
use gptshell::get_model;
use gptshell::display::help_lines;
use gptshell::display::models_lines;
use gptshell::display::quickstart_lines;
use gptshell::text::cat_display;

#[test]
fn known_names_map_to_their_models() {
    assert_eq!(get_model("gpt-4"), Models::Gpt4);
    assert_eq!(get_model("gpt-4-32k"), Models::Gpt432k);
    assert_eq!(get_model("text-davinci-003"), Models::TextDavinci003);
    assert_eq!(get_model("text-davinci-002"), Models::TextDavinci002);
    assert_eq!(get_model("code-davinci-002"), Models::CodeDavinci002);
    assert_eq!(get_model("code-cushman-001"), Models::CodeCushman001);
    assert_eq!(get_model("gpt-3.5-turbo"), Models::Gpt35Turbo);
    // Unknown names fall back to the default chat model.
    assert_eq!(get_model("anything-else"), Models::Gpt35Turbo);
}

#[test]
fn metadata_matches_the_table() {
    assert_eq!(Models::Gpt4.name(), "gpt-4");
    assert_eq!(Models::Gpt4.max_tokens(), 8192);
    assert_eq!(Models::Gpt432k.max_tokens(), 32768);
    assert_eq!(Models::Gpt35Turbo.max_tokens(), 4096);
    assert_eq!(Models::TextDavinci003.max_tokens(), 4093);
    assert_eq!(Models::TextDavinci002.max_tokens(), 4097);
    assert_eq!(Models::CodeDavinci002.max_tokens(), 4093);
    assert_eq!(Models::CodeCushman001.max_tokens(), 4093);
    assert_eq!(Models::Gpt4.training_data(), "Up to Sep 2021");
    assert!(Models::CodeCushman001.description().contains("Cushman"));
    assert_eq!(Models::all().len(), 7);
}

#[test]
fn display_text_has_the_expected_shape() {
    let q = quickstart_lines();
    assert_eq!(q.len(), 6);
    assert_eq!(q[0], "Quickstart:");
    let h = help_lines();
    assert_eq!(h.len(), 23);
    assert_eq!(h[0], "Generic Commands");
    let m = models_lines();
    assert_eq!(m.len(), 23);
    assert_eq!(m[0], "Model 'gpt-4' has max tokens of 8192");
    assert_eq!(m[21], "To set a model, run model(\"model\") i.e model(\"code-cushman-001\")");
}

#[test]
fn cat_display_numbers_and_filters() {
    // Blank and whitespace-only lines are dropped; indexes are 0-based and
    // keep their place in the file.
    let lines = cat_display("first\n\n   \nfourth\n", None, None);
    assert_eq!(lines, vec!["0: first".to_owned(), "3: fourth".to_owned()]);
    // The 1-based inclusive range restricts what is listed.
    let lines = cat_display("a\nb\nc\n", Some(2), Some(3));
    assert_eq!(lines, vec!["1: b".to_owned(), "2: c".to_owned()]);
}
