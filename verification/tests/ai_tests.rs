use monazite::ai::{ask, summarize_text, AiError};
use monazite::messages::AiRequest;

#[test]
fn returns_keyword_if_present() {
    let s = summarize_text("<h1>Example Domain</h1>", 10);
    assert_eq!(s, "Example Domain");
}

#[test]
fn keeps_first_words_joined_by_single_spaces() {
    assert_eq!(summarize_text("the quick  brown\tfox", 3), "the quick brown");
    assert_eq!(summarize_text("  one ", 5), "one");
    assert_eq!(summarize_text("a b", 0), "a");
    assert_eq!(summarize_text("", 4), "");
}

#[test]
fn ask_rejects_blank_prompts() {
    let err = ask(AiRequest { prompt: "   ".to_string(), max_tokens: 8 }).unwrap_err();
    assert_eq!(err, AiError::Empty);
    assert_eq!(err.message(), "empty prompt");
}

#[test]
fn ask_summarizes_the_trimmed_prompt() {
    let resp = ask(AiRequest { prompt: "  alpha beta gamma  ".to_string(), max_tokens: 2 })
        .unwrap();
    assert_eq!(resp.text, "alpha beta");
}

#[test]
fn window_ai_answers_with_the_keyword() {
    assert_eq!(monazite::window_ai::ask("Example Domain content"), "Example Domain");
    assert_eq!(
        monazite::window_ai::ask_wasm("plain words here".to_string()),
        "plain words here"
    );
}
