use iwt::citation::PermashortCitation;
use iwt::text::{byte_count, clean_description, hashtags, shorten, shorten_with_permashort_citation};

#[test]
fn test_short_returns_same_if_short() {
    let short_text = "This is some text.";
    assert_eq!(shorten(short_text, 100), short_text);
}

#[test]
fn test_shorten_returns_shortened_sentence_limit_on_dot() {
    let text = "This is some text. Looooong word.";
    assert_eq!(shorten(text, 18), "This is some");
}

#[test]
fn test_shorten_returns_shortened_sentence_limit_after_dot() {
    let text = "This is some text. Looooong word.";
    assert_eq!(shorten(text, 19), "This is some text.");
}

#[test]
fn test_shorten_returns_shortened_sentence_limit_with_ellipsis() {
    let text = "This is some text. Looooong word.";
    assert_eq!(shorten(text, 21), "This is some text.");
}

#[test]
fn test_shorten_returns_shortened_sentence_limit_with_ellipsis_longer() {
    let text = "This is some text. Looooong word.";
    assert_eq!(shorten(text, 23), "This is some text.");
}

#[test]
fn shorten_first_word_needs_one_spare_byte() {
    assert_eq!(shorten("Hello world", 6), "");
    assert_eq!(shorten("Hello world", 7), "Hello");
    assert_eq!(shorten("", 0), "");
}

#[test]
fn shorten_counts_utf8_bytes() {
    // "héllo" takes six bytes.
    assert_eq!(shorten("héllo wörld", 7), "");
    assert_eq!(shorten("héllo wörld", 8), "héllo");
    assert_eq!(byte_count("héllo…"), 9);
}

#[test]
fn hashtags_are_pascal_cased_and_space_joined() {
    let tags = vec![String::from("rust"), String::from("web dev")];
    assert_eq!(hashtags(&tags), "#Rust #WebDev");
    assert_eq!(hashtags(&Vec::new()), "");
}

#[test]
fn clean_description_strips_markup() {
    let (text, long_form) = clean_description("<p>Hello <code>x</code></p> <p>World</p>");
    assert_eq!(text, "Hello `x`\n\nWorld");
    assert!(!long_form);
}

#[test]
fn clean_description_renders_list_items() {
    let (text, _) = clean_description("<ul><li>one</li><li>two</li></ul>");
    assert_eq!(text, "- one- two");
}

#[test]
fn clean_description_cuts_at_first_subheading() {
    let (text, long_form) = clean_description("<p>Intro</p><h2 id=\"a\">Title</h2><p>Body</p>");
    assert_eq!(text, "Intro");
    assert!(long_form);
    let (_, long_form) = clean_description("<p>Intro</p><h7 id=\"a\">Title</h7>");
    assert!(!long_form);
}

#[test]
fn test_shorten_with_permashort_citation_should_add_hashtags() {
    let short_text = "This is some text.";
    let permashort_citation =
        PermashortCitation::new("http".to_string(), "localhost".to_string(), "asdf".to_string());
    assert_eq!(
        shorten_with_permashort_citation(short_text, 100, &permashort_citation, &vec![String::from("tag one")]),
        "This is some text.\n#TagOne http://localhost/asdf"
    );
}

#[test]
fn long_form_post_cites_the_display_form() {
    let c = PermashortCitation::new("https".to_string(), "vdx.hu".to_string(), "s/Df3l".to_string());
    let status = shorten_with_permashort_citation(
        "<p>Intro</p><h2 id=\"x\">T</h2><p>Rest</p>",
        500,
        &c,
        &vec![String::from("rust")],
    );
    assert_eq!(status, "Intro\n#Rust (vdx.hu s/Df3l)");
}

#[test]
fn long_description_is_truncated_within_budget() {
    let c = PermashortCitation::new("https".to_string(), "vdx.hu".to_string(), "s/Df3l".to_string());
    let description = vec!["word"; 100].join(" ");
    let tags = vec![String::from("rust"), String::from("web dev")];
    let status = shorten_with_permashort_citation(&description, 280, &c, &tags);
    let expected = format!("\"{}…\"\n#Rust #WebDev https://vdx.hu/s/Df3l", vec!["word"; 47].join(" "));
    assert_eq!(status, expected);
    assert!(status.len() <= 280);
}

#[test]
fn shorten_at_the_largest_budget_keeps_everything() {
    let text = "Some words here";
    assert_eq!(shorten(text, usize::MAX), text);
}

#[test]
fn status_at_a_zero_budget_does_not_panic() {
    let c = PermashortCitation::new("https".to_string(), "vdx.hu".to_string(), "s/x".to_string());
    let status = shorten_with_permashort_citation("Hello world", 0, &c, &Vec::new());
    assert_eq!(status, "\"…\"\n https://vdx.hu/s/x");
}

#[test]
fn empty_description_gets_only_the_link_line() {
    let c = PermashortCitation::new("https".to_string(), "vdx.hu".to_string(), "s/x".to_string());
    let status = shorten_with_permashort_citation("", 100, &c, &vec![String::from("a")]);
    assert_eq!(status, "\n#A https://vdx.hu/s/x");
}

#[test]
fn plain_subheading_tag_is_a_cut() {
    let (text, long_form) = clean_description("<p>Intro</p><h2>Title</h2><p>Body</p>");
    assert_eq!(text, "Intro");
    assert!(long_form);
}

#[test]
fn long_citation_uri_still_fits_the_budget() {
    let c = PermashortCitation::new(
        "https".to_string(),
        "a-rather-long-shortener-domain.example".to_string(),
        "s/Df3l".to_string(),
    );
    let description = vec!["word"; 200].join(" ");
    let tags = vec![String::from("rust")];
    let status = shorten_with_permashort_citation(&description, 280, &c, &tags);
    assert!(status.len() <= 280);
    assert!(status.ends_with("…\"\n#Rust https://a-rather-long-shortener-domain.example/s/Df3l"));
    assert!(status.starts_with("\"word word"));
}
