use iwt::citation::PermashortCitation;
use iwt::error::SyndicationError;
use iwt::feed::{Directive, FeedItem};
use iwt::mastodon::{mastodon_outcome, mastodon_status, MastodonReply};
use iwt::network::Network;
use iwt::twitter::{is_too_long, tweet_text, twitter_next, TwitterNext, TwitterReply, MAX_TWEET_BYTES};

fn too_long() -> TwitterReply {
    TwitterReply::Rejected(vec![String::from("Your Tweet text is too long. Shorten it.")])
}

#[test]
fn too_long_rejections_step_down_to_the_floor_then_give_up() {
    let mut budget = MAX_TWEET_BYTES;
    let mut tried = vec![budget];
    loop {
        match twitter_next(budget, too_long()) {
            TwitterNext::Retry(b) => {
                budget = b;
                tried.push(b);
            },
            TwitterNext::Done(r) => {
                assert!(matches!(r, Err(SyndicationError::PlatformRejected(_))));
                break;
            },
        }
    }
    let expected: Vec<usize> = (0..15).map(|k| 280 - 5 * k).collect();
    assert_eq!(tried, expected);
}

#[test]
fn posted_tweet_ends_the_loop() {
    match twitter_next(280, TwitterReply::Posted(String::from("123"))) {
        TwitterNext::Done(Ok(id)) => assert_eq!(id, "123"),
        _ => panic!("expected the id"),
    }
}

#[test]
fn other_rejection_gives_up_without_retry() {
    let r = twitter_next(280, TwitterReply::Rejected(vec![String::from("Duplicate content")]));
    assert!(matches!(r, TwitterNext::Done(Err(SyndicationError::PlatformRejected(_)))));
    let r = twitter_next(280, TwitterReply::Unreadable(String::from("bad json")));
    assert!(matches!(r, TwitterNext::Done(Err(SyndicationError::PlatformRejected(ref m))) if m == "bad json"));
    let r = twitter_next(280, TwitterReply::Failed(SyndicationError::AuthRefreshFailed(String::from("no"))));
    assert!(matches!(r, TwitterNext::Done(Err(SyndicationError::AuthRefreshFailed(_)))));
}

#[test]
fn too_long_is_found_among_messages() {
    assert!(is_too_long(&vec![String::from("x"), String::from("Your Tweet text is too long.")]));
    assert!(!is_too_long(&vec![String::from("Your Tweet text is")]));
    assert!(!is_too_long(&Vec::new()));
}

#[test]
fn texts_for_both_networks_are_rendered_from_the_item() {
    let item = FeedItem {
        guid: String::from("g"),
        link: String::from("https://example.com/g"),
        description: String::from("<p>Hello there</p>"),
        directive: None,
    };
    let directive = Directive { target_networks: vec![Network::Twitter], tags: vec![String::from("news")], content_warning: None };
    let c = PermashortCitation::new("https".to_string(), "vdx.hu".to_string(), "s/a".to_string());
    assert_eq!(tweet_text(&item, &directive, &c, 280), "Hello there\n#News https://vdx.hu/s/a");
    assert_eq!(mastodon_status(&item, &directive, &c), "Hello there\n#News https://vdx.hu/s/a");
}

#[test]
fn mastodon_outcome_is_single_shot() {
    assert_eq!(mastodon_outcome(MastodonReply::Answered(200, Ok(String::from("9")))).unwrap(), "9");
    assert!(matches!(
        mastodon_outcome(MastodonReply::Answered(200, Err(String::from("?")))),
        Err(SyndicationError::PlatformRejected(_))
    ));
    assert!(matches!(
        mastodon_outcome(MastodonReply::Answered(422, Ok(String::from("9")))),
        Err(SyndicationError::PlatformRejected(_))
    ));
    assert!(matches!(
        mastodon_outcome(MastodonReply::Failed(SyndicationError::ShortenerFailed(String::from("down")))),
        Err(SyndicationError::ShortenerFailed(_))
    ));
}
