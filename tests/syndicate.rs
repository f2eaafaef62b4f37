use iwt::error::SyndicationError;
use iwt::feed::{Directive, FeedItem};
use iwt::ledger::SyndicatedPost;
use iwt::network::Network;
use iwt::syndicate::{decide, Decision, Run, Step};
use iwt::ledger::Ledger;

fn item(guid: &str, networks: Vec<Network>) -> FeedItem {
    FeedItem {
        guid: guid.to_string(),
        link: format!("https://example.com/{guid}"),
        description: String::from("Some text."),
        directive: Some(Directive { target_networks: networks, tags: Vec::new(), content_warning: None }),
    }
}

/// Runs to the end, publishing with `publish`; returns the (guid, network) of every publish call.
fn drive(
    run: &mut Run,
    mut publish: impl FnMut(&FeedItem, Network) -> Result<String, SyndicationError>,
) -> Vec<(String, Network)> {
    let mut calls = Vec::new();
    loop {
        match run.step() {
            Step::Finished => break,
            Step::Visited(t, Decision::Publish) => {
                let network = run.network(t).unwrap();
                let item = run.item(t).unwrap().clone();
                calls.push((item.guid.clone(), network));
                let outcome = publish(&item, network);
                run.on_published(outcome);
            },
            Step::Visited(_, _) => {},
        }
    }
    calls
}

fn ok_publisher() -> impl FnMut(&FeedItem, Network) -> Result<String, SyndicationError> {
    let mut n = 0;
    move |_, _| {
        n += 1;
        Ok(n.to_string())
    }
}

#[test]
fn two_feeds_are_routed_by_their_directives() {
    let feed1 = vec![item("item-1", vec![Network::Mastodon])];
    let feed2 = vec![item("item-2", vec![Network::Twitter, Network::Mastodon])];
    let mut run = Run::new(vec![Ok(feed1), Ok(feed2)], vec![Network::Mastodon, Network::Twitter], false);
    let calls = drive(&mut run, ok_publisher());
    let mastodon: Vec<&String> = calls.iter().filter(|c| c.1 == Network::Mastodon).map(|c| &c.0).collect();
    let twitter: Vec<&String> = calls.iter().filter(|c| c.1 == Network::Twitter).map(|c| &c.0).collect();
    assert_eq!(mastodon, vec!["item-1", "item-2"]);
    assert_eq!(twitter, vec!["item-2"]);
    assert_eq!(run.ledger().len(), 3);
    assert!(run.finish().is_ok());
}

#[test]
fn item_already_in_ledger_is_not_passed_to_that_target() {
    let feed = vec![item("item-1", vec![Network::Mastodon, Network::Twitter])];
    let mut run = Run::new(vec![Ok(feed.clone())], vec![Network::Mastodon, Network::Twitter], false);
    run.remember(SyndicatedPost::new(Network::Mastodon, "old", &feed[0])).unwrap();
    let calls = drive(&mut run, ok_publisher());
    assert_eq!(calls, vec![(String::from("item-1"), Network::Twitter)]);
    assert_eq!(run.ledger().len(), 2);
}

#[test]
fn publishing_a_pair_twice_is_a_no_op() {
    let feed = vec![item("item-1", vec![Network::Mastodon])];
    let mut run = Run::new(vec![Ok(feed.clone()), Ok(feed)], vec![Network::Mastodon], false);
    let calls = drive(&mut run, ok_publisher());
    assert_eq!(calls.len(), 1);
    assert_eq!(run.ledger().len(), 1);
    assert!(run.finish().is_ok());
}

#[test]
fn dry_run_publishes_and_records_nothing() {
    let feed = vec![item("item-1", vec![Network::Mastodon, Network::Twitter]), item("item-2", vec![Network::Twitter])];
    let mut run = Run::new(vec![Ok(feed)], vec![Network::Mastodon, Network::Twitter], true);
    let calls = drive(&mut run, ok_publisher());
    assert!(calls.is_empty());
    assert_eq!(run.ledger().len(), 0);
    assert!(run.finish().is_ok());
}

#[test]
fn failed_feed_does_not_stop_the_others() {
    let feed2 = vec![item("b-1", vec![Network::Mastodon, Network::Twitter]), item("b-2", vec![Network::Mastodon])];
    let mut run = Run::new(
        vec![Err(SyndicationError::FeedUnavailable(String::from("http://example.com/rss.xml?failure=1"))), Ok(feed2)],
        vec![Network::Mastodon, Network::Twitter],
        false,
    );
    let calls = drive(&mut run, ok_publisher());
    assert_eq!(calls.len(), 3);
    assert_eq!(run.ledger().len(), 3);
    match run.finish() {
        Err(errors) => {
            assert_eq!(errors.len(), 1);
            assert!(matches!(errors[0], SyndicationError::FeedUnavailable(_)));
        },
        Ok(_) => panic!("a failed feed must fail the run"),
    }
}

#[test]
fn failed_publish_is_collected_and_others_go_on() {
    let feed = vec![item("a", vec![Network::Mastodon, Network::Twitter]), item("b", vec![Network::Mastodon])];
    let mut run = Run::new(vec![Ok(feed)], vec![Network::Twitter, Network::Mastodon], false);
    let calls = drive(&mut run, |_, n| {
        if n == Network::Twitter {
            Err(SyndicationError::PlatformRejected(String::from("down")))
        } else {
            Ok(String::from("id"))
        }
    });
    assert_eq!(calls.len(), 3);
    assert_eq!(run.ledger().len(), 2);
    assert_eq!(run.errors().len(), 1);
    assert!(!run.succeeded());
}

#[test]
fn item_without_directive_fails_only_its_triples() {
    let mut bare = item("bare", vec![]);
    bare.directive = None;
    let feed = vec![bare, item("ok", vec![Network::Mastodon])];
    let mut run = Run::new(vec![Ok(feed)], vec![Network::Mastodon], false);
    let calls = drive(&mut run, ok_publisher());
    assert_eq!(calls, vec![(String::from("ok"), Network::Mastodon)]);
    match run.finish() {
        Err(errors) => {
            assert_eq!(errors.len(), 1);
            assert!(matches!(&errors[0], SyndicationError::DirectiveMissing(g) if g == "bare"));
        },
        Ok(_) => panic!("a missing directive must fail the run"),
    }
}

#[test]
fn empty_directive_goes_nowhere_and_succeeds() {
    let feed = vec![item("quiet", vec![])];
    let mut run = Run::new(vec![Ok(feed)], vec![Network::Mastodon, Network::Twitter], false);
    let calls = drive(&mut run, ok_publisher());
    assert!(calls.is_empty());
    assert!(run.finish().is_ok());
}

#[test]
fn decide_covers_every_outcome() {
    let mut ledger = Ledger::new();
    let targeted = item("g", vec![Network::Mastodon]);
    assert_eq!(decide(&ledger, &targeted, Network::Mastodon, false), Decision::Publish);
    assert_eq!(decide(&ledger, &targeted, Network::Mastodon, true), Decision::Skipped);
    assert_eq!(decide(&ledger, &targeted, Network::Twitter, false), Decision::NotTargeted);
    let mut bare = targeted.clone();
    bare.directive = None;
    assert_eq!(decide(&ledger, &bare, Network::Mastodon, false), Decision::DirectiveMissing);
    ledger.store(SyndicatedPost::new(Network::Mastodon, "1", &targeted)).unwrap();
    assert_eq!(decide(&ledger, &targeted, Network::Mastodon, false), Decision::AlreadyPublished);
}

#[test]
fn outcome_without_pending_triple_changes_nothing() {
    let mut run = Run::new(vec![Ok(vec![item("g", vec![Network::Mastodon])])], vec![Network::Mastodon], false);
    assert!(run.on_published(Ok(String::from("x"))).is_none());
    assert_eq!(run.ledger().len(), 0);
    assert!(run.succeeded());
}

#[test]
fn run_without_feeds_finishes_at_once() {
    let mut run = Run::new(Vec::new(), vec![Network::Mastodon], false);
    assert_eq!(run.step(), Step::Finished);
    assert_eq!(run.step(), Step::Finished);
    assert!(run.finish().is_ok());
}

#[test]
fn record_whose_key_appeared_meanwhile_is_a_storage_fault() {
    let feed = vec![item("g", vec![Network::Mastodon])];
    let mut run = Run::new(vec![Ok(feed.clone())], vec![Network::Mastodon], false);
    assert!(matches!(run.step(), Step::Visited(_, Decision::Publish)));
    run.remember(SyndicatedPost::new(Network::Mastodon, "elsewhere", &feed[0])).unwrap();
    assert!(run.on_published(Ok(String::from("new"))).is_none());
    assert_eq!(run.ledger().len(), 1);
    match run.finish() {
        Err(errors) => assert!(matches!(errors[0], SyndicationError::StorageFault(_))),
        Ok(_) => panic!("the refused record must fail the run"),
    }
}

#[test]
fn reported_error_fails_the_run() {
    let mut run = Run::new(vec![Ok(Vec::new())], vec![Network::Twitter], false);
    run.report(SyndicationError::ShortenerFailed(String::from("down")));
    assert_eq!(run.step(), Step::Finished);
    assert!(run.finish().is_err());
}

#[test]
fn failed_lookup_fails_the_triple_and_publishes_nothing() {
    let feed = vec![item("g", vec![Network::Mastodon, Network::Twitter])];
    let mut run = Run::new(vec![Ok(feed)], vec![Network::Mastodon, Network::Twitter], false);
    run.lookup_failed("g", Network::Mastodon, iwt::ledger::StorageError::SqlError(String::from("disk I/O error")));
    assert!(matches!(run.step(), Step::Visited(_, Decision::StorageFault)));
    let mut published = Vec::new();
    loop {
        match run.step() {
            Step::Finished => break,
            Step::Visited(t, Decision::Publish) => {
                published.push(run.network(t).unwrap());
                run.on_published(Ok(String::from("1")));
            },
            Step::Visited(_, _) => {},
        }
    }
    assert_eq!(published, vec![Network::Twitter]);
    assert_eq!(run.ledger().len(), 1);
    match run.finish() {
        Err(errors) => {
            assert_eq!(errors.len(), 1);
            assert!(matches!(&errors[0], SyndicationError::StorageFault(iwt::ledger::StorageError::SqlError(m)) if m == "disk I/O error"));
        },
        Ok(_) => panic!("a failed lookup must fail the run"),
    }
}

#[test]
fn failed_lookup_in_dry_run_is_still_an_error() {
    let feed = vec![item("g", vec![Network::Mastodon])];
    let mut run = Run::new(vec![Ok(feed)], vec![Network::Mastodon], true);
    run.lookup_failed("g", Network::Mastodon, iwt::ledger::StorageError::PersistenceError(String::from("x")));
    assert!(drive(&mut run, ok_publisher()).is_empty());
    assert_eq!(run.errors().len(), 1);
}

#[test]
fn errors_are_listed_in_order() {
    let mut bare = item("bare", vec![]);
    bare.directive = None;
    let mut run = Run::new(
        vec![Err(SyndicationError::FeedUnavailable(String::from("f1"))), Ok(vec![bare])],
        vec![Network::Twitter],
        false,
    );
    drive(&mut run, ok_publisher());
    run.report(SyndicationError::ShortenerFailed(String::from("s")));
    let errors = run.errors();
    assert_eq!(errors.len(), 3);
    assert!(matches!(&errors[0], SyndicationError::FeedUnavailable(m) if m == "f1"));
    assert!(matches!(&errors[1], SyndicationError::DirectiveMissing(g) if g == "bare"));
    assert!(matches!(&errors[2], SyndicationError::ShortenerFailed(m) if m == "s"));
}
