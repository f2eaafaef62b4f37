use iwt::feed::{Directive, FeedItem};
use iwt::ledger::{Ledger, StorageError, SyndicatedPost};
use iwt::network::Network;

fn item(guid: &str) -> FeedItem {
    FeedItem {
        guid: guid.to_string(),
        link: format!("{guid}/link"),
        description: String::from("text"),
        directive: Some(Directive { target_networks: vec![Network::Mastodon], tags: Vec::new(), content_warning: None }),
    }
}

#[test]
fn syndicated_post_takes_guid_and_link_of_the_item() {
    let p = SyndicatedPost::new(Network::Twitter, "42", &item("g1"));
    assert_eq!(p.social_network, Network::Twitter);
    assert_eq!(p.id, "42");
    assert_eq!(p.original_guid, "g1");
    assert_eq!(p.original_uri, "g1/link");
}

#[test]
fn ledger_finds_stored_records_by_guid_and_network() {
    let mut ledger = Ledger::new();
    assert!(ledger.find("g1", Network::Mastodon).is_none());
    ledger.store(SyndicatedPost::new(Network::Mastodon, "1", &item("g1"))).unwrap();
    let found = ledger.find("g1", Network::Mastodon).unwrap();
    assert_eq!(found.id, "1");
    assert!(ledger.find("g1", Network::Twitter).is_none());
    assert!(ledger.find("g2", Network::Mastodon).is_none());
}

#[test]
fn ledger_refuses_a_second_record_for_a_pair() {
    let mut ledger = Ledger::new();
    ledger.store(SyndicatedPost::new(Network::Mastodon, "1", &item("g1"))).unwrap();
    let second = ledger.store(SyndicatedPost::new(Network::Mastodon, "2", &item("g1")));
    assert!(matches!(second, Err(StorageError::PersistenceError(_))));
    assert_eq!(ledger.len(), 1);
    assert_eq!(ledger.get(0).id, "1");
    ledger.store(SyndicatedPost::new(Network::Twitter, "3", &item("g1"))).unwrap();
    assert_eq!(ledger.len(), 2);
}
