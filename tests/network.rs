use iwt::error::IwtError;
use iwt::feed::directive_from_parts;
use iwt::ledger::StorageError;
use iwt::network::Network;
use iwt::shortener::ClientError;

#[test]
fn network_keys_are_lowercase_names() {
    assert_eq!(Network::Twitter.to_string(), "twitter");
    assert_eq!(Network::Mastodon.to_string(), "mastodon");
}

#[test]
fn network_key_round_trip() {
    for n in [Network::Twitter, Network::Mastodon] {
        let key = n.to_string();
        assert_eq!(Network::from_key(&key).unwrap(), n);
    }
}

#[test]
fn unknown_network_key_is_rejected() {
    let e = Network::from_key("myspace").unwrap_err();
    assert_eq!(e.message, "Unknown social network: myspace");
    assert!(Network::from_key("Twitter").is_err());
}

#[test]
fn directive_reads_known_networks() {
    let keys = vec![String::from("mastodon"), String::from("twitter")];
    let d = directive_from_parts(&keys, vec![String::from("rust")], Some(String::from("cw"))).unwrap();
    assert_eq!(d.target_networks, vec![Network::Mastodon, Network::Twitter]);
    assert_eq!(d.tags, vec![String::from("rust")]);
    assert_eq!(d.content_warning, Some(String::from("cw")));
    assert!(d.targets(Network::Twitter));
}

#[test]
fn directive_with_unknown_network_is_none() {
    let keys = vec![String::from("mastodon"), String::from("friendster")];
    assert!(directive_from_parts(&keys, Vec::new(), None).is_none());
}

#[test]
fn directive_without_networks_targets_nothing() {
    let d = directive_from_parts(&Vec::new(), Vec::new(), None).unwrap();
    assert!(!d.targets(Network::Twitter));
    assert!(!d.targets(Network::Mastodon));
}

#[test]
fn iwt_error_keeps_its_message() {
    let e = IwtError::new("boom");
    assert_eq!(e.message(), "boom");
    assert_eq!(e.to_string(), "IwtError: boom");
}

#[test]
fn errors_render_their_messages() {
    let e = Network::from_key("x").unwrap_err();
    assert_eq!(e.to_string(), "SqlConversionError: Unknown social network: x");
    assert_eq!(StorageError::PersistenceError(String::from("p")).to_string(), "StorageError");
    let c = ClientError { message: String::from("Unexpected status: 500") };
    assert_eq!(c.to_string(), "UrlShortener Client Error: Unexpected status: 500");
}

#[test]
fn ascii_alphanumerics_are_left_as_they_are_by_the_encoders() {
    let base = String::from("http://h");
    let e = iwt::shortener::ShortenerEndpoint::new("http", "h", Some(&base));
    assert_eq!(e.put_url("abcXYZ019"), "http://h/u/abcXYZ019");
}
