use iwt::citation::PermashortCitation;
use iwt::shortener::ShortenerEndpoint;

fn vdx() -> PermashortCitation {
    PermashortCitation::new(String::from("https"), String::from("vdx.hu"), String::from("s/Df3l"))
}

#[test]
fn test_to_string() {
    let psc = vdx();
    assert_eq!(psc.to_string().as_str(), "vdx.hu s/Df3l");
}

#[test]
fn test_to_uri() {
    let psc = vdx();
    assert_eq!(psc.to_uri().as_str(), "https://vdx.hu/s/Df3l");
}

#[test]
fn shortener_base_uri_defaults_to_protocol_and_domain() {
    let e = ShortenerEndpoint::new("http", "shortly", None);
    assert_eq!(e.base_uri, "http://shortly");
    let base = String::from("http://localhost:9000");
    let e = ShortenerEndpoint::new("http", "shortly", Some(&base));
    assert_eq!(e.base_uri, "http://localhost:9000");
}

#[test]
fn shortener_put_url_percent_encodes_the_uri() {
    let base = String::from("http://localhost:9000");
    let e = ShortenerEndpoint::new("http", "shortly", Some(&base));
    assert_eq!(
        e.put_url("https://example.com/a b"),
        "http://localhost:9000/u/https%3A%2F%2Fexample.com%2Fa%20b"
    );
}

#[test]
fn shortener_citation_prefixes_the_short_path() {
    let e = ShortenerEndpoint::new("https", "vdx.hu", None);
    let c = e.citation("Df3l");
    assert_eq!(c.to_uri(), "https://vdx.hu/s/Df3l");
    assert_eq!(c.to_string(), "vdx.hu s/Df3l");
}
