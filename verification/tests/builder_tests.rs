use url_builder::URLBuilder;

#[test]
fn test_set_host() {
    let mut ub = URLBuilder::new();
    ub.set_host("localhost");
    assert_eq!("localhost", ub.host());
}

#[test]
fn test_set_protocol() {
    let mut ub = URLBuilder::new();
    ub.set_protocol("https");
    assert_eq!("https", ub.protocol());
}

#[test]
fn test_set_port() {
    let mut ub = URLBuilder::new();
    ub.set_port(8000);
    assert_eq!(8000, ub.port());
}

#[test]
fn create_google_url() {
    let mut ub = URLBuilder::new();
    ub.set_protocol("http").set_host("www.google.com").set_port(80);
    let url = ub.build();
    assert_eq!("http://www.google.com:80", url);
}

#[test]
fn create_url_without_port() {
    let mut ub = URLBuilder::new();
    ub.set_protocol("http").set_host("google.com");
    let url = ub.build();
    assert_eq!("http://google.com", url)
}

#[test]
fn create_url_without_port_and_params() {
    let mut ub = URLBuilder::new();
    ub.set_protocol("http").set_host("google.com").add_param("gcookie", "0xcafe");
    let url = ub.build();
    assert_eq!("http://google.com?gcookie=0xcafe&", url)
}

#[test]
fn create_url_with_routes() {
    let mut ub = URLBuilder::new();
    ub.set_protocol("http").set_host("google.com").add_route("mail");
    let url = ub.build();
    assert_eq!("http://google.com/mail", url)
}

#[test]
fn create_url_with_params() {
    let mut ub = URLBuilder::new();
    ub.set_protocol("http")
        .set_host("localhost")
        .set_port(8000)
        .add_param("first", "1")
        .add_param("second", "2")
        .add_param("third", "3");

    let url = ub.build();
    assert!(url.contains("first=1"));
    assert!(url.contains("second=2"));
    assert!(url.contains("third=3"));
}

#[test]
fn create_url_with_ports_routes_and_params() {
    let mut ub = URLBuilder::new();
    ub.set_protocol("http")
        .set_host("localhost")
        .set_port(8000)
        .add_route("query")
        .add_route("chains")
        .add_param("first", "1")
        .add_param("second", "2")
        .add_param("third", "3");

    let url = ub.build();
    assert!(url.contains("/query"));
    assert!(url.contains("/chains"));
    assert!(url.contains("/query/chains"));
    assert!(url.contains("first=1"));
    assert!(url.contains("second=2"));
    assert!(url.contains("third=3"));
}
