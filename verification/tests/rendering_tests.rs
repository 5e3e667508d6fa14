use url_builder::URLBuilder;

#[test]
fn empty_builder_renders_separator_only() {
    let ub = URLBuilder::new();
    assert_eq!("://", ub.build());
}

#[test]
fn default_builder_is_empty() {
    let ub = URLBuilder::default();
    assert_eq!(0, ub.port());
    assert_eq!("", ub.host());
    assert_eq!("", ub.protocol());
    assert_eq!("://", ub.build());
}

#[test]
fn protocol_and_host_only() {
    let mut ub = URLBuilder::new();
    ub.set_protocol("https").set_host("example.org");
    assert_eq!("https://example.org", ub.build());
}

#[test]
fn setters_overwrite_earlier_values() {
    let mut ub = URLBuilder::new();
    ub.set_protocol("http").set_protocol("https");
    ub.set_host("old.example").set_host("new.example");
    ub.set_port(80).set_port(443);
    assert_eq!("https", ub.protocol());
    assert_eq!("new.example", ub.host());
    assert_eq!(443, ub.port());
}

#[test]
fn largest_port_renders_in_full() {
    let mut ub = URLBuilder::new();
    ub.set_protocol("http").set_host("h").set_port(65535);
    assert_eq!("http://h:65535", ub.build());
}

#[test]
fn port_stands_between_host_and_routes_and_query() {
    let mut ub = URLBuilder::new();
    ub.set_protocol("http").set_host("h").set_port(7).add_route("r").add_param("a", "1");
    assert_eq!("http://h:7/r?a=1&", ub.build());
}

#[test]
fn port_zero_is_same_as_never_set() {
    let mut with_zero = URLBuilder::new();
    with_zero.set_protocol("http").set_host("h").set_port(0).add_route("r");
    let mut without = URLBuilder::new();
    without.set_protocol("http").set_host("h").add_route("r");
    assert_eq!(without.build(), with_zero.build());
}

#[test]
fn routes_render_in_call_order() {
    let mut ub = URLBuilder::new();
    ub.set_protocol("http").set_host("h").add_route("a").add_route("b").add_route("c");
    assert_eq!("http://h/a/b/c", ub.build());
}

#[test]
fn empty_route_segment_still_gets_slash() {
    let mut ub = URLBuilder::new();
    ub.set_protocol("http").set_host("h").add_route("");
    assert_eq!("http://h/", ub.build());
}

#[test]
fn query_starts_with_mark_and_ends_with_ampersand() {
    let mut ub = URLBuilder::new();
    ub.set_protocol("http").set_host("h").add_param("k", "v");
    let url = ub.build();
    assert_eq!("http://h?k=v&", url);
    assert!(url.contains("?"));
    assert!(url.ends_with("&"));
}

#[test]
fn params_keep_first_insertion_order() {
    let mut ub = URLBuilder::new();
    ub.set_protocol("http").set_host("h").add_param("a", "1").add_param("b", "2");
    assert_eq!("http://h?a=1&b=2&", ub.build());
}

#[test]
fn last_param_value_wins() {
    let mut ub = URLBuilder::new();
    ub.set_protocol("http").set_host("h").add_param("a", "1").add_param("a", "2");
    assert_eq!("http://h?a=2&", ub.build());
}

#[test]
fn overwritten_param_keeps_its_place() {
    let mut ub = URLBuilder::new();
    ub.set_protocol("http")
        .set_host("h")
        .add_param("a", "1")
        .add_param("b", "2")
        .add_param("a", "3");
    assert_eq!("http://h?a=3&b=2&", ub.build());
}

#[test]
fn everything_together() {
    let mut ub = URLBuilder::new();
    ub.set_protocol("http")
        .set_host("localhost")
        .set_port(8000)
        .add_route("query")
        .add_route("chains")
        .add_param("first", "1");
    assert_eq!("http://localhost:8000/query/chains?first=1&", ub.build());
}
