use rfs::FilerClient;

#[test]
fn filer_list_parses_in_order() {
    let c = FilerClient::new("http://localhost:8888,http://filer2:9999/".to_string()).ok().unwrap();
    let urls: Vec<String> = c.filer_urls().iter().map(|u| u.as_str().to_string()).collect();
    assert_eq!(urls, vec!["http://localhost:8888/", "http://filer2:9999/"]);
}

#[test]
fn filers_are_taken_in_turn() {
    let mut c = FilerClient::new("http://a:1,http://b:2,http://c:3".to_string()).ok().unwrap();
    let picked: Vec<String> = (0..7).map(|_| c.get_next_http_filer().as_str().to_string()).collect();
    assert_eq!(
        picked,
        vec!["http://a:1/", "http://b:2/", "http://c:3/", "http://a:1/", "http://b:2/", "http://c:3/", "http://a:1/"]
    );
}

#[test]
fn single_filer_is_always_taken() {
    let mut c = FilerClient::new("http://only:8888".to_string()).ok().unwrap();
    for _ in 0..3 {
        assert_eq!(c.get_next_http_filer().as_str(), "http://only:8888/");
    }
}

#[test]
fn filer_without_host_is_refused() {
    let e = FilerClient::new("http://a:1,localhost:8888".to_string()).err().unwrap();
    assert_eq!(
        e.details,
        "missing filer scheme or host address, rerun with -h|--help to see proper format"
    );
}

#[test]
fn unparsable_filer_is_refused_with_its_text() {
    let e = FilerClient::new("http://a:1,".to_string()).err().unwrap();
    assert_eq!(e.details, "parsing \"\": RelativeUrlWithoutBase");
    let e = FilerClient::new("http://a:99999".to_string()).err().unwrap();
    assert_eq!(e.details, "parsing \"http://a:99999\": InvalidPort");
    let e = FilerClient::new("".to_string()).err().unwrap();
    assert_eq!(e.to_string(), "parsing \"\": RelativeUrlWithoutBase");
}

#[test]
fn grpc_endpoints_are_the_filers_as_written() {
    let c = FilerClient::new("http://a:8888,http://b,https://c:18888,http://d:65535".to_string()).ok().unwrap();
    let e: Vec<String> = c.grpc_endpoints().iter().map(|u| u.as_str().to_string()).collect();
    assert_eq!(e, vec!["http://a:8888/", "http://b/", "https://c:18888/", "http://d:65535/"]);
}
