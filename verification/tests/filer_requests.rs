use rfs::{get_params_as_vec, path_segments, remove_last_path_url, Delete, FilerInfo, FilerUrl, Get, PostPut, QueryParams};

fn pairs(v: &[(String, String)]) -> Vec<(&str, &str)> {
    v.iter().map(|(k, v)| (k.as_str(), v.as_str())).collect()
}

#[test]
fn get_parameters() {
    let v = get_params_as_vec(Get::default().params);
    assert_eq!(
        pairs(&v),
        vec![
            ("lastFileName", ""),
            ("limit", "100"),
            ("metadata", "true"),
            ("namePattern", ""),
            ("namePatternExclude", ""),
            ("resolveManifest", ""),
        ]
    );
}

#[test]
fn post_put_and_delete_parameters() {
    let v = get_params_as_vec(PostPut::default().params);
    assert_eq!(v.len(), 11);
    assert_eq!(v[0].0, "collection");
    assert_eq!(v[10].0, "ttl");
    assert!(v.iter().all(|(_, value)| value.is_empty()));
    let d = get_params_as_vec(Delete::default().params);
    assert_eq!(pairs(&d), vec![("ignoreRecursiveError", ""), ("recursive", ""), ("skipChunkDeletion", "")]);
}

#[test]
fn empty_keys_are_left_out() {
    let params = QueryParams {
        pairs: vec![("".to_string(), "x".to_string()), ("k".to_string(), "v".to_string()), ("".to_string(), "".to_string())],
    };
    assert_eq!(pairs(&get_params_as_vec(params)), vec![("k", "v")]);
}

#[test]
fn get_request_of_a_filer() {
    let info = FilerInfo { url: FilerUrl::parse("http://localhost:8888/javascript/").ok().unwrap() };
    let r = info.get_request();
    assert_eq!(r.url, "http://localhost:8888/javascript/");
    assert_eq!(r.query.len(), 6);
    assert_eq!(pairs(&r.headers), vec![("Accept", "application/json")]);
}

#[test]
fn segments_of_paths() {
    let u = FilerUrl::parse("https://example.com/foo/bar").ok().unwrap();
    assert_eq!(path_segments(&u).unwrap(), vec!["foo", "bar"]);
    let u = FilerUrl::parse("https://example.com").ok().unwrap();
    assert_eq!(path_segments(&u).unwrap(), vec![""]);
    let u = FilerUrl::parse("data:text/plain,HelloWorld").ok().unwrap();
    assert!(path_segments(&u).is_none());
}

#[test]
fn last_path_is_removed() {
    let (up, last) = remove_last_path_url(FilerUrl::parse("http://h/a/b").ok().unwrap()).ok().unwrap();
    assert_eq!((up.as_str(), last.as_str()), ("http://h/a/", "b"));
    let (up, last) = remove_last_path_url(FilerUrl::parse("http://h/a/").ok().unwrap()).ok().unwrap();
    assert_eq!((up.as_str(), last.as_str()), ("http://h/a/", "/"));
    let (up, last) = remove_last_path_url(FilerUrl::parse("http://h").ok().unwrap()).ok().unwrap();
    assert_eq!((up.as_str(), last.as_str()), ("http://h/", "/"));
    let e = remove_last_path_url(FilerUrl::parse("mailto:x@y").ok().unwrap()).err().unwrap();
    assert_eq!(e.debug, "RelativeUrlWithCannotBeABaseBase");
}
