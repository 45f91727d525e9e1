use vstd::prelude::*;
use vstd::string::*;

use crate::filer_url::{join_url, path, url_join, url_path, FilerUrl, UrlError};
use crate::paths::{split_on, split_str, strings_view};

verus! {

/// Query parameters of a filer request, in the order in which the filer
/// client sends them (that of their keys).
pub struct QueryParams {
    pub pairs: Vec<(String, String)>,
}

/// Key-value pairs, their strings taken by their characters.
pub open spec fn pairs_view(v: Seq<(String, String)>) -> Seq<(Seq<char>, Seq<char>)> {
    v.map_values(|p: (String, String)| (p.0@, p.1@))
}

impl View for QueryParams {
    type V = Seq<(Seq<char>, Seq<char>)>;

    open spec fn view(&self) -> Seq<(Seq<char>, Seq<char>)> {
        pairs_view(self.pairs@)
    }
}

fn pair(key: &str, value: &str) -> (p: (String, String))
    ensures
        p.0@ == key@,
        p.1@ == value@,
{
    (String::from_str(key), String::from_str(value))
}

/// The parameters of a GET: file metadata on, at most 100 entries listed, the rest empty.
pub open spec fn get_default_params() -> Seq<(Seq<char>, Seq<char>)> {
    seq![
        ("lastFileName"@, ""@),
        ("limit"@, "100"@),
        ("metadata"@, "true"@),
        ("namePattern"@, ""@),
        ("namePatternExclude"@, ""@),
        ("resolveManifest"@, ""@),
    ]
}

/// The parameters of a POST or PUT, all empty.
pub open spec fn post_put_default_params() -> Seq<(Seq<char>, Seq<char>)> {
    seq![
        ("collection"@, ""@),
        ("dataCenter"@, ""@),
        ("dataNode"@, ""@),
        ("fsync"@, ""@),
        ("maxMB"@, ""@),
        ("mode"@, ""@),
        ("op"@, ""@),
        ("rack"@, ""@),
        ("replication"@, ""@),
        ("skipCheckParentDir"@, ""@),
        ("ttl"@, ""@),
    ]
}

/// The parameters of a DELETE, all empty.
pub open spec fn delete_default_params() -> Seq<(Seq<char>, Seq<char>)> {
    seq![("ignoreRecursiveError"@, ""@), ("recursive"@, ""@), ("skipChunkDeletion"@, ""@)]
}

/// Parameters of a filer GET.
pub struct Get {
    pub params: QueryParams,
}

/// Parameters of a filer POST or PUT.
pub struct PostPut {
    pub params: QueryParams,
}

/// Parameters of a filer DELETE.
pub struct Delete {
    pub params: QueryParams,
}

impl Default for Get {
    fn default() -> (g: Get)
        ensures
            g.params@ == get_default_params(),
    {
        let mut pairs: Vec<(String, String)> = Vec::new();
        pairs.push(pair("lastFileName", ""));
        pairs.push(pair("limit", "100"));
        pairs.push(pair("metadata", "true"));
        pairs.push(pair("namePattern", ""));
        pairs.push(pair("namePatternExclude", ""));
        pairs.push(pair("resolveManifest", ""));
        let g = Get { params: QueryParams { pairs } };
        assert(g.params@ =~= get_default_params());
        g
    }
}

impl Default for PostPut {
    fn default() -> (p: PostPut)
        ensures
            p.params@ == post_put_default_params(),
    {
        let mut pairs: Vec<(String, String)> = Vec::new();
        pairs.push(pair("collection", ""));
        pairs.push(pair("dataCenter", ""));
        pairs.push(pair("dataNode", ""));
        pairs.push(pair("fsync", ""));
        pairs.push(pair("maxMB", ""));
        pairs.push(pair("mode", ""));
        pairs.push(pair("op", ""));
        pairs.push(pair("rack", ""));
        pairs.push(pair("replication", ""));
        pairs.push(pair("skipCheckParentDir", ""));
        pairs.push(pair("ttl", ""));
        let p = PostPut { params: QueryParams { pairs } };
        assert(p.params@ =~= post_put_default_params());
        p
    }
}

impl Default for Delete {
    fn default() -> (d: Delete)
        ensures
            d.params@ == delete_default_params(),
    {
        let mut pairs: Vec<(String, String)> = Vec::new();
        pairs.push(pair("ignoreRecursiveError", ""));
        pairs.push(pair("recursive", ""));
        pairs.push(pair("skipChunkDeletion", ""));
        let d = Delete { params: QueryParams { pairs } };
        assert(d.params@ =~= delete_default_params());
        d
    }
}

/// The pairs whose key is not empty, in order.
pub open spec fn non_empty_key_pairs(s: Seq<(Seq<char>, Seq<char>)>) -> Seq<(Seq<char>, Seq<char>)>
    decreases s.len(),
{
    if s.len() == 0 {
        s
    } else if s.last().0.len() == 0 {
        non_empty_key_pairs(s.drop_last())
    } else {
        non_empty_key_pairs(s.drop_last()).push(s.last())
    }
}

/// The parameters as a list of key-value pairs, leaving out those with an empty key.
pub fn get_params_as_vec(params: QueryParams) -> (v: Vec<(String, String)>)
    ensures
        pairs_view(v@) == non_empty_key_pairs(params@),
{
    let mut vec: Vec<(String, String)> = Vec::new();
    let n = params.pairs.len();
    let ghost pv = params@;
    assert(pv.take(0) =~= Seq::<(Seq<char>, Seq<char>)>::empty());
    assert(pairs_view(vec@) =~= Seq::<(Seq<char>, Seq<char>)>::empty());
    for i in 0..n
        invariant
            n == params.pairs.len(),
            pv == params@,
            pairs_view(vec@) == non_empty_key_pairs(pv.take(i as int)),
    {
        let key = &params.pairs[i].0;
        let value = &params.pairs[i].1;
        assert(pv.take(i + 1).drop_last() =~= pv.take(i as int));
        assert(pv.take(i + 1).last() == (key@, value@));
        if !key.as_str().is_empty() {
            let ghost before = pairs_view(vec@);
            vec.push((key.clone(), value.clone()));
            assert(pairs_view(vec@) =~= before.push((key@, value@)));
        }
    }
    assert(pv.take(n as int) =~= pv);
    vec
}

/// A GET of the filer as the filer client sends it.
pub struct FilerGetRequest {
    pub url: String,
    pub query: Vec<(String, String)>,
    pub headers: Vec<(String, String)>,
}

/// A filer to send HTTP requests to.
pub struct FilerInfo {
    pub url: FilerUrl,
}

impl FilerInfo {
    /// The GET that lists or reads `self.url`: the default GET parameters
    /// with a non-empty key, asking for JSON.
    pub fn get_request(&self) -> (r: FilerGetRequest)
        ensures
            r.url@ == self.url@,
            pairs_view(r.query@) == non_empty_key_pairs(get_default_params()),
            pairs_view(r.headers@) == seq![("Accept"@, "application/json"@)],
    {
        let params = Get::default().params;
        let params_vec = get_params_as_vec(params);
        let mut headers: Vec<(String, String)> = Vec::new();
        headers.push(pair("Accept", "application/json"));
        assert(pairs_view(headers@) =~= seq![("Accept"@, "application/json"@)]);
        FilerGetRequest { url: String::from_str(self.url.as_str()), query: params_vec, headers }
    }
}

/// The segments of a URL path as `Url::path_segments` gives them: the path
/// after its leading slash, split at each slash; `None` for a path without
/// a leading slash (a cannot-be-a-base URL).
pub open spec fn path_segments_of(p: Seq<char>) -> Option<Seq<Seq<char>>> {
    if p.len() > 0 && p[0] == '/' {
        Some(split_on(p.drop_first(), '/'))
    } else {
        None
    }
}

/// The path segments of a URL.
pub fn path_segments(url: &FilerUrl) -> (segs: Option<Vec<String>>)
    ensures
        match path_segments_of(url_path(url@)) {
            Some(s) => segs matches Some(v) && strings_view(v@) == s,
            None => segs is None,
        },
{
    let p = path(url);
    let n = p.as_str().unicode_len();
    if n > 0 && p.as_str().get_char(0) == '/' {
        let rest = p.as_str().substring_char(1, n);
        assert(rest@ =~= p@.drop_first());
        Some(split_str(rest, '/'))
    } else {
        None
    }
}

/// The last path segment of a URL, "/" standing for an empty or missing one.
pub open spec fn last_path_segment(url: Seq<char>) -> Seq<char> {
    let last = match path_segments_of(url_path(url)) {
        Some(s) => s.last(),
        None => Seq::empty(),
    };
    if last.len() == 0 {
        "/"@
    } else {
        last
    }
}

/// The URL one level up (joined with "./") together with the last path
/// segment ("/" when it is empty), or the url crate's error for the join.
pub fn remove_last_path_url(url: FilerUrl) -> (r: Result<(FilerUrl, String), UrlError>)
    ensures
        match url_join(url@, "./"@) {
            Ok(t) => r matches Ok(p) && p.0@ == t && p.1@ == last_path_segment(url@),
            Err(m) => r matches Err(e) && e.debug@ == m,
        },
{
    let mut path_segments = match path_segments(&url) {
        Some(segments) => segments,
        None => Vec::new(),
    };
    proof {
        if let Some(s) = path_segments_of(url_path(url@)) {
            crate::paths::lemma_split_nonempty(url_path(url@).drop_first(), '/');
        }
    }
    let mut last_path = match path_segments.pop() {
        Some(last_path) => last_path,
        None => String::new(),
    };
    let new_url = match join_url(&url, "./") {
        Ok(url) => url,
        Err(e) => return Err(e),
    };
    if last_path.as_str().is_empty() {
        last_path = String::from_str("/");
    }
    Ok((new_url, last_path))
}

proof fn lemma_no_empty_key_keeps_all(s: Seq<(Seq<char>, Seq<char>)>)
    requires
        forall|i: int| 0 <= i < s.len() ==> (#[trigger] s[i]).0.len() > 0,
    ensures
        non_empty_key_pairs(s) == s,
    decreases s.len(),
{
    if s.len() > 0 {
        lemma_no_empty_key_keeps_all(s.drop_last());
        assert(s.drop_last().push(s.last()) =~= s);
    }
}

/// No default parameter has an empty key, so every one of them is sent.
pub proof fn lemma_default_params_all_sent()
    ensures
        non_empty_key_pairs(get_default_params()) == get_default_params(),
        non_empty_key_pairs(post_put_default_params()) == post_put_default_params(),
        non_empty_key_pairs(delete_default_params()) == delete_default_params(),
{
    reveal_strlit("lastFileName");
    reveal_strlit("limit");
    reveal_strlit("metadata");
    reveal_strlit("namePattern");
    reveal_strlit("namePatternExclude");
    reveal_strlit("resolveManifest");
    lemma_no_empty_key_keeps_all(get_default_params());
    reveal_strlit("collection");
    reveal_strlit("dataCenter");
    reveal_strlit("dataNode");
    reveal_strlit("fsync");
    reveal_strlit("maxMB");
    reveal_strlit("mode");
    reveal_strlit("op");
    reveal_strlit("rack");
    reveal_strlit("replication");
    reveal_strlit("skipCheckParentDir");
    reveal_strlit("ttl");
    lemma_no_empty_key_keeps_all(post_put_default_params());
    reveal_strlit("ignoreRecursiveError");
    reveal_strlit("recursive");
    reveal_strlit("skipChunkDeletion");
    lemma_no_empty_key_keeps_all(delete_default_params());
}


/// The segment split off a URL is its last path component: when the path
/// starts with a slash and does not end with one, the segment is non-empty,
/// holds no slash, ends the path and follows a slash there; otherwise it is "/".
pub proof fn lemma_last_path_segment_is_last_component(url: Seq<char>)
    ensures
        ({
            let p = url_path(url);
            let seg = last_path_segment(url);
            (p.len() > 0 && p[0] == '/' && p.last() != '/') ==> {
                &&& seg.len() > 0
                &&& forall|j: int| 0 <= j < seg.len() ==> seg[j] != '/'
                &&& p.skip(p.len() - seg.len()) == seg
                &&& p[p.len() - seg.len() - 1] == '/'
            }
        }),
        ({
            let p = url_path(url);
            (p.len() == 0 || p[0] != '/' || p.last() == '/') ==> last_path_segment(url) == "/"@
        }),
{
    let p = url_path(url);
    if p.len() > 0 && p[0] == '/' {
        let q = p.drop_first();
        crate::paths::lemma_last_index_of_bounds(q, '/');
        let i = crate::paths::last_index_of(q, '/');
        let seg = q.skip(i + 1);
        assert(split_on(q, '/').last() == seg) by {
            if i < 0 {
                assert(split_on(q, '/') == seq![q]);
                assert(q.skip(0) =~= q);
            }
        }
        if p.last() != '/' {
            assert(q.len() > 0 ==> q.last() == p.last());
            if q.len() > 0 {
                assert(q[q.len() - 1] != '/');
            }
            assert(seg.len() > 0);
            assert forall|j: int| 0 <= j < seg.len() implies seg[j] != '/' by {
                assert(seg[j] == q[i + 1 + j]);
            }
            assert(p.skip(p.len() - seg.len()) =~= seg);
            if i >= 0 {
                assert(p[i + 1] == q[i]);
            }
        } else {
            if q.len() > 0 {
                assert(q.last() == '/');
                assert(seg.len() == 0);
            } else {
                assert(seg.len() == 0);
            }
        }
    }
}

} // verus!
