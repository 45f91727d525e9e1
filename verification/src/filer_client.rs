use vstd::prelude::*;
use vstd::string::*;

use crate::errors::FilerParseError;
use crate::filer_url::{
    clone_url, debug_str, has_host, parse_url, str_debug, url_has_host, url_parse, FilerUrl,
};
use crate::paths::{split_on, split_str, strings_view};

verus! {

/// Message for a filer address that has no scheme or no host.
pub open spec fn missing_host_message() -> Seq<char> {
    "missing filer scheme or host address, rerun with -h|--help to see proper format"@
}

/// Message for a filer address that the url crate cannot parse.
pub open spec fn parse_failure_message(filer: Seq<char>, error: Seq<char>) -> Seq<char> {
    "parsing "@ + str_debug(filer) + ": "@ + error
}

/// The URL that one comma-separated piece of the filer list gives, or the error message.
pub open spec fn check_filer(piece: Seq<char>) -> Result<Seq<char>, Seq<char>> {
    match url_parse(piece) {
        Ok(u) => if url_has_host(u) {
            Ok(u)
        } else {
            Err(missing_host_message())
        },
        Err(e) => Err(parse_failure_message(piece, e)),
    }
}

/// The URLs of all pieces in order, or the message of the first piece that fails.
pub open spec fn check_filers(pieces: Seq<Seq<char>>) -> Result<Seq<Seq<char>>, Seq<char>>
    decreases pieces.len(),
{
    if pieces.len() == 0 {
        Ok(Seq::empty())
    } else {
        match check_filers(pieces.drop_last()) {
            Err(m) => Err(m),
            Ok(urls) => match check_filer(pieces.last()) {
                Err(m) => Err(m),
                Ok(u) => Ok(urls.push(u)),
            },
        }
    }
}

/// The filers that a comma-separated list names, or the message of the first bad one.
pub open spec fn parse_filer_list(filers: Seq<char>) -> Result<Seq<Seq<char>>, Seq<char>> {
    check_filers(split_on(filers, ','))
}

proof fn lemma_check_filers_error_stays(pieces: Seq<Seq<char>>, i: int)
    requires
        0 <= i <= pieces.len(),
        check_filers(pieces.take(i)) is Err,
    ensures
        check_filers(pieces) == check_filers(pieces.take(i)),
    decreases pieces.len() - i,
{
    if i < pieces.len() {
        assert(pieces.take(i + 1).drop_last() =~= pieces.take(i));
        lemma_check_filers_error_stays(pieces, i + 1);
    } else {
        assert(pieces.take(i) =~= pieces);
    }
}

/// The index that follows `i` in a round over `n` filers.
pub open spec fn next_index(i: nat, n: nat) -> nat {
    if i + 1 == n {
        0
    } else {
        i + 1
    }
}

/// The index after `k` steps of the round, starting at `i`.
pub open spec fn index_after(i: nat, n: nat, k: nat) -> nat
    decreases k,
{
    if k == 0 {
        i
    } else {
        next_index(index_after(i, n, (k - 1) as nat), n)
    }
}

/// The filers of a SeaweedFS cluster, visited in turn for HTTP requests.
pub struct FilerClient {
    filer_urls: Vec<FilerUrl>,
    filer_url_index: usize,
}

impl FilerClient {
    /// The filer URLs, each by its serialization.
    pub closed spec fn urls(&self) -> Seq<Seq<char>> {
        self.filer_urls@.map_values(|u: FilerUrl| u@)
    }

    /// The index of the filer that the next request goes to.
    pub closed spec fn index(&self) -> nat {
        self.filer_url_index as nat
    }

    #[verifier::type_invariant]
    spec fn wf(&self) -> bool {
        0 <= self.filer_url_index < self.filer_urls.len()
    }

    /// The client for a comma-separated list of filer URLs, each of which must
    /// parse and name a host; otherwise the error for the first one that does not.
    pub fn new(filers: String) -> (r: Result<FilerClient, FilerParseError>)
        ensures
            match parse_filer_list(filers@) {
                Ok(urls) => r matches Ok(c) && c.urls() == urls && c.index() == 0,
                Err(m) => r matches Err(e) && e.details@ == m,
            },
    {
        let pieces = split_str(filers.as_str(), ',');
        let ghost pv = strings_view(pieces@);
        let n = pieces.len();
        let mut filer_urls: Vec<FilerUrl> = Vec::new();
        assert(pv.take(0) =~= Seq::<Seq<char>>::empty());
        assert(filer_urls@.map_values(|u: FilerUrl| u@) =~= Seq::<Seq<char>>::empty());
        let mut i: usize = 0;
        while i < n
            invariant
                n == pieces.len(),
                pv == strings_view(pieces@),
                pv == split_on(filers@, ','),
                i <= n,
                filer_urls.len() == i,
                check_filers(pv.take(i as int)) == Ok::<Seq<Seq<char>>, Seq<char>>(
                    filer_urls@.map_values(|u: FilerUrl| u@),
                ),
            decreases n - i,
        {
            let filer_str = pieces[i].as_str();
            assert(pv.take(i + 1).drop_last() =~= pv.take(i as int));
            assert(pv.take(i + 1).last() == filer_str@);
            match parse_url(filer_str) {
                Ok(url) => {
                    if !has_host(&url) {
                        proof {
                            lemma_check_filers_error_stays(pv, i + 1);
                        }
                        return Err(
                            FilerParseError::new(
                                "missing filer scheme or host address, rerun with -h|--help to see proper format",
                            ),
                        );
                    }
                    let ghost before = filer_urls@.map_values(|u: FilerUrl| u@);
                    filer_urls.push(url);
                    assert(filer_urls@.map_values(|u: FilerUrl| u@) =~= before.push(
                        filer_urls@[i as int]@,
                    ));
                },
                Err(e) => {
                    let mut msg = String::from_str("parsing ");
                    msg.append(debug_str(filer_str).as_str());
                    msg.append(": ");
                    msg.append(e.debug.as_str());
                    proof {
                        lemma_check_filers_error_stays(pv, i + 1);
                    }
                    return Err(FilerParseError::new(msg.as_str()));
                },
            }
            i = i + 1;
        }
        assert(pv.take(n as int) =~= pv);
        proof {
            crate::paths::lemma_split_nonempty(filers@, ',');
        }
        Ok(FilerClient { filer_urls, filer_url_index: 0 })
    }

    /// The filer URLs.
    pub fn filer_urls(&self) -> (v: &Vec<FilerUrl>)
        ensures
            v@.map_values(|u: FilerUrl| u@) == self.urls(),
    {
        &self.filer_urls
    }

    /// The filer for the next HTTP request, the filers taken in turn: the one
    /// at the current index; the index then moves to the next filer, after the
    /// last back to the first.
    pub fn get_next_http_filer(&mut self) -> (url: FilerUrl)
        ensures
            final(self).urls() == old(self).urls(),
            old(self).index() < old(self).urls().len(),
            url@ == old(self).urls()[old(self).index() as int],
            final(self).index() == next_index(old(self).index(), old(self).urls().len()),
    {
        proof {
            use_type_invariant(&*self);
        }
        let index = self.filer_url_index;
        let url = clone_url(&self.filer_urls[index]);
        if index != self.filer_urls.len() - 1 {
            self.filer_url_index = index + 1;
        } else {
            self.filer_url_index = 0;
        }
        url
    }

    /// The gRPC endpoints of the filers: the filer URLs as they were given,
    /// in order, since the listed filers are named by their gRPC port.
    pub fn grpc_endpoints(&self) -> (v: Vec<FilerUrl>)
        ensures
            v@.map_values(|u: FilerUrl| u@) == self.urls(),
    {
        let n = self.filer_urls.len();
        let mut endpoints: Vec<FilerUrl> = Vec::new();
        let mut i: usize = 0;
        while i < n
            invariant
                n == self.filer_urls.len(),
                i <= n,
                self.urls() == self.filer_urls@.map_values(|u: FilerUrl| u@),
                endpoints@.map_values(|u: FilerUrl| u@) == self.urls().take(i as int),
            decreases n - i,
        {
            let e = clone_url(&self.filer_urls[i]);
            let ghost before = endpoints@.map_values(|u: FilerUrl| u@);
            endpoints.push(e);
            assert(endpoints@.map_values(|u: FilerUrl| u@) =~= before.push(e@));
            assert(self.urls().take(i + 1) =~= self.urls().take(i as int).push(e@));
            i = i + 1;
        }
        assert(self.urls().take(n as int) =~= self.urls());
        endpoints
    }
}


proof fn lemma_check_filers_shape(pieces: Seq<Seq<char>>)
    ensures
        check_filers(pieces) matches Ok(urls) ==> urls.len() == pieces.len() && forall|i: int|
            0 <= i < urls.len() ==> #[trigger] url_has_host(urls[i]),
    decreases pieces.len(),
{
    if pieces.len() > 0 {
        lemma_check_filers_shape(pieces.drop_last());
    }
}

/// A filer list that is accepted gives one URL per comma-separated piece,
/// at least one, and every one of them names a host.
pub proof fn lemma_accepted_filers_have_hosts(filers: Seq<char>)
    ensures
        parse_filer_list(filers) matches Ok(urls) ==> urls.len() == split_on(filers, ',').len()
            && urls.len() >= 1 && forall|i: int|
            0 <= i < urls.len() ==> #[trigger] url_has_host(urls[i]),
{
    lemma_check_filers_shape(split_on(filers, ','));
    crate::paths::lemma_split_nonempty(filers, ',');
}

/// Round robin: starting at index `i` of `n` filers, `k` calls of
/// `get_next_http_filer` leave the index at `(i + k) % n`, so the filer of
/// the `k`-th call is the one at `(i + k) % n`, and after `n` calls every
/// filer has been chosen once and the index is back at `i`.
pub proof fn lemma_round_robin(i: nat, n: nat, k: nat)
    requires
        i < n,
    ensures
        index_after(i, n, k) == ((i + k) as int) % (n as int),
        index_after(i, n, n) == i,
{
    lemma_index_after(i, n, k);
    lemma_round_robin_full(i, n);
}

proof fn lemma_round_robin_full(i: nat, n: nat)
    requires
        i < n,
    ensures
        index_after(i, n, n) == i,
{
    lemma_index_after(i, n, n);
    vstd::arithmetic::div_mod::lemma_fundamental_div_mod_converse_mod((i + n) as int, n as int, 1, i as int);
}

proof fn lemma_index_after(i: nat, n: nat, k: nat)
    requires
        i < n,
    ensures
        index_after(i, n, k) == ((i + k) as int) % (n as int),
    decreases k,
{
    let ni = n as int;
    if k == 0 {
        vstd::arithmetic::div_mod::lemma_fundamental_div_mod_converse_mod(i as int, ni, 0, i as int);
    } else {
        lemma_index_after(i, n, (k - 1) as nat);
        let x = (i + k - 1) as int;
        let prev = index_after(i, n, (k - 1) as nat);
        vstd::arithmetic::div_mod::lemma_fundamental_div_mod(x, ni);
        vstd::arithmetic::div_mod::lemma_mod_bound(x, ni);
        let q = x / ni;
        assert(x == q * ni + prev) by (nonlinear_arith)
            requires
                x == ni * (x / ni) + x % ni,
                prev == x % ni,
                q == x / ni,
        ;
        if prev + 1 == n {
            assert(x + 1 == (q + 1) * ni + 0) by (nonlinear_arith)
                requires
                    x == q * ni + prev,
                    prev + 1 == ni,
            ;
            vstd::arithmetic::div_mod::lemma_fundamental_div_mod_converse_mod(x + 1, ni, q + 1, 0);
        } else {
            vstd::arithmetic::div_mod::lemma_fundamental_div_mod_converse_mod(x + 1, ni, q, prev + 1int);
        }
    }
}


/// Whether the url crate parses a piece into a URL with a host.
pub open spec fn piece_accepted(piece: Seq<char>) -> bool {
    url_parse(piece) matches Ok(u) && url_has_host(u)
}

/// The serialization of a piece the url crate parses.
pub open spec fn piece_url(piece: Seq<char>) -> Seq<char> {
    match url_parse(piece) {
        Ok(u) => u,
        Err(_) => piece,
    }
}

proof fn lemma_check_filers_accepts(pieces: Seq<Seq<char>>)
    ensures
        (forall|i: int| 0 <= i < pieces.len() ==> piece_accepted(#[trigger] pieces[i]))
            ==> check_filers(pieces) == Ok::<Seq<Seq<char>>, Seq<char>>(
            pieces.map_values(|p: Seq<char>| piece_url(p)),
        ),
        (exists|i: int| 0 <= i < pieces.len() && !piece_accepted(#[trigger] pieces[i]))
            ==> check_filers(pieces) is Err,
    decreases pieces.len(),
{
    if pieces.len() == 0 {
        assert(pieces.map_values(|p: Seq<char>| piece_url(p)) =~= Seq::<Seq<char>>::empty());
    } else {
        let init = pieces.drop_last();
        lemma_check_filers_accepts(init);
        if forall|i: int| 0 <= i < pieces.len() ==> piece_accepted(#[trigger] pieces[i]) {
            assert forall|i: int| 0 <= i < init.len() implies piece_accepted(#[trigger] init[i]) by {
                assert(init[i] == pieces[i]);
            }
            assert(piece_accepted(pieces[pieces.len() - 1]));
            assert(pieces.map_values(|p: Seq<char>| piece_url(p)) =~= init.map_values(
                |p: Seq<char>| piece_url(p),
            ).push(piece_url(pieces.last())));
        }
        if exists|i: int| 0 <= i < pieces.len() && !piece_accepted(#[trigger] pieces[i]) {
            let i = choose|i: int| 0 <= i < pieces.len() && !piece_accepted(#[trigger] pieces[i]);
            if i < pieces.len() - 1 {
                assert(init[i] == pieces[i]);
            }
        }
    }
}

/// A filer list is accepted exactly when the url crate parses every
/// comma-separated piece into a URL with a host; then the client holds those
/// URLs, one per piece and in order. A piece is refused only for a parse
/// failure or a missing host.
pub proof fn lemma_filer_list_accepted_iff_every_piece_has_host(filers: Seq<char>)
    ensures
        (forall|i: int|
            0 <= i < split_on(filers, ',').len() ==> piece_accepted(
                #[trigger] split_on(filers, ',')[i],
            )) ==> parse_filer_list(filers) == Ok::<Seq<Seq<char>>, Seq<char>>(
            split_on(filers, ',').map_values(|p: Seq<char>| piece_url(p)),
        ),
        (exists|i: int|
            0 <= i < split_on(filers, ',').len() && !piece_accepted(
                #[trigger] split_on(filers, ',')[i],
            )) ==> parse_filer_list(filers) is Err,
{
    lemma_check_filers_accepts(split_on(filers, ','));
}


/// A refused filer list is answered with the message of its first bad piece:
/// the missing-host message when that piece parses without a host, and
/// "parsing " with the quoted piece and the url crate's error otherwise.
pub proof fn lemma_filer_list_refused_for_first_bad_piece(filers: Seq<char>, k: int)
    requires
        0 <= k < split_on(filers, ',').len(),
        !piece_accepted(split_on(filers, ',')[k]),
        forall|i: int| 0 <= i < k ==> piece_accepted(#[trigger] split_on(filers, ',')[i]),
    ensures
        ({
            let piece = split_on(filers, ',')[k];
            parse_filer_list(filers) == match url_parse(piece) {
                Ok(_) => Err::<Seq<Seq<char>>, Seq<char>>(missing_host_message()),
                Err(e) => Err::<Seq<Seq<char>>, Seq<char>>(
                    "parsing "@ + str_debug(piece) + ": "@ + e,
                ),
            }
        }),
{
    let pieces = split_on(filers, ',');
    let pre = pieces.take(k);
    assert forall|i: int| 0 <= i < pre.len() implies piece_accepted(#[trigger] pre[i]) by {
        assert(pre[i] == pieces[i]);
    }
    lemma_check_filers_accepts(pre);
    assert(pieces.take(k + 1).drop_last() =~= pre);
    assert(pieces.take(k + 1).last() == pieces[k]);
    lemma_check_filers_error_stays(pieces, k + 1);
}

} // verus!
