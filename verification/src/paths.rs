use vstd::prelude::*;
use vstd::string::*;

verus! {

/// `p` with one trailing `/` removed, unless `p` is that slash alone.
pub open spec fn strip_trailing_slash(p: Seq<char>) -> Seq<char> {
    if p.len() > 1 && p.last() == '/' {
        p.drop_last()
    } else {
        p
    }
}

/// How many times `c` occurs in `s`.
pub open spec fn count_char(s: Seq<char>, c: char) -> nat
    decreases s.len(),
{
    if s.len() == 0 {
        0
    } else {
        count_char(s.drop_last(), c) + if s.last() == c {
            1nat
        } else {
            0nat
        }
    }
}

/// The index of the last `c` in `s`, or -1 when `s` holds none.
pub open spec fn last_index_of(s: Seq<char>, c: char) -> int
    decreases s.len(),
{
    if s.len() == 0 {
        -1
    } else if s.last() == c {
        s.len() - 1
    } else {
        last_index_of(s.drop_last(), c)
    }
}

pub proof fn lemma_last_index_of_bounds(s: Seq<char>, c: char)
    ensures
        -1 <= last_index_of(s, c) < s.len(),
        last_index_of(s, c) >= 0 ==> s[last_index_of(s, c)] == c,
        forall|j: int| last_index_of(s, c) < j < s.len() ==> s[j] != c,
        last_index_of(s, c) == -1 <==> count_char(s, c) == 0,
    decreases s.len(),
{
    if s.len() > 0 {
        lemma_last_index_of_bounds(s.drop_last(), c);
        assert forall|j: int| last_index_of(s, c) < j < s.len() implies s[j] != c by {
            if j < s.len() - 1 {
                assert(s[j] == s.drop_last()[j]);
            }
        }
    }
}

/// The pieces of `s` between occurrences of `c`, as `str::split` yields them.
pub open spec fn split_on(s: Seq<char>, c: char) -> Seq<Seq<char>>
    decreases s.len(),
{
    let i = last_index_of(s, c);
    if i < 0 {
        seq![s]
    } else {
        proof {
            lemma_last_index_of_bounds(s, c);
        }
        split_on(s.take(i), c).push(s.skip(i + 1))
    }
}

/// The last component of a filer path, trailing slash ignored.
pub open spec fn path_file_name(p: Seq<char>) -> Seq<char> {
    let q = strip_trailing_slash(p);
    q.skip(last_index_of(q, '/') + 1)
}

/// The directory that holds a filer path: the path without its last
/// component; a path with a single slash has the part up to that slash.
pub open spec fn path_parent(p: Seq<char>) -> Seq<char> {
    let q = strip_trailing_slash(p);
    let i = last_index_of(q, '/');
    if i < 0 {
        q
    } else if count_char(q, '/') == 1 {
        q.take(i + 1)
    } else if i != q.len() - 1 {
        q.take(i)
    } else {
        q
    }
}

/// How deep a filer path lies: the number of slashes, trailing slash ignored.
pub open spec fn path_depth(p: Seq<char>) -> nat {
    count_char(strip_trailing_slash(p), '/')
}

proof fn lemma_count_step(s: Seq<char>, j: int, c: char)
    requires
        0 <= j < s.len(),
    ensures
        s.take(j + 1).drop_last() == s.take(j),
        s.take(j + 1).last() == s[j],
{
    assert(s.take(j + 1).drop_last() =~= s.take(j));
}

/// Counts the slashes of `q` and finds the last one.
fn scan_slashes(q: &str) -> (r: (usize, Option<usize>))
    ensures
        r.0 == count_char(q@, '/'),
        match r.1 {
            Some(i) => i == last_index_of(q@, '/'),
            None => last_index_of(q@, '/') == -1,
        },
{
    let n = q.unicode_len();
    let mut count: usize = 0;
    let mut last: Option<usize> = None;
    let mut j: usize = 0;
    while j < n
        invariant
            n == q@.len(),
            j <= n,
            count == count_char(q@.take(j as int), '/'),
            count <= j,
            match last {
                Some(i) => i == last_index_of(q@.take(j as int), '/'),
                None => last_index_of(q@.take(j as int), '/') == -1,
            },
        decreases n - j,
    {
        proof {
            lemma_count_step(q@, j as int, '/');
        }
        let ch = q.get_char(j);
        if ch == '/' {
            count = count + 1;
            last = Some(j);
        }
        j = j + 1;
    }
    assert(q@.take(n as int) =~= q@);
    (count, last)
}

/// `s` with one trailing slash removed, unless `s` is that slash alone.
fn strip_slash(s: &str) -> (r: &str)
    ensures
        r@ == strip_trailing_slash(s@),
{
    let n = s.unicode_len();
    if n > 1 && s.get_char(n - 1) == '/' {
        s.substring_char(0, n - 1)
    } else {
        s.substring_char(0, n)
    }
}

/// Number of parent directories above the last component of a filer path.
pub fn calc_parent_num_from_path(full_path: String) -> (n: u64)
    ensures
        n == path_depth(full_path@),
{
    let q = strip_slash(full_path.as_str());
    let (count, _) = scan_slashes(q);
    count as u64
}

/// The last component of a filer path.
pub fn calc_file_name_from_path(full_path: String) -> (name: String)
    ensures
        name@ == path_file_name(full_path@),
{
    let q = strip_slash(full_path.as_str());
    let n = q.unicode_len();
    let (_, last) = scan_slashes(q);
    proof {
        lemma_last_index_of_bounds(q@, '/');
    }
    let start = match last {
        Some(i) => i + 1,
        None => 0,
    };
    String::from_str(q.substring_char(start, n))
}

/// The directory that holds a filer path.
pub fn calc_parent_from_path(full_path: String) -> (parent: String)
    ensures
        parent@ == path_parent(full_path@),
{
    let q = strip_slash(full_path.as_str());
    let n = q.unicode_len();
    let (count, last) = scan_slashes(q);
    proof {
        lemma_last_index_of_bounds(q@, '/');
    }
    match last {
        None => String::from_str(q),
        Some(i) => {
            if count == 1 {
                String::from_str(q.substring_char(0, i + 1))
            } else if i != n - 1 {
                String::from_str(q.substring_char(0, i))
            } else {
                String::from_str(q)
            }
        },
    }
}

proof fn lemma_count_concat(a: Seq<char>, b: Seq<char>, c: char)
    ensures
        count_char(a + b, c) == count_char(a, c) + count_char(b, c),
    decreases b.len(),
{
    if b.len() == 0 {
        assert(a + b =~= a);
    } else {
        lemma_count_concat(a, b.drop_last(), c);
        assert((a + b).drop_last() =~= a + b.drop_last());
    }
}

/// A trailing slash changes nothing: for a nonempty path `p` that does not
/// already end with `/`, the file name, the parent and the depth of `p + "/"`
/// are those of `p`.
pub proof fn lemma_trailing_slash_ignored(p: Seq<char>)
    requires
        p.len() > 0,
        p.last() != '/',
    ensures
        path_file_name(p.push('/')) == path_file_name(p),
        path_parent(p.push('/')) == path_parent(p),
        path_depth(p.push('/')) == path_depth(p),
{
    assert(p.push('/').drop_last() =~= p);
}

/// The file name of a path never holds a slash.
pub proof fn lemma_file_name_has_no_slash(p: Seq<char>)
    ensures
        forall|j: int| 0 <= j < path_file_name(p).len() ==> path_file_name(p)[j] != '/',
{
    let q = strip_trailing_slash(p);
    lemma_last_index_of_bounds(q, '/');
    let i = last_index_of(q, '/');
    assert forall|j: int| 0 <= j < path_file_name(p).len() implies path_file_name(p)[j] != '/' by {
        assert(path_file_name(p)[j] == q[i + 1 + j]);
    }
}

/// Parent and file name put back together give the path (trailing slash
/// removed): directly when the path holds a single slash, with a slash
/// between them when it holds more and does not end with one. The parent
/// then holds one slash fewer than the path.
pub proof fn lemma_parent_and_file_name_rebuild_path(p: Seq<char>)
    ensures
        count_char(strip_trailing_slash(p), '/') == 1 ==> path_parent(p) + path_file_name(p)
            == strip_trailing_slash(p),
        count_char(strip_trailing_slash(p), '/') >= 2 && strip_trailing_slash(p).last() != '/'
            ==> path_parent(p) + seq!['/'] + path_file_name(p) == strip_trailing_slash(p)
            && count_char(path_parent(p), '/') + 1 == path_depth(p),
{
    let q = strip_trailing_slash(p);
    lemma_last_index_of_bounds(q, '/');
    let i = last_index_of(q, '/');
    if count_char(q, '/') == 1 {
        assert(q.take(i + 1) + q.skip(i + 1) =~= q);
    }
    if count_char(q, '/') >= 2 && q.last() != '/' {
        assert(q.take(i) + seq!['/'] + q.skip(i + 1) =~= q);
        let rest = q.skip(i);
        lemma_count_concat(q.take(i), rest, '/');
        assert(q.take(i) + rest =~= q);
        lemma_count_concat(seq![rest[0]], rest.skip(1), '/');
        assert(seq![rest[0]] + rest.skip(1) =~= rest);
        lemma_last_index_of_bounds(rest.skip(1), '/');
        assert forall|j: int| 0 <= j < rest.skip(1).len() implies rest.skip(1)[j] != '/' by {
            assert(rest.skip(1)[j] == q[i + 1 + j]);
        }
        lemma_no_char_count_zero(rest.skip(1), '/');
        assert(seq![rest[0]].drop_last() =~= Seq::<char>::empty());
        assert(rest[0] == '/');
        assert(count_char(seq![rest[0]].drop_last(), '/') == 0);
        assert(seq![rest[0]].last() == '/');
        assert(count_char(seq![rest[0]], '/') == 1);
        assert(count_char(q, '/') == count_char(q.take(i), '/') + 1);
        assert(i != q.len() - 1);
        assert(path_parent(p) == q.take(i));
        assert(path_file_name(p) == q.skip(i + 1));
    }
}

proof fn lemma_no_char_count_zero(s: Seq<char>, c: char)
    requires
        forall|j: int| 0 <= j < s.len() ==> s[j] != c,
    ensures
        count_char(s, c) == 0,
    decreases s.len(),
{
    if s.len() > 0 {
        lemma_no_char_count_zero(s.drop_last(), c);
    }
}

proof fn lemma_split_push_other(t: Seq<char>, x: char, c: char)
    requires
        x != c,
    ensures
        split_on(t.push(x), c) == split_on(t, c).drop_last().push(split_on(t, c).last().push(x)),
{
    let s = t.push(x);
    assert(s.drop_last() =~= t);
    let i = last_index_of(t, c);
    assert(last_index_of(s, c) == i);
    lemma_last_index_of_bounds(t, c);
    if i >= 0 {
        assert(s.take(i) =~= t.take(i));
        assert(s.skip(i + 1) =~= t.skip(i + 1).push(x));
        assert(split_on(t, c).drop_last() =~= split_on(t.take(i), c));
    } else {
        assert(split_on(t, c) =~= seq![t]);
        assert(split_on(s, c) =~= seq![s]);
        assert(split_on(t, c).drop_last().push(split_on(t, c).last().push(x)) =~= seq![s]);
    }
}

proof fn lemma_split_push_separator(t: Seq<char>, c: char)
    ensures
        split_on(t.push(c), c) == split_on(t, c).push(Seq::<char>::empty()),
{
    let s = t.push(c);
    assert(last_index_of(s, c) == t.len());
    assert(s.take(t.len() as int) =~= t);
    assert(s.skip(t.len() as int + 1) =~= Seq::<char>::empty());
}

/// The characters of each string of a list.
pub open spec fn strings_view(v: Seq<String>) -> Seq<Seq<char>> {
    v.map_values(|x: String| x@)
}

/// The pieces of `s` between occurrences of `c`, as `str::split` yields them.
pub fn split_str(s: &str, c: char) -> (pieces: Vec<String>)
    ensures
        strings_view(pieces@) == split_on(s@, c),
{
    let n = s.unicode_len();
    let mut done: Vec<String> = Vec::new();
    let mut start: usize = 0;
    let mut j: usize = 0;
    assert(s@.take(0) =~= Seq::<char>::empty());
    assert(strings_view(done@).push(s@.subrange(0, 0)) =~= split_on(s@.take(0), c));
    while j < n
        invariant
            n == s@.len(),
            start <= j <= n,
            strings_view(done@).push(s@.subrange(start as int, j as int)) == split_on(
                s@.take(j as int),
                c,
            ),
        decreases n - j,
    {
        let ch = s.get_char(j);
        assert(s@.take(j + 1) =~= s@.take(j as int).push(ch));
        if ch == c {
            proof {
                lemma_split_push_separator(s@.take(j as int), c);
            }
            let piece = String::from_str(s.substring_char(start, j));
            let ghost before = strings_view(done@);
            done.push(piece);
            assert(strings_view(done@) =~= before.push(s@.subrange(start as int, j as int)));
            start = j + 1;
            assert(s@.subrange(start as int, j + 1) =~= Seq::<char>::empty());
            assert(strings_view(done@).push(s@.subrange(start as int, j + 1)) =~= split_on(
                s@.take(j + 1),
                c,
            ));
        } else {
            proof {
                lemma_split_push_other(s@.take(j as int), ch, c);
                assert(s@.subrange(start as int, j + 1) =~= s@.subrange(start as int, j as int).push(ch));
            }
            assert(strings_view(done@).push(s@.subrange(start as int, j + 1)) =~= split_on(
                s@.take(j + 1),
                c,
            ));
        }
        j = j + 1;
    }
    let last = String::from_str(s.substring_char(start, n));
    let ghost before = strings_view(done@);
    done.push(last);
    assert(strings_view(done@) =~= before.push(s@.subrange(start as int, n as int)));
    assert(s@.take(n as int) =~= s@);
    assert(strings_view(done@) =~= split_on(s@, c));
    done
}

pub(crate) proof fn lemma_split_nonempty(s: Seq<char>, c: char)
    ensures
        split_on(s, c).len() >= 1,
    decreases s.len(),
{
    let i = last_index_of(s, c);
    if i >= 0 {
        lemma_last_index_of_bounds(s, c);
        lemma_split_nonempty(s.take(i), c);
    }
}

} // verus!
