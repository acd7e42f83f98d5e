//! Credentials carried in a request as `key=value` pieces: segments of the
//! path, or parameters of the query string.
use vstd::prelude::*;

verus! {

/// The pieces of `s` between occurrences of `sep`, in order; an empty
/// string is one empty piece.
pub open spec fn pieces(s: Seq<char>, sep: char) -> Seq<Seq<char>>
    decreases s.len(),
{
    if s.len() == 0 {
        seq![Seq::empty()]
    } else if s.last() == sep {
        pieces(s.drop_last(), sep).push(Seq::empty())
    } else {
        let p = pieces(s.drop_last(), sep);
        p.drop_last().push(p.last().push(s.last()))
    }
}

/// Where the first `=` of a segment stands, if it has one.
pub open spec fn eq_position(p: Seq<char>) -> Option<nat>
    decreases p.len(),
{
    if p.len() == 0 {
        None
    } else if p[0] == '=' {
        Some(0)
    } else {
        match eq_position(p.drop_first()) {
            Some(k) => Some(k + 1),
            None => None,
        }
    }
}

/// A segment split at its first `=` into key and value.
pub open spec fn pair_of(p: Seq<char>) -> Option<(Seq<char>, Seq<char>)> {
    match eq_position(p) {
        Some(k) => Some((p.subrange(0, k as int), p.subrange(k as int + 1, p.len() as int))),
        None => None,
    }
}

/// The key/value pairs of the segments that hold a `=`, in order.
pub open spec fn pairs(ps: Seq<Seq<char>>) -> Seq<(Seq<char>, Seq<char>)>
    decreases ps.len(),
{
    if ps.len() == 0 {
        Seq::empty()
    } else {
        match pair_of(ps.last()) {
            Some(kv) => pairs(ps.drop_last()).push(kv),
            None => pairs(ps.drop_last()),
        }
    }
}

pub open spec fn pairs_view(v: Seq<(String, String)>) -> Seq<(Seq<char>, Seq<char>)> {
    v.map_values(|kv: (String, String)| (kv.0@, kv.1@))
}

/// The value of the last pair whose key is `key`: a later segment overrides
/// an earlier one with the same key.
pub open spec fn last_value(ps: Seq<(Seq<char>, Seq<char>)>, key: Seq<char>) -> Option<Seq<char>>
    decreases ps.len(),
{
    if ps.len() == 0 {
        None
    } else if ps.last().0 == key {
        Some(ps.last().1)
    } else {
        last_value(ps.drop_last(), key)
    }
}

proof fn lemma_pieces_nonempty(s: Seq<char>, sep: char)
    ensures
        pieces(s, sep).len() >= 1,
    decreases s.len(),
{
    if s.len() > 0 {
        lemma_pieces_nonempty(s.drop_last(), sep);
    }
}

proof fn lemma_eq_position(p: Seq<char>, i: int)
    requires
        0 <= i <= p.len(),
        forall|j: int| 0 <= j < i ==> p[j] != '=',
    ensures
        i < p.len() && p[i] == '=' ==> eq_position(p) == Some(i as nat),
        i == p.len() ==> eq_position(p) is None,
    decreases i,
{
    if i > 0 {
        lemma_eq_position(p.drop_first(), i - 1);
    }
}

/// The segment `s[start..end)` split at its first `=` (searched for from
/// `start`), as owned strings.
fn piece_pair(s: &str, start: usize, end: usize) -> (r: Option<(String, String)>)
    requires
        start <= end <= s@.len(),
    ensures
        match r {
            Some(kv) => pair_of(s@.subrange(start as int, end as int)) == Some((kv.0@, kv.1@)),
            None => pair_of(s@.subrange(start as int, end as int)) is None,
        },
{
    let ghost p = s@.subrange(start as int, end as int);
    let mut k: usize = start;
    while k < end
        invariant
            start <= k <= end <= s@.len(),
            p == s@.subrange(start as int, end as int),
            forall|j: int| 0 <= j < k - start ==> p[j] != '=',
        decreases end - k,
    {
        if s.get_char(k) == '=' {
            proof {
                lemma_eq_position(p, k - start);
                assert(p.subrange(0, k - start) =~= s@.subrange(start as int, k as int));
                assert(p.subrange(k - start + 1, p.len() as int) =~= s@.subrange(k + 1, end as int));
            }
            let key = String::from_str(s.substring_char(start, k));
            let value = String::from_str(s.substring_char(k + 1, end));
            return Some((key, value));
        }
        k = k + 1;
    }
    proof {
        lemma_eq_position(p, k - start);
    }
    None
}

/// Reads the `key=value` pieces of `path` between occurrences of `sep`. A
/// piece without `=` is skipped; a piece is split at its first `=`.
fn parse_pairs(path: &str, sep: char) -> (r: Vec<(String, String)>)
    ensures
        pairs_view(r@) == pairs(pieces(path@, sep)),
{
    let n: usize = path.unicode_len();
    let mut out: Vec<(String, String)> = Vec::new();
    let mut start: usize = 0;
    let mut i: usize = 0;
    proof {
        assert(path@.subrange(0, 0) =~= Seq::<char>::empty());
        assert(pairs_view(out@) =~= Seq::empty());
    }
    while i < n
        invariant
            n == path@.len(),
            start <= i <= n,
            ({
                let ps = pieces(path@.subrange(0, i as int), sep);
                &&& ps.len() >= 1
                &&& ps.last() == path@.subrange(start as int, i as int)
                &&& pairs_view(out@) == pairs(ps.drop_last())
            }),
        decreases n - i,
    {
        let ghost before = path@.subrange(0, i as int);
        let ghost after = path@.subrange(0, i + 1);
        proof {
            assert(after.drop_last() =~= before);
            lemma_pieces_nonempty(before, sep);
        }
        let c = path.get_char(i);
        if c == sep {
            let kv = piece_pair(path, start, i);
            proof {
                let ps = pieces(after, sep);
                assert(ps.drop_last() =~= pieces(before, sep));
                assert(pieces(before, sep).drop_last().push(pieces(before, sep).last()) =~= pieces(before, sep));
            }
            match kv {
                Some(kv) => {
                    let ghost old_out = out@;
                    out.push(kv);
                    assert(pairs_view(out@) =~= pairs_view(old_out).push((kv.0@, kv.1@)));
                },
                None => {},
            }
            start = i + 1;
            assert(path@.subrange(start as int, i + 1) =~= Seq::<char>::empty());
        } else {
            proof {
                let ps = pieces(after, sep);
                assert(ps.drop_last() =~= pieces(before, sep).drop_last());
                assert(path@.subrange(start as int, i + 1) =~= path@.subrange(start as int, i as int).push(c));
            }
        }
        i = i + 1;
    }
    let last = piece_pair(path, start, n);
    proof {
        assert(path@.subrange(0, n as int) =~= path@);
        lemma_pieces_nonempty(path@, sep);
        assert(pieces(path@, sep).drop_last().push(pieces(path@, sep).last()) =~= pieces(path@, sep));
    }
    match last {
        Some(kv) => {
            let ghost old_out = out@;
            out.push(kv);
            assert(pairs_view(out@) =~= pairs_view(old_out).push((kv.0@, kv.1@)));
        },
        None => {},
    }
    out
}

/// Reads the `key=value` segments of a request path. A segment without `=`
/// is skipped; a segment is split at its first `=`.
pub fn parse_uri_path(path: &str) -> (r: Vec<(String, String)>)
    ensures
        pairs_view(r@) == pairs(pieces(path@, '/')),
{
    parse_pairs(path, '/')
}

/// Reads the `key=value` parameters of a query string, split at `&`.
pub fn parse_query(query: &str) -> (r: Vec<(String, String)>)
    ensures
        pairs_view(r@) == pairs(pieces(query@, '&')),
{
    parse_pairs(query, '&')
}

/// The value that `key` has among `params`, the last one where it occurs
/// more than once.
pub fn find_param(params: &Vec<(String, String)>, key: &str) -> (r: Option<String>)
    ensures
        match r {
            Some(v) => last_value(pairs_view(params@), key@) == Some(v@),
            None => last_value(pairs_view(params@), key@) is None,
        },
{
    let wanted = String::from_str(key);
    let mut i: usize = params.len();
    assert(params@.subrange(0, i as int) =~= params@);
    while i > 0
        invariant
            i <= params@.len(),
            wanted@ == key@,
            last_value(pairs_view(params@), key@) == last_value(pairs_view(params@.subrange(0, i as int)), key@),
        decreases i,
    {
        let ghost sub = params@.subrange(0, i as int);
        proof {
            assert(pairs_view(sub).drop_last() =~= pairs_view(params@.subrange(0, i - 1)));
        }
        if params[i - 1].0 == wanted {
            return Some(params[i - 1].1.clone());
        }
        i = i - 1;
    }
    None
}

pub open spec fn password_key() -> Seq<char> {
    seq!['p', 'a', 's', 's', 'w', 'o', 'r', 'd']
}

/// The credential of a request: the `password` segment of its path, else
/// the `password` parameter of its query string.
pub open spec fn credential_of(path: Seq<char>, query: Seq<char>) -> Option<Seq<char>> {
    match last_value(pairs(pieces(path, '/')), password_key()) {
        Some(v) => Some(v),
        None => last_value(pairs(pieces(query, '&')), password_key()),
    }
}

/// The credential that a request carries, in a `password=` segment of its
/// path or, failing that, in a `password=` parameter of its query string.
pub fn credential_from_request(path: &str, query: &str) -> (r: Option<String>)
    ensures
        match r {
            Some(v) => credential_of(path@, query@) == Some(v@),
            None => credential_of(path@, query@) is None,
        },
{
    let key = "password";
    proof {
        reveal_strlit("password");
        assert(key@ =~= password_key());
    }
    match find_param(&parse_uri_path(path), key) {
        Some(v) => Some(v),
        None => find_param(&parse_query(query), key),
    }
}

} // verus!
