//! The parts of an HTTP request that the views read: the query parameters
//! and the body.

use vstd::prelude::*;
use crate::strings::{parse_i64, spec_parse_i64, split_on};

verus! {

/// Length of the part of `s` before its first `=`.
pub open spec fn key_len(s: Seq<char>) -> nat
    decreases s.len(),
{
    if s.len() == 0 || s[0] == '=' {
        0
    } else {
        1 + key_len(s.drop_first())
    }
}

/// One `key=value` piece of a query string: the key is what stands before the
/// first `=`, the value what follows it (empty where there is no `=`).
pub open spec fn query_pair(piece: Seq<char>) -> (Seq<char>, Seq<char>) {
    let k = key_len(piece);
    if k < piece.len() {
        (piece.take(k as int), piece.skip(k as int + 1))
    } else {
        (piece, Seq::<char>::empty())
    }
}

/// The pairs of a query string, in order; empty pieces are skipped.
pub open spec fn query_pairs(pieces: Seq<Seq<char>>) -> Seq<(Seq<char>, Seq<char>)>
    decreases pieces.len(),
{
    if pieces.len() == 0 {
        Seq::empty()
    } else {
        let front = query_pairs(pieces.drop_last());
        if pieces.last().len() == 0 {
            front
        } else {
            front.push(query_pair(pieces.last()))
        }
    }
}

/// The value that a list of pairs gives a key: that of its last pair with this
/// key, as a map that is filled in order keeps it.
pub open spec fn lookup(pairs: Seq<(Seq<char>, Seq<char>)>, key: Seq<char>) -> Option<Seq<char>>
    decreases pairs.len(),
{
    if pairs.len() == 0 {
        None
    } else if pairs.last().0 == key {
        Some(pairs.last().1)
    } else {
        lookup(pairs.drop_last(), key)
    }
}

/// The query parameters of a request, in the order the query string gives them.
pub struct QueryParams {
    pairs: Vec<(String, String)>,
}

impl View for QueryParams {
    type V = Seq<(Seq<char>, Seq<char>)>;

    closed spec fn view(&self) -> Seq<(Seq<char>, Seq<char>)> {
        self.pairs@.map_values(|p: (String, String)| (p.0@, p.1@))
    }
}

impl QueryParams {
    /// No parameters.
    pub fn new() -> (q: QueryParams)
        ensures
            q@ == Seq::<(Seq<char>, Seq<char>)>::empty(),
    {
        QueryParams { pairs: Vec::new() }
    }

    /// Adds a parameter; it takes the place of an earlier one with this key.
    pub fn insert(&mut self, key: String, value: String)
        ensures
            final(self)@ == old(self)@.push((key@, value@)),
    {
        self.pairs.push((key, value));
        assert(self@ =~= old(self)@.push((key@, value@)));
    }

    /// The value of the parameter `key`.
    pub fn get(&self, key: &str) -> (r: Option<&String>)
        ensures
            r matches Some(v) ==> lookup(self@, key@) == Some(v@),
            r is None ==> lookup(self@, key@) is None,
    {
        let mut i = self.pairs.len();
        assert(self@.take(i as int) =~= self@);
        while i > 0
            invariant
                i <= self.pairs@.len(),
                lookup(self@, key@) == lookup(self@.take(i as int), key@),
            decreases i,
        {
            let ghost pre = self@.take(i as int);
            assert(pre.drop_last() =~= self@.take(i - 1));
            assert(pre.last() == (self.pairs@[i - 1].0@, self.pairs@[i - 1].1@));
            if crate::strings::str_eq(self.pairs[i - 1].0.as_str(), key) {
                return Some(&self.pairs[i - 1].1);
            }
            i = i - 1;
        }
        None
    }

    /// The parameters of a query string (the text after `?`): the pieces
    /// between `&` that are not empty, each split at its first `=`.
    /// Percent-escapes and `+` are kept as they stand.
    pub fn parse(query: &str) -> (q: QueryParams)
        ensures
            q@ == query_pairs(split_on(query@, '&')),
    {
        let chars = crate::strings::chars_of(query);
        let pieces = crate::strings::split_chars(&chars, '&');
        let ghost pv = pieces@.map_values(|v: Vec<char>| v@);
        let mut q = QueryParams::new();
        let mut i: usize = 0;
        assert(pv.take(0) =~= Seq::<Seq<char>>::empty());
        while i < pieces.len()
            invariant
                i <= pieces@.len(),
                pv == pieces@.map_values(|v: Vec<char>| v@),
                q@ == query_pairs(pv.take(i as int)),
            decreases pieces@.len() - i,
        {
            let piece = &pieces[i];
            assert(pv.take(i + 1).drop_last() =~= pv.take(i as int));
            assert(pv.take(i + 1).last() == piece@);
            assert(piece@.subrange(0, piece@.len() as int) =~= piece@);
            push_piece(&mut q, piece, 0, piece.len());
            i = i + 1;
        }
        assert(pv.take(i as int) =~= pv);
        q
    }
}

/// Adds the pair of the piece `chars[start..end]` to `q`, unless it is empty.
fn push_piece(q: &mut QueryParams, chars: &Vec<char>, start: usize, end: usize)
    requires
        start <= end <= chars@.len(),
    ensures
        final(q)@ == (if start == end {
            old(q)@
        } else {
            old(q)@.push(query_pair(chars@.subrange(start as int, end as int)))
        }),
{
    if start == end {
        return;
    }
    let ghost piece = chars@.subrange(start as int, end as int);
    let mut k: usize = start;
    while k < end && chars[k] != '='
        invariant
            start <= k <= end,
            end <= chars@.len(),
            piece == chars@.subrange(start as int, end as int),
            key_len(piece) == (k - start) + key_len(chars@.subrange(k as int, end as int)),
        decreases end - k,
    {
        assert(chars@.subrange(k as int, end as int).drop_first() =~= chars@.subrange(k + 1, end as int));
        k = k + 1;
    }
    proof {
        if k < end {
            assert(chars@.subrange(k as int, end as int)[0] == chars@[k as int]);
        }
    }
    let key = collect(chars, start, k);
    let value = if k < end {
        collect(chars, k + 1, end)
    } else {
        String::new()
    };
    proof {
        if k < end {
            assert(piece.take(k - start) =~= chars@.subrange(start as int, k as int));
            assert(piece.skip(k - start + 1) =~= chars@.subrange(k + 1, end as int));
        } else {
            assert(chars@.subrange(start as int, k as int) =~= piece);
        }
    }
    q.insert(key, value);
}

/// The characters `chars[start..end]` as a `String`.
fn collect(chars: &Vec<char>, start: usize, end: usize) -> (s: String)
    requires
        start <= end <= chars@.len(),
    ensures
        s@ == chars@.subrange(start as int, end as int),
{
    let mut s = String::new();
    let mut i = start;
    while i < end
        invariant
            start <= i <= end <= chars@.len(),
            s@ == chars@.subrange(start as int, i as int),
        decreases end - i,
    {
        crate::strings::push_char(&mut s, chars[i]);
        assert(s@ =~= chars@.subrange(start as int, i + 1));
        i = i + 1;
    }
    s
}

/// What the views read of a request.
pub struct Request {
    pub query_params: QueryParams,
    pub body: Vec<u8>,
}

/// The integer value of query parameter `key`, or `default` where it is
/// missing or does not parse.
pub open spec fn spec_query_i64_default(params: Seq<(Seq<char>, Seq<char>)>, key: Seq<char>, default: i64) -> i64 {
    match lookup(params, key) {
        Some(v) => match spec_parse_i64(v) {
            Some(n) => n,
            None => default,
        },
        None => default,
    }
}

/// The integer value of query parameter `key`, 0 where it is missing or does
/// not parse.
pub fn query_i64(request: &Request, key: &str) -> (r: i64)
    ensures
        r == spec_query_i64_default(request.query_params@, key@, 0),
{
    query_i64_default(request, key, 0)
}

/// The integer value of query parameter `key`, `default` where it is missing
/// or does not parse.
pub fn query_i64_default(request: &Request, key: &str, default: i64) -> (r: i64)
    ensures
        r == spec_query_i64_default(request.query_params@, key@, default),
{
    match request.query_params.get(key) {
        Some(value) => match parse_i64(value.as_str()) {
            Some(n) => n,
            None => default,
        },
        None => default,
    }
}

/// Law: a piece `k=v` whose key holds no `=` gives the pair `(k, v)`, and a
/// piece without `=` gives itself as key and an empty value.
pub proof fn lemma_query_pair(k: Seq<char>, v: Seq<char>)
    requires
        forall|i: int| 0 <= i < k.len() ==> #[trigger] k[i] != '=',
    ensures
        query_pair(k + seq!['='] + v) == (k, v),
        k.len() > 0 ==> query_pair(k) == (k, Seq::<char>::empty()),
{
    lemma_key_len(k, seq!['='] + v);
    assert(k + seq!['='] + v =~= k + (seq!['='] + v));
    assert((seq!['='] + v)[0] == '=');
    let p = k + seq!['='] + v;
    assert(p.take(k.len() as int) =~= k);
    assert(p.skip(k.len() as int + 1) =~= v);
    lemma_key_len(k, Seq::<char>::empty());
    assert(k + Seq::<char>::empty() =~= k);
}

proof fn lemma_key_len(k: Seq<char>, rest: Seq<char>)
    requires
        forall|i: int| 0 <= i < k.len() ==> #[trigger] k[i] != '=',
    ensures
        key_len(k + rest) == k.len() + key_len(rest),
    decreases k.len(),
{
    if k.len() > 0 {
        assert((k + rest)[0] == k[0]);
        assert((k + rest).drop_first() =~= k.drop_first() + rest);
        assert forall|i: int| 0 <= i < k.drop_first().len() implies #[trigger] k.drop_first()[i] != '=' by {
            assert(k.drop_first()[i] == k[i + 1]);
        }
        lemma_key_len(k.drop_first(), rest);
    } else {
        assert(k + rest =~= rest);
    }
}

/// Law: the value of a key is that of its last pair, whatever pairs come
/// before it.
pub proof fn lemma_lookup_last(pairs: Seq<(Seq<char>, Seq<char>)>, key: Seq<char>, value: Seq<char>, other: Seq<char>)
    ensures
        lookup(pairs.push((key, value)), key) == Some(value),
        other != key ==> lookup(pairs.push((key, value)), other) == lookup(pairs, other),
        lookup(Seq::<(Seq<char>, Seq<char>)>::empty(), key) is None,
{
    assert(pairs.push((key, value)).drop_last() =~= pairs);
}

} // verus!
