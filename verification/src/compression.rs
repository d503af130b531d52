//! The response compression that a request negotiates with its
//! `Accept-Encoding` header.

use vstd::prelude::*;

verus! {

/// How a response is compressed.
#[derive(Clone, Copy, Debug, PartialEq, Eq, Structural)]
pub enum Compression {
    Brotli,
    Gzip,
    Identity,
}

/// A byte that a header value may hold as text (`HeaderValue::to_str`):
/// visible ASCII or a tab.
pub open spec fn is_visible_ascii(b: u8) -> bool {
    (32 <= b && b < 127) || b == 9
}

pub open spec fn ascii_lower(b: u8) -> u8 {
    if 65 <= b && b <= 90 {
        (b + 32) as u8
    } else {
        b
    }
}

/// The header value as lower-case text: its bytes with ASCII letters
/// lowered, or nothing where it is missing or not text.
pub open spec fn accept_text(value: Option<Seq<u8>>) -> Seq<u8> {
    match value {
        Some(v) => if forall|i: int| 0 <= i < v.len() ==> is_visible_ascii(#[trigger] v[i]) {
            v.map_values(|b: u8| ascii_lower(b))
        } else {
            Seq::empty()
        },
        None => Seq::empty(),
    }
}

/// Whether `needle` occurs in `hay`.
pub open spec fn contains_bytes(hay: Seq<u8>, needle: Seq<u8>) -> bool {
    exists|i: int| 0 <= i && i + needle.len() <= hay.len() && #[trigger] hay.subrange(i, i + needle.len()) == needle
}

/// Brotli where the header mentions `br`, else gzip where it mentions
/// `gzip`, else none.
pub open spec fn spec_compression(accept_encoding: Option<Seq<u8>>) -> Compression {
    let text = accept_text(accept_encoding);
    if contains_bytes(text, seq![98u8, 114u8]) {
        Compression::Brotli
    } else if contains_bytes(text, seq![103u8, 122u8, 105u8, 112u8]) {
        Compression::Gzip
    } else {
        Compression::Identity
    }
}

fn find_bytes(hay: &Vec<u8>, needle: &[u8]) -> (r: bool)
    ensures
        r == contains_bytes(hay@, needle@),
{
    let n = hay.len();
    let m = needle.len();
    if m > n {
        assert forall|i: int| 0 <= i && i + m <= n implies #[trigger] hay@.subrange(i, i + m) != needle@ by {}
        return false;
    }
    let mut i: usize = 0;
    while i <= n - m
        invariant
            n == hay@.len(),
            m == needle@.len(),
            m <= n,
            i <= n - m + 1,
            forall|k: int| 0 <= k < i ==> #[trigger] hay@.subrange(k, k + m) != needle@,
        decreases n - i,
    {
        let mut j: usize = 0;
        while j < m && hay[i + j] == needle[j]
            invariant
                j <= m,
                i + m <= n,
                n == hay@.len(),
                m == needle@.len(),
                forall|k: int| 0 <= k < j ==> hay@[i + k] == needle@[k],
            decreases m - j,
        {
            j = j + 1;
        }
        if j == m {
            assert(hay@.subrange(i as int, i + m) =~= needle@);
            return true;
        }
        assert(hay@.subrange(i as int, i + m)[j as int] != needle@[j as int]);
        i = i + 1;
    }
    assert forall|k: int| 0 <= k && k + m <= n implies #[trigger] hay@.subrange(k, k + m) != needle@ by {
        assert(k < i);
    }
    false
}

/// The compression for a request whose `Accept-Encoding` header holds
/// `accept_encoding`.
pub fn negotiate_compression(accept_encoding: Option<&[u8]>) -> (r: Compression)
    ensures
        r == spec_compression(match accept_encoding {
            Some(v) => Some(v@),
            None => None,
        }),
{
    let ghost value = match accept_encoding {
        Some(v) => Some(v@),
        None => None::<Seq<u8>>,
    };
    let mut text: Vec<u8> = Vec::new();
    match accept_encoding {
        Some(v) => {
            let mut i: usize = 0;
            let mut visible = true;
            while i < v.len()
                invariant
                    i <= v@.len(),
                    visible ==> text@ == v@.take(i as int).map_values(|b: u8| ascii_lower(b)),
                    visible == (forall|k: int| 0 <= k < i ==> is_visible_ascii(#[trigger] v@[k])),
                decreases v@.len() - i,
            {
                let b = v[i];
                if !((32 <= b && b < 127) || b == 9) {
                    visible = false;
                }
                let lower = if 65 <= b && b <= 90 { b + 32 } else { b };
                text.push(lower);
                assert(v@.take(i + 1).map_values(|b: u8| ascii_lower(b)) =~= v@.take(i as int).map_values(
                    |b: u8| ascii_lower(b),
                ).push(ascii_lower(b)));
                i = i + 1;
            }
            assert(v@.take(i as int) =~= v@);
            if !visible {
                text = Vec::new();
            }
        },
        None => {},
    }
    assert(text@ =~= accept_text(value));
    let br: [u8; 2] = [98u8, 114u8];
    let gzip: [u8; 4] = [103u8, 122u8, 105u8, 112u8];
    assert(br@ =~= seq![98u8, 114u8]);
    assert(gzip@ =~= seq![103u8, 122u8, 105u8, 112u8]);
    if find_bytes(&text, &br) {
        Compression::Brotli
    } else if find_bytes(&text, &gzip) {
        Compression::Gzip
    } else {
        Compression::Identity
    }
}

/// Law: `needle` occurs in any text that holds it between two parts.
pub proof fn lemma_contains_infix(a: Seq<u8>, needle: Seq<u8>, b: Seq<u8>)
    ensures
        contains_bytes(a + needle + b, needle),
{
    let hay = a + needle + b;
    assert(hay.subrange(a.len() as int, a.len() + needle.len() as int) =~= needle);
}

/// Law: what the negotiation reads of a header value that is text: the
/// value with each ASCII capital letter replaced by its small letter and
/// every other byte kept; a missing value or one that is not text reads as
/// nothing.
pub proof fn lemma_accept_text(value: Option<Seq<u8>>)
    ensures
        value is None ==> accept_text(value).len() == 0,
        value matches Some(v) ==> {
            if forall|i: int| 0 <= i < v.len() ==> (32 <= #[trigger] v[i] < 127 || v[i] == 9) {
                &&& accept_text(value).len() == v.len()
                &&& forall|i: int|
                    0 <= i < v.len() ==> #[trigger] accept_text(value)[i] == (if 65 <= v[i] <= 90 {
                        v[i] + 32
                    } else {
                        v[i] as int
                    })
            } else {
                accept_text(value).len() == 0
            }
        },
{
}

/// Law: a header whose text mentions `br` anywhere negotiates brotli; one
/// that mentions `gzip` anywhere and not `br` negotiates gzip; one that
/// mentions neither negotiates no compression.
pub proof fn lemma_compression_choice(value: Option<Seq<u8>>)
    ensures
        contains_bytes(accept_text(value), seq![98u8, 114u8]) ==> spec_compression(value) == Compression::Brotli,
        contains_bytes(accept_text(value), seq![103u8, 122u8, 105u8, 112u8]) && !contains_bytes(
            accept_text(value),
            seq![98u8, 114u8],
        ) ==> spec_compression(value) == Compression::Gzip,
        !contains_bytes(accept_text(value), seq![103u8, 122u8, 105u8, 112u8]) && !contains_bytes(
            accept_text(value),
            seq![98u8, 114u8],
        ) ==> spec_compression(value) == Compression::Identity,
{
}

/// The bytes of `gzip`.
pub open spec fn gzip_token() -> Seq<u8> {
    seq![103u8, 122u8, 105u8, 112u8]
}

/// Law: a text header value that holds `gzip` after and before anything
/// without `br` or `BR` in it negotiates gzip (so "gzip, deflate" does).
pub proof fn lemma_gzip_in_list(a: Seq<u8>, b: Seq<u8>)
    requires
        forall|i: int| 0 <= i < (a + gzip_token() + b).len() ==> is_visible_ascii(
            #[trigger] (a + gzip_token() + b)[i],
        ),
        !contains_bytes(accept_text(Some(a + gzip_token() + b)), seq![98u8, 114u8]),
    ensures
        spec_compression(Some(a + gzip_token() + b)) == Compression::Gzip,
{
    let g = gzip_token();
    let v = a + g + b;
    let t = accept_text(Some(v));
    assert(t =~= v.map_values(|x: u8| ascii_lower(x)));
    assert(t.subrange(a.len() as int, a.len() as int + 4) =~= g) by {
        assert forall|k: int| 0 <= k < 4 implies t.subrange(a.len() as int, a.len() as int + 4)[k] == g[k] by {
            assert(v[a.len() + k] == g[k]);
        }
    }
    lemma_compression_choice(Some(v));
}

} // verus!
