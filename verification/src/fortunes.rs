//! The fortunes page: the stored fortunes plus one added at request time,
//! ordered by message, rendered as an HTML table.

use vstd::prelude::*;
use vstd::utf8::encode_utf8;
use vstd::string::StringExecFns;
use vstd::string::StringSliceAdditionalSpecFns;
use crate::html::{escape_html, escape_html_into};
use crate::strings::{decimal_text, format_i64};

verus! {

/// One fortune of the reference dataset.
pub struct Fortune {
    pub id: i64,
    pub message: String,
}

/// Lexicographic order of byte strings (`Ord` for `[u8]`): a proper prefix
/// comes first.
pub open spec fn bytes_le(a: Seq<u8>, b: Seq<u8>) -> bool
    decreases a.len(),
{
    if a.len() == 0 {
        true
    } else if b.len() == 0 {
        false
    } else if a[0] < b[0] {
        true
    } else if a[0] > b[0] {
        false
    } else {
        bytes_le(a.drop_first(), b.drop_first())
    }
}

/// The sort key of a fortune: the UTF-8 bytes of its message.
pub open spec fn message_key(f: Fortune) -> Seq<u8> {
    encode_utf8(f.message@)
}

pub open spec fn fortune_le(a: Fortune, b: Fortune) -> bool {
    bytes_le(message_key(a), message_key(b))
}

/// `x` put into `s` after every element from the back that is not greater than it.
pub open spec fn insert_stable(s: Seq<Fortune>, x: Fortune) -> Seq<Fortune>
    decreases s.len(),
{
    if s.len() == 0 {
        seq![x]
    } else if fortune_le(s.last(), x) {
        s.push(x)
    } else {
        insert_stable(s.drop_last(), x).push(s.last())
    }
}

/// The stable sort of fortunes by message bytes (what `sort_by` with that
/// comparison gives): fortunes with equal messages keep their order.
pub open spec fn sort_fortunes(s: Seq<Fortune>) -> Seq<Fortune>
    decreases s.len(),
{
    if s.len() == 0 {
        Seq::empty()
    } else {
        insert_stable(sort_fortunes(s.drop_last()), s.last())
    }
}

/// Whether `a` comes before or with `b` in byte order.
pub fn bytes_less_or_equal(a: &[u8], b: &[u8]) -> (r: bool)
    ensures
        r == bytes_le(a@, b@),
{
    let mut i: usize = 0;
    assert(a@.skip(0) =~= a@);
    assert(b@.skip(0) =~= b@);
    while i < a.len()
        invariant
            i <= a@.len(),
            i <= b@.len() || i == 0,
            forall|k: int| 0 <= k < i ==> a@[k] == b@[k],
            bytes_le(a@, b@) == bytes_le(a@.skip(i as int), b@.skip(i as int)),
        decreases a@.len() - i,
    {
        if i >= b.len() {
            return false;
        }
        assert(a@.skip(i as int).drop_first() =~= a@.skip(i + 1));
        assert(b@.skip(i as int).drop_first() =~= b@.skip(i + 1));
        assert(a@.skip(i as int)[0] == a@[i as int]);
        assert(b@.skip(i as int)[0] == b@[i as int]);
        if a[i] < b[i] {
            return true;
        }
        if a[i] > b[i] {
            return false;
        }
        i = i + 1;
    }
    true
}

fn fortune_less_or_equal(a: &Fortune, b: &Fortune) -> (r: bool)
    ensures
        r == fortune_le(*a, *b),
{
    bytes_less_or_equal(a.message.as_str().as_bytes(), b.message.as_str().as_bytes())
}

/// Inserts `x` into `v` as `insert_stable` does.
fn insert_fortune(v: &mut Vec<Fortune>, x: Fortune)
    ensures
        final(v)@ == insert_stable(old(v)@, x),
{
    let ghost s = v@;
    let mut j = v.len();
    assert(s.take(j as int) =~= s);
    assert(s.skip(j as int) =~= Seq::<Fortune>::empty());
    while j > 0 && !fortune_less_or_equal(&v[j - 1], &x)
        invariant
            j <= v@.len(),
            v@ == s,
            insert_stable(s, x) == insert_stable(s.take(j as int), x) + s.skip(j as int),
        decreases j,
    {
        let ghost t = s.take(j as int);
        assert(t.drop_last() =~= s.take(j - 1));
        assert(t.last() == s[j - 1]);
        assert(s.skip(j - 1) =~= seq![s[j - 1]] + s.skip(j as int));
        assert(insert_stable(s.take(j - 1), x).push(s[j - 1]) + s.skip(j as int) =~= insert_stable(
            s.take(j - 1),
            x,
        ) + s.skip(j - 1));
        j = j - 1;
    }
    proof {
        if j > 0 {
            let t = s.take(j as int);
            assert(t.last() == s[j - 1]);
        }
        assert(insert_stable(s.take(j as int), x) =~= s.take(j as int).push(x));
        assert(s.take(j as int).push(x) + s.skip(j as int) =~= s.insert(j as int, x));
    }
    v.insert(j, x);
}

/// Sorts fortunes by message bytes, keeping the order of equal messages.
pub fn sort_by_message(fortunes: Vec<Fortune>) -> (r: Vec<Fortune>)
    ensures
        r@ == sort_fortunes(fortunes@),
{
    let mut input = fortunes;
    let ghost s = input@;
    let mut out: Vec<Fortune> = Vec::new();
    let mut rest: Vec<Fortune> = Vec::new();
    // Take the fortunes out front to back.
    while input.len() > 0
        invariant
            rest@ + input@.reverse() == s.reverse(),
        decreases input@.len(),
    {
        let ghost before = input@;
        let f = input.pop().unwrap();
        rest.push(f);
        assert(before.reverse() =~= seq![f] + input@.reverse()) by {
            assert(before == input@.push(f));
        }
        assert(rest@ + input@.reverse() =~= s.reverse());
    }
    // `rest` now holds the fortunes back to front.
    assert(rest@ =~= s.reverse());
    let total = rest.len();
    assert(s.len() == total);
    let mut i: usize = 0;
    while rest.len() > 0
        invariant
            i <= s.len(),
            s.len() <= usize::MAX,
            rest@.len() == s.len() - i,
            forall|k: int| 0 <= k < rest@.len() ==> rest@[k] == s[s.len() - 1 - k],
            out@ == sort_fortunes(s.take(i as int)),
        decreases rest@.len(),
    {
        let ghost before = rest@;
        let f = rest.pop().unwrap();
        assert(f == before[before.len() - 1]);
        assert(f == s[i as int]);
        assert(s.take(i + 1).drop_last() =~= s.take(i as int));
        insert_fortune(&mut out, f);
        i = i + 1;
        assert forall|k: int| 0 <= k < rest@.len() implies rest@[k] == s[s.len() - 1 - k] by {
            assert(rest@[k] == before[k]);
        }
    }
    assert(s.take(i as int) =~= s);
    out
}

pub open spec fn page_head() -> Seq<char> {
    "<!DOCTYPE html><html><head><meta charset=\"utf-8\"><title>Fortunes</title>"@
        + "<style>body{font-family:system-ui;margin:2rem}table{border-collapse:collapse;width:100%}th,td{border:1px solid #bbb;padding:.45rem .7rem;text-align:left}tbody tr:nth-child(even){background:#f4f4f4}</style></head><body>"@
        + "<h1>Fortunes</h1><table><thead><tr><th>id</th><th>message</th></tr></thead><tbody>"@
}

pub open spec fn page_tail() -> Seq<char> {
    "</tbody></table></body></html>"@
}

/// One table row: the id in decimal and the escaped message.
pub open spec fn fortune_row(f: Fortune) -> Seq<char> {
    "<tr><td class=\"fortune-id\">"@ + decimal_text(f.id as int) + "</td><td class=\"fortune-message\">"@
        + escape_html(f.message@) + "</td></tr>"@
}

pub open spec fn fortune_rows(s: Seq<Fortune>) -> Seq<char>
    decreases s.len(),
{
    if s.len() == 0 {
        Seq::empty()
    } else {
        fortune_rows(s.drop_last()) + fortune_row(s.last())
    }
}

/// The page that lists `fortunes` in the given order.
pub open spec fn fortunes_page(fortunes: Seq<Fortune>) -> Seq<char> {
    page_head() + fortune_rows(fortunes) + page_tail()
}

/// The HTML page that lists `fortunes` in the given order.
pub fn render_fortunes(fortunes: &Vec<Fortune>) -> (html: String)
    ensures
        html@ == fortunes_page(fortunes@),
{
    let mut html = String::new();
    html.append("<!DOCTYPE html><html><head><meta charset=\"utf-8\"><title>Fortunes</title>");
    html.append("<style>body{font-family:system-ui;margin:2rem}table{border-collapse:collapse;width:100%}th,td{border:1px solid #bbb;padding:.45rem .7rem;text-align:left}tbody tr:nth-child(even){background:#f4f4f4}</style></head><body>");
    html.append("<h1>Fortunes</h1><table><thead><tr><th>id</th><th>message</th></tr></thead><tbody>");
    assert(html@ =~= page_head() + fortune_rows(fortunes@.take(0)));
    let mut i: usize = 0;
    while i < fortunes.len()
        invariant
            i <= fortunes@.len(),
            html@ == page_head() + fortune_rows(fortunes@.take(i as int)),
        decreases fortunes@.len() - i,
    {
        let fortune = &fortunes[i];
        let ghost before = html@;
        html.append("<tr><td class=\"fortune-id\">");
        let id_text = format_i64(fortune.id);
        html.append(id_text.as_str());
        html.append("</td><td class=\"fortune-message\">");
        escape_html_into(fortune.message.as_str(), &mut html);
        html.append("</td></tr>");
        assert(fortunes@.take(i + 1).drop_last() =~= fortunes@.take(i as int));
        assert(html@ =~= before + fortune_row(fortunes@[i as int]));
        i = i + 1;
    }
    html.append("</tbody></table></body></html>");
    assert(fortunes@.take(i as int) =~= fortunes@);
    html
}

/// The message of the fortune that every page adds to the stored ones.
pub open spec fn extra_message() -> Seq<char> {
    "Additional fortune added at request time."@
}

/// The fortunes page for the stored fortunes `stored`: they and one more
/// fortune (id 0, "Additional fortune added at request time."), stably sorted
/// by message bytes, rendered as a table.
pub fn fortunes_html(stored: Vec<Fortune>) -> (r: (Vec<Fortune>, String))
    ensures
        r.0@.len() == stored@.len() + 1,
        exists|extra: Fortune|
            extra.id == 0 && extra.message@ == extra_message() && r.0@ == sort_fortunes(
                stored@.push(extra),
            ),
        r.1@ == fortunes_page(r.0@),
{
    let mut all = stored;
    let ghost s = all@;
    let extra = Fortune { id: 0, message: "Additional fortune added at request time.".to_owned() };
    all.push(extra);
    let sorted = sort_by_message(all);
    proof {
        lemma_sort_len(s.push(extra));
    }
    let html = render_fortunes(&sorted);
    (sorted, html)
}

proof fn lemma_insert_len(s: Seq<Fortune>, x: Fortune)
    ensures
        insert_stable(s, x).len() == s.len() + 1,
    decreases s.len(),
{
    if s.len() > 0 && !fortune_le(s.last(), x) {
        lemma_insert_len(s.drop_last(), x);
    }
}

proof fn lemma_sort_len(s: Seq<Fortune>)
    ensures
        sort_fortunes(s).len() == s.len(),
    decreases s.len(),
{
    if s.len() > 0 {
        lemma_sort_len(s.drop_last());
        lemma_insert_len(sort_fortunes(s.drop_last()), s.last());
    }
}

proof fn lemma_bytes_le_total(a: Seq<u8>, b: Seq<u8>)
    ensures
        bytes_le(a, b) || bytes_le(b, a),
    decreases a.len(),
{
    if a.len() > 0 && b.len() > 0 && a[0] == b[0] {
        lemma_bytes_le_total(a.drop_first(), b.drop_first());
    }
}

proof fn lemma_bytes_le_transitive(a: Seq<u8>, b: Seq<u8>, c: Seq<u8>)
    requires
        bytes_le(a, b),
        bytes_le(b, c),
    ensures
        bytes_le(a, c),
    decreases a.len(),
{
    if a.len() > 0 && b.len() > 0 && c.len() > 0 && a[0] == b[0] && b[0] == c[0] {
        lemma_bytes_le_transitive(a.drop_first(), b.drop_first(), c.drop_first());
    }
}

/// Whether every fortune comes before or with every later one in message order.
pub open spec fn sorted_by_message(s: Seq<Fortune>) -> bool {
    forall|i: int, j: int| 0 <= i < j < s.len() ==> fortune_le(#[trigger] s[i], #[trigger] s[j])
}

proof fn lemma_insert_bounded(s: Seq<Fortune>, x: Fortune, y: Fortune)
    requires
        forall|i: int| 0 <= i < s.len() ==> fortune_le(#[trigger] s[i], y),
        fortune_le(x, y),
    ensures
        forall|i: int|
            0 <= i < insert_stable(s, x).len() ==> fortune_le(#[trigger] insert_stable(s, x)[i], y),
    decreases s.len(),
{
    lemma_insert_len(s, x);
    if s.len() > 0 {
        if fortune_le(s.last(), x) {
            assert forall|i: int| 0 <= i < s.push(x).len() implies fortune_le(#[trigger] s.push(x)[i], y) by {
                if i < s.len() {
                    assert(s.push(x)[i] == s[i]);
                }
            }
        } else {
            let t = insert_stable(s.drop_last(), x);
            lemma_insert_bounded(s.drop_last(), x, y);
            assert(fortune_le(s[s.len() - 1], y));
            assert forall|i: int| 0 <= i < t.push(s.last()).len() implies fortune_le(
                #[trigger] t.push(s.last())[i],
                y,
            ) by {
                if i < t.len() {
                    assert(t.push(s.last())[i] == t[i]);
                }
            }
        }
    }
}

proof fn lemma_insert_sorted(s: Seq<Fortune>, x: Fortune)
    requires
        sorted_by_message(s),
    ensures
        sorted_by_message(insert_stable(s, x)),
    decreases s.len(),
{
    lemma_insert_len(s, x);
    if s.len() > 0 {
        let l = s.last();
        if fortune_le(l, x) {
            assert forall|i: int, j: int| 0 <= i < j < s.push(x).len() implies fortune_le(
                #[trigger] s.push(x)[i],
                #[trigger] s.push(x)[j],
            ) by {
                if j == s.len() {
                    if i < s.len() - 1 {
                        assert(fortune_le(s[i], s[s.len() - 1]));
                        lemma_bytes_le_transitive(message_key(s[i]), message_key(l), message_key(x));
                    }
                }
            }
        } else {
            let d = s.drop_last();
            assert(sorted_by_message(d)) by {
                assert forall|i: int, j: int| 0 <= i < j < d.len() implies fortune_le(#[trigger] d[i], #[trigger] d[j]) by {
                    assert(d[i] == s[i] && d[j] == s[j]);
                }
            }
            lemma_insert_sorted(d, x);
            lemma_bytes_le_total(message_key(l), message_key(x));
            assert forall|i: int| 0 <= i < d.len() implies fortune_le(#[trigger] d[i], l) by {
                assert(d[i] == s[i]);
                assert(s[s.len() - 1] == l);
            }
            lemma_insert_bounded(d, x, l);
            let t = insert_stable(d, x);
            lemma_insert_len(d, x);
            assert forall|i: int, j: int| 0 <= i < j < t.push(l).len() implies fortune_le(
                #[trigger] t.push(l)[i],
                #[trigger] t.push(l)[j],
            ) by {
                assert(t.push(l)[i] == t[i]);
                if j < t.len() {
                    assert(t.push(l)[j] == t[j]);
                }
            }
        }
    }
}

proof fn lemma_insert_multiset(s: Seq<Fortune>, x: Fortune)
    ensures
        insert_stable(s, x).to_multiset() =~= s.to_multiset().insert(x),
    decreases s.len(),
{
    broadcast use vstd::seq_lib::group_to_multiset_ensures;
    if s.len() > 0 && !fortune_le(s.last(), x) {
        lemma_insert_multiset(s.drop_last(), x);
        assert(s.drop_last().push(s.last()) =~= s);
    }
}

/// Law: sorting fortunes by message gives them in message order.
pub proof fn lemma_sort_fortunes_sorted(s: Seq<Fortune>)
    ensures
        sorted_by_message(sort_fortunes(s)),
    decreases s.len(),
{
    if s.len() > 0 {
        lemma_sort_fortunes_sorted(s.drop_last());
        lemma_insert_sorted(sort_fortunes(s.drop_last()), s.last());
    }
}

/// Law: sorting fortunes neither drops nor adds nor repeats any.
pub proof fn lemma_sort_fortunes_permutation(s: Seq<Fortune>)
    ensures
        sort_fortunes(s).to_multiset() =~= s.to_multiset(),
    decreases s.len(),
{
    broadcast use vstd::seq_lib::group_to_multiset_ensures;
    if s.len() > 0 {
        lemma_sort_fortunes_permutation(s.drop_last());
        lemma_insert_multiset(sort_fortunes(s.drop_last()), s.last());
        assert(s.drop_last().push(s.last()) =~= s);
    }
}

/// Law: the rows of a list are the rows of its first part followed by the
/// rows of the rest.
pub proof fn lemma_fortune_rows_concat(a: Seq<Fortune>, b: Seq<Fortune>)
    ensures
        fortune_rows(a + b) == fortune_rows(a) + fortune_rows(b),
    decreases b.len(),
{
    if b.len() == 0 {
        assert(a + b =~= a);
        assert(fortune_rows(a) + Seq::<char>::empty() =~= fortune_rows(a));
    } else {
        lemma_fortune_rows_concat(a, b.drop_last());
        assert((a + b).drop_last() =~= a + b.drop_last());
        assert((a + b).last() == b.last());
        assert(fortune_rows(a) + fortune_rows(b.drop_last()) + fortune_row(b.last()) =~= fortune_rows(a) + (
        fortune_rows(b.drop_last()) + fortune_row(b.last())));
    }
}

/// Law: no fortunes give no rows, one fortune gives its row, and one more
/// fortune adds its row after the others.
pub proof fn lemma_fortune_rows_push(s: Seq<Fortune>, x: Fortune)
    ensures
        fortune_rows(Seq::<Fortune>::empty()) == Seq::<char>::empty(),
        fortune_rows(seq![x]) == fortune_row(x),
        fortune_rows(s.push(x)) == fortune_rows(s) + fortune_row(x),
{
    assert(s.push(x).drop_last() =~= s);
    assert(seq![x].drop_last() =~= Seq::<Fortune>::empty());
    assert(Seq::<char>::empty() + fortune_row(x) =~= fortune_row(x));
}

/// Law: the page lists the fortunes in their order: the row of fortune `i`
/// stands after the rows of the fortunes before it and before the rows of
/// the fortunes after it.
pub proof fn lemma_fortunes_page_order(s: Seq<Fortune>, i: int)
    requires
        0 <= i < s.len(),
    ensures
        fortunes_page(s) == page_head() + fortune_rows(s.take(i)) + fortune_row(s[i]) + fortune_rows(s.skip(i + 1))
            + page_tail(),
{
    assert(s =~= s.take(i) + (seq![s[i]] + s.skip(i + 1)));
    lemma_fortune_rows_concat(s.take(i), seq![s[i]] + s.skip(i + 1));
    lemma_fortune_rows_concat(seq![s[i]], s.skip(i + 1));
    lemma_fortune_rows_push(Seq::<Fortune>::empty(), s[i]);
    assert(page_head() + (fortune_rows(s.take(i)) + (fortune_row(s[i]) + fortune_rows(s.skip(i + 1))))
        + page_tail() =~= page_head() + fortune_rows(s.take(i)) + fortune_row(s[i]) + fortune_rows(s.skip(i + 1))
        + page_tail());
}

/// Law: byte strings are ordered by their first differing byte, and a
/// string comes before any longer string that starts with it.
pub proof fn lemma_bytes_order(a: Seq<u8>, b: Seq<u8>, i: int)
    ensures
        bytes_le(a, a + b),
        0 <= i < a.len() && i < b.len() && a.take(i) == b.take(i) && a[i] < b[i] ==> bytes_le(a, b) && !bytes_le(
            b,
            a,
        ),
    decreases a.len(),
{
    if a.len() > 0 {
        assert((a + b)[0] == a[0]);
        assert((a + b).drop_first() =~= a.drop_first() + b);
        lemma_bytes_order(a.drop_first(), b, i - 1);
        if 0 <= i < a.len() && i < b.len() && a.take(i) == b.take(i) && a[i] < b[i] {
            if i > 0 {
                assert(a[0] == a.take(i)[0] && b[0] == b.take(i)[0]);
                assert(b.len() > 0);
                lemma_bytes_order(a.drop_first(), b.drop_first(), i - 1);
                assert(a.drop_first().take(i - 1) =~= a.take(i).drop_first());
                assert(b.drop_first().take(i - 1) =~= b.take(i).drop_first());
                assert(a.drop_first()[i - 1] == a[i]);
                assert(b.drop_first()[i - 1] == b[i]);
            }
        }
    }
}

} // verus!
