//! HTML escaping of text.

use vstd::prelude::*;
use vstd::string::StringExecFns;

verus! {

/// What `escape_html_into` writes for one character.
pub open spec fn escape_char(c: char) -> Seq<char> {
    if c == '&' {
        "&amp;"@
    } else if c == '<' {
        "&lt;"@
    } else if c == '>' {
        "&gt;"@
    } else if c == '"' {
        "&quot;"@
    } else if c == '\'' {
        "&#39;"@
    } else {
        seq![c]
    }
}

/// The text with `&`, `<`, `>`, `"` and `'` replaced by their character references.
pub open spec fn escape_html(s: Seq<char>) -> Seq<char>
    decreases s.len(),
{
    if s.len() == 0 {
        Seq::empty()
    } else {
        escape_html(s.drop_last()) + escape_char(s.last())
    }
}

/// Appends `input` to `output` with `&`, `<`, `>`, `"` and `'` replaced by
/// their character references.
pub fn escape_html_into(input: &str, output: &mut String)
    ensures
        final(output)@ == old(output)@ + escape_html(input@),
{
    let chars = crate::strings::chars_of(input);
    let n = chars.len();
    let mut i: usize = 0;
    while i < n
        invariant
            i <= n,
            n == chars@.len(),
            chars@ == input@,
            output@ == old(output)@ + escape_html(chars@.take(i as int)),
        decreases n - i,
    {
        let c = chars[i];
        let ghost before = output@;
        if c == '&' {
            output.append("&amp;");
        } else if c == '<' {
            output.append("&lt;");
        } else if c == '>' {
            output.append("&gt;");
        } else if c == '"' {
            output.append("&quot;");
        } else if c == '\'' {
            output.append("&#39;");
        } else {
            crate::strings::push_char(output, c);
        }
        assert(chars@.take(i + 1).drop_last() =~= chars@.take(i as int));
        assert(output@ =~= before + escape_char(c));
        i = i + 1;
    }
    assert(chars@.take(n as int) =~= input@);
}

/// The characters that `escape_html` leaves out of its result.
pub open spec fn is_markup_char(c: char) -> bool {
    c == '<' || c == '>' || c == '"' || c == '\''
}

proof fn lemma_escape_char_no_markup(c: char)
    ensures
        forall|i: int| 0 <= i < escape_char(c).len() ==> !is_markup_char(#[trigger] escape_char(c)[i]),
{
    reveal_strlit("&amp;");
    reveal_strlit("&lt;");
    reveal_strlit("&gt;");
    reveal_strlit("&quot;");
    reveal_strlit("&#39;");
}

/// Law: escaped text holds no `<`, `>`, `"` or `'`, so it cannot open or
/// close a tag or an attribute value.
pub proof fn lemma_escape_html_no_markup(s: Seq<char>)
    ensures
        forall|i: int| 0 <= i < escape_html(s).len() ==> !is_markup_char(#[trigger] escape_html(s)[i]),
    decreases s.len(),
{
    if s.len() > 0 {
        lemma_escape_html_no_markup(s.drop_last());
        lemma_escape_char_no_markup(s.last());
        let a = escape_html(s.drop_last());
        let b = escape_char(s.last());
        assert forall|i: int| 0 <= i < (a + b).len() implies !is_markup_char(#[trigger] (a + b)[i]) by {
            if i < a.len() {
                assert((a + b)[i] == a[i]);
            } else {
                assert((a + b)[i] == b[i - a.len()]);
            }
        }
    }
}

/// Law: text without `&`, `<`, `>`, `"` and `'` is left as it is.
pub proof fn lemma_escape_html_plain(s: Seq<char>)
    requires
        forall|i: int| 0 <= i < s.len() ==> !is_markup_char(#[trigger] s[i]) && s[i] != '&',
    ensures
        escape_html(s) == s,
    decreases s.len(),
{
    if s.len() > 0 {
        lemma_escape_html_plain(s.drop_last());
        assert(s.last() == s[s.len() - 1]);
        assert(escape_html(s) =~= s.drop_last() + seq![s.last()]);
        assert(s =~= s.drop_last() + seq![s.last()]);
    }
}

/// Law: escaping a text is escaping its parts one after the other.
pub proof fn lemma_escape_html_concat(a: Seq<char>, b: Seq<char>)
    ensures
        escape_html(a + b) == escape_html(a) + escape_html(b),
    decreases b.len(),
{
    if b.len() == 0 {
        assert(a + b =~= a);
        assert(escape_html(a) + Seq::<char>::empty() =~= escape_html(a));
    } else {
        lemma_escape_html_concat(a, b.drop_last());
        assert((a + b).drop_last() =~= a + b.drop_last());
        assert((a + b).last() == b.last());
        assert(escape_html(a) + escape_html(b.drop_last()) + escape_char(b.last()) =~= escape_html(a) + (
        escape_html(b.drop_last()) + escape_char(b.last())));
    }
}

/// Law: each of the five characters becomes its character reference
/// (`&amp;`, `&lt;`, `&gt;`, `&quot;`, `&#39;`), and any other character
/// stays as it is.
pub proof fn lemma_escape_html_char(c: char)
    ensures
        c == '&' ==> escape_html(seq![c]) == seq!['&', 'a', 'm', 'p', ';'],
        c == '<' ==> escape_html(seq![c]) == seq!['&', 'l', 't', ';'],
        c == '>' ==> escape_html(seq![c]) == seq!['&', 'g', 't', ';'],
        c == '"' ==> escape_html(seq![c]) == seq!['&', 'q', 'u', 'o', 't', ';'],
        c == '\'' ==> escape_html(seq![c]) == seq!['&', '#', '3', '9', ';'],
        !(c == '&' || c == '<' || c == '>' || c == '"' || c == '\'') ==> escape_html(seq![c]) == seq![c],
{
    reveal_strlit("&amp;");
    reveal_strlit("&lt;");
    reveal_strlit("&gt;");
    reveal_strlit("&quot;");
    reveal_strlit("&#39;");
    assert("&amp;"@ =~= seq!['&', 'a', 'm', 'p', ';']);
    assert("&lt;"@ =~= seq!['&', 'l', 't', ';']);
    assert("&gt;"@ =~= seq!['&', 'g', 't', ';']);
    assert("&quot;"@ =~= seq!['&', 'q', 'u', 'o', 't', ';']);
    assert("&#39;"@ =~= seq!['&', '#', '3', '9', ';']);
    assert(seq![c].drop_last() =~= Seq::<char>::empty());
    assert(seq![c].last() == c);
    assert(escape_html(Seq::<char>::empty()) == Seq::<char>::empty());
    assert(escape_html(seq![c]) == escape_html(Seq::<char>::empty()) + escape_char(c));
    assert(Seq::<char>::empty() + escape_char(c) =~= escape_char(c));
    assert(escape_html(seq![c]) == escape_char(c));
}

} // verus!
