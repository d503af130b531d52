//! Static assets: which request paths may be served from the static
//! directory, and the content type that a file name gives.
//!
//! Paths are Unix paths held as text; the rules are those of `std::path`
//! on Unix: `/` separates components, empty components and `.` components
//! after the first are ignored, a leading `.` is the current directory and
//! `..` the parent directory.

use vstd::prelude::*;
use crate::strings::{split_on, split_chars, chars_of, chars_eq_str, push_char};

verus! {

/// `Path::is_absolute` on Unix: the path starts with `/`.
pub open spec fn is_absolute(p: Seq<char>) -> bool {
    p.len() > 0 && p[0] == '/'
}

/// Whether every component of the relative path `p` is an ordinary name:
/// it does not start with a `.` component and has no `..` component.
pub open spec fn only_normal_components(p: Seq<char>) -> bool {
    let pieces = split_on(p, '/');
    &&& pieces[0] != seq!['.']
    &&& forall|i: int| 0 <= i < pieces.len() ==> #[trigger] pieces[i] != seq!['.', '.']
}

/// `PathBuf::join` on Unix for a relative `rel`: a `/` goes between the two
/// unless `root` is empty or already ends with one.
pub open spec fn join_path(root: Seq<char>, rel: Seq<char>) -> Seq<char> {
    if root.len() > 0 && root.last() != '/' {
        root + seq!['/'] + rel
    } else {
        root + rel
    }
}

/// `PathBuf::join` on Unix for a relative path `rel` (see `join_path`).
pub fn join(root: &str, rel: &str) -> (r: String)
    ensures
        r@ == join_path(root@, rel@),
{
    let root_chars = chars_of(root);
    let rel_chars = chars_of(rel);
    let mut out = String::new();
    let mut k: usize = 0;
    while k < root_chars.len()
        invariant
            k <= root_chars@.len(),
            out@ == root_chars@.take(k as int),
        decreases root_chars@.len() - k,
    {
        push_char(&mut out, root_chars[k]);
        assert(out@ =~= root_chars@.take(k + 1));
        k = k + 1;
    }
    assert(root_chars@.take(k as int) =~= root@);
    if root_chars.len() > 0 && root_chars[root_chars.len() - 1] != '/' {
        push_char(&mut out, '/');
    }
    let ghost base = out@;
    let mut j: usize = 0;
    while j < rel_chars.len()
        invariant
            j <= rel_chars@.len(),
            out@ == base + rel_chars@.take(j as int),
        decreases rel_chars@.len() - j,
    {
        push_char(&mut out, rel_chars[j]);
        assert(out@ =~= base + rel_chars@.take(j + 1));
        j = j + 1;
    }
    assert(rel_chars@.take(j as int) =~= rel@);
    assert(out@ =~= join_path(root@, rel@));
    out
}

/// The file that a request for `relative` maps to under `root`, if the path
/// stays inside `root`.
pub open spec fn spec_safe_static_path(root: Seq<char>, relative: Seq<char>) -> Option<Seq<char>> {
    if is_absolute(relative) || !only_normal_components(relative) {
        None
    } else {
        Some(join_path(root, relative))
    }
}

/// The path of `relative` under `root`, or `None` where `relative` is
/// absolute or has a component other than an ordinary name (a leading `.`,
/// or `..` anywhere).
pub fn safe_static_path(root: &str, relative: &str) -> (r: Option<String>)
    ensures
        r matches Some(p) ==> spec_safe_static_path(root@, relative@) == Some(p@),
        r is None ==> spec_safe_static_path(root@, relative@) is None,
{
    let rel = chars_of(relative);
    if rel.len() > 0 && rel[0] == '/' {
        return None;
    }
    let pieces = split_chars(&rel, '/');
    let ghost view = pieces@.map_values(|v: Vec<char>| v@);
    proof {
        crate::strings::lemma_split_on_nonempty(rel@, '/');
    }
    assert(view[0] == pieces@[0]@);
    if pieces[0].len() == 1 && pieces[0][0] == '.' {
        assert(pieces@[0]@ =~= seq!['.']);
        return None;
    }
    assert(pieces@[0]@ != seq!['.']);
    let mut i: usize = 0;
    while i < pieces.len()
        invariant
            i <= pieces@.len(),
            view == pieces@.map_values(|v: Vec<char>| v@),
            view == split_on(relative@, '/'),
            rel@ == relative@,
            forall|k: int| 0 <= k < i ==> #[trigger] view[k] != seq!['.', '.'],
        decreases pieces@.len() - i,
    {
        assert(view[i as int] == pieces@[i as int]@);
        if pieces[i].len() == 2 && pieces[i][0] == '.' && pieces[i][1] == '.' {
            assert(pieces@[i as int]@ =~= seq!['.', '.']);
            return None;
        }
        assert(pieces@[i as int]@ != seq!['.', '.']);
        i = i + 1;
    }
    Some(join(root, relative))
}

/// Law: a path that `safe_static_path` accepts lies under `root`: it is
/// `root` followed by the relative path, and that has no `..` component.
pub proof fn lemma_safe_static_path_inside_root(root: Seq<char>, relative: Seq<char>)
    requires
        spec_safe_static_path(root, relative) is Some,
    ensures
        spec_safe_static_path(root, relative)->0.take(root.len() as int) == root,
        spec_safe_static_path(root, relative)->0.skip(
            spec_safe_static_path(root, relative)->0.len() - relative.len(),
        ) == relative,
        !is_absolute(relative),
        split_on(relative, '/')[0] != seq!['.'],
        forall|i: int| 0 <= i < split_on(relative, '/').len() ==> #[trigger] split_on(relative, '/')[i] != seq!['.', '.'],
{
    let p = join_path(root, relative);
    assert(p.take(root.len() as int) =~= root);
    assert(p.skip(p.len() - relative.len()) =~= relative);
}

// ---------------------------------------------------------------------------
// Content types

/// The name of the last component of a path (`Path::file_name`), from its
/// pieces between `/`: empty and `.` pieces do not count, and a `..` or no
/// name at all gives none.
pub open spec fn last_name(pieces: Seq<Seq<char>>) -> Option<Seq<char>>
    decreases pieces.len(),
{
    if pieces.len() == 0 {
        None
    } else if pieces.last().len() == 0 || pieces.last() == seq!['.'] {
        last_name(pieces.drop_last())
    } else if pieces.last() == seq!['.', '.'] {
        None
    } else {
        Some(pieces.last())
    }
}

/// Index of the last `.` in `s`, or -1.
pub open spec fn last_dot(s: Seq<char>) -> int
    decreases s.len(),
{
    if s.len() == 0 {
        -1
    } else if s.last() == '.' {
        s.len() - 1
    } else {
        last_dot(s.drop_last())
    }
}

/// `Path::extension`: what follows the last `.` of the file name, where that
/// `.` is not the name's first character.
pub open spec fn spec_extension(path: Seq<char>) -> Option<Seq<char>> {
    match last_name(split_on(path, '/')) {
        None => None,
        Some(name) => {
            let k = last_dot(name);
            if k <= 0 {
                None
            } else {
                Some(name.skip(k + 1))
            }
        },
    }
}

/// The content type of a file with extension `ext`.
pub open spec fn type_of_extension(ext: Option<Seq<char>>) -> Seq<char> {
    match ext {
        Some(e) => if e == "css"@ {
            "text/css"@
        } else if e == "js"@ {
            "application/javascript"@
        } else if e == "json"@ {
            "application/json"@
        } else if e == "html"@ {
            "text/html; charset=utf-8"@
        } else if e == "svg"@ {
            "image/svg+xml"@
        } else if e == "png"@ {
            "image/png"@
        } else if e == "jpg"@ || e == "jpeg"@ {
            "image/jpeg"@
        } else {
            "application/octet-stream"@
        },
        None => "application/octet-stream"@,
    }
}

/// The content type that a static file is served with, by the extension of
/// its name.
pub open spec fn spec_content_type(path: Seq<char>) -> Seq<char> {
    type_of_extension(spec_extension(path))
}

/// The extension of the file that `path` names, as `Path::extension` gives it.
pub fn extension(path: &str) -> (r: Option<Vec<char>>)
    ensures
        r matches Some(e) ==> spec_extension(path@) == Some(e@),
        r is None ==> spec_extension(path@) is None,
{
    let chars = chars_of(path);
    let pieces = split_chars(&chars, '/');
    let ghost view = pieces@.map_values(|v: Vec<char>| v@);
    let mut n = pieces.len();
    assert(view.take(n as int) =~= view);
    // Find the last piece that is a name.
    while n > 0 && (pieces[n - 1].len() == 0 || (pieces[n - 1].len() == 1 && pieces[n - 1][0] == '.'))
        invariant
            n <= pieces@.len(),
            view == pieces@.map_values(|v: Vec<char>| v@),
            view == split_on(path@, '/'),
            last_name(view) == last_name(view.take(n as int)),
        decreases n,
    {
        assert(view.take(n as int).drop_last() =~= view.take(n - 1));
        assert(view.take(n as int).last() == pieces@[n - 1]@);
        proof {
            if pieces@[n - 1]@.len() == 1 {
                assert(pieces@[n - 1]@ =~= seq!['.']);
            }
        }
        n = n - 1;
    }
    if n == 0 {
        assert(view.take(0) =~= Seq::<Seq<char>>::empty());
        return None;
    }
    let name = &pieces[n - 1];
    assert(view.take(n as int).last() == name@);
    assert(name@.len() != 0 && name@ != seq!['.']) by {
        if name@.len() == 1 {
            assert(name@ =~= seq![name@[0]]);
        }
    }
    if name.len() == 2 && name[0] == '.' && name[1] == '.' {
        assert(name@ =~= seq!['.', '.']);
        return None;
    }
    assert(name@ != seq!['.', '.']);
    assert(last_name(view) == Some(name@));
    // Find the last dot of the name.
    let m = name.len();
    let mut k = m;
    assert(name@.take(m as int) =~= name@);
    while k > 0 && name[k - 1] != '.'
        invariant
            k <= m,
            m == name@.len(),
            last_dot(name@) == last_dot(name@.take(k as int)),
        decreases k,
    {
        assert(name@.take(k as int).drop_last() =~= name@.take(k - 1));
        assert(name@.take(k as int).last() == name@[k - 1]);
        k = k - 1;
    }
    if k == 0 {
        assert(name@.take(0) =~= Seq::<char>::empty());
        return None;
    }
    assert(name@.take(k as int).last() == name@[k - 1]);
    assert(last_dot(name@) == k - 1);
    if k == 1 {
        return None;
    }
    let mut ext: Vec<char> = Vec::new();
    let mut j = k;
    while j < m
        invariant
            k <= j <= m,
            m == name@.len(),
            ext@ == name@.subrange(k as int, j as int),
        decreases m - j,
    {
        ext.push(name[j]);
        assert(ext@ =~= name@.subrange(k as int, j + 1));
        j = j + 1;
    }
    assert(name@.skip(k as int) =~= ext@);
    Some(ext)
}

/// The content type that the static file `path` is served with.
pub fn content_type(path: &str) -> (r: &'static str)
    ensures
        r@ == spec_content_type(path@),
{
    match extension(path) {
        None => "application/octet-stream",
        Some(e) => {
            if chars_eq_str(&e, "css") {
                "text/css"
            } else if chars_eq_str(&e, "js") {
                "application/javascript"
            } else if chars_eq_str(&e, "json") {
                "application/json"
            } else if chars_eq_str(&e, "html") {
                "text/html; charset=utf-8"
            } else if chars_eq_str(&e, "svg") {
                "image/svg+xml"
            } else if chars_eq_str(&e, "png") {
                "image/png"
            } else if chars_eq_str(&e, "jpg") || chars_eq_str(&e, "jpeg") {
                "image/jpeg"
            } else {
                "application/octet-stream"
            }
        },
    }
}

/// Whether `c` does not occur in `s`.
pub open spec fn lacks(s: Seq<char>, c: char) -> bool {
    forall|i: int| 0 <= i < s.len() ==> #[trigger] s[i] != c
}

proof fn lemma_split_without_separator(p: Seq<char>)
    requires
        lacks(p, '/'),
    ensures
        split_on(p, '/') == seq![p],
    decreases p.len(),
{
    if p.len() > 0 {
        assert(lacks(p.drop_last(), '/')) by {
            assert forall|i: int| 0 <= i < p.drop_last().len() implies #[trigger] p.drop_last()[i] != '/' by {
                assert(p.drop_last()[i] == p[i]);
            }
        }
        lemma_split_without_separator(p.drop_last());
        assert(p.last() == p[p.len() - 1]);
        assert(p.drop_last().push(p.last()) =~= p);
        let pieces = seq![p.drop_last()];
        assert(pieces.len() == 1);
        assert(pieces.last() == p.drop_last());
        assert(pieces.update(0, pieces.last().push(p.last())) =~= seq![p]);
    } else {
        assert(p =~= Seq::<char>::empty());
    }
}

proof fn lemma_last_dot(d: Seq<char>, e: Seq<char>)
    requires
        lacks(e, '.'),
    ensures
        last_dot(d + seq!['.'] + e) == d.len(),
    decreases e.len(),
{
    let n = d + seq!['.'] + e;
    if e.len() == 0 {
        assert(n =~= d.push('.'));
    } else {
        assert(n.last() == e[e.len() - 1]);
        assert(n.drop_last() =~= d + seq!['.'] + e.drop_last());
        assert(lacks(e.drop_last(), '.')) by {
            assert forall|i: int| 0 <= i < e.drop_last().len() implies #[trigger] e.drop_last()[i] != '.' by {
                assert(e.drop_last()[i] == e[i]);
            }
        }
        lemma_last_dot(d, e.drop_last());
    }
}

/// Law: the extension of a file name `d.e`, where `d` is not empty, neither
/// part holds a `/` and `e` is not empty and holds no `.`, is `e`.
pub proof fn lemma_extension_of_file_name(d: Seq<char>, e: Seq<char>)
    requires
        d.len() > 0,
        e.len() > 0,
        lacks(d, '/'),
        lacks(e, '/'),
        lacks(e, '.'),
    ensures
        spec_extension(d + seq!['.'] + e) == Some(e),
{
    let n = d + seq!['.'] + e;
    assert(lacks(n, '/')) by {
        assert forall|i: int| 0 <= i < n.len() implies #[trigger] n[i] != '/' by {
            if i < d.len() {
                assert(n[i] == d[i]);
            } else if i > d.len() {
                assert(n[i] == e[i - d.len() - 1]);
            }
        }
    }
    lemma_split_without_separator(n);
    assert(n.last() == e[e.len() - 1]);
    assert(n.last() != '.');
    assert(n != seq!['.']) by {
        if n == seq!['.'] {
            assert(n.last() == '.');
        }
    }
    assert(n != seq!['.', '.']) by {
        if n == seq!['.', '.'] {
            assert(n.last() == '.');
        }
    }
    assert(seq![n].drop_last() =~= Seq::<Seq<char>>::empty());
    assert(last_name(seq![n]) == Some(n));
    lemma_last_dot(d, e);
    assert(n.skip(d.len() as int + 1) =~= e);
}

/// Law: a file name with no `.` has no extension, nor has one whose only
/// `.` is its first character.
pub proof fn lemma_no_extension(d: Seq<char>)
    requires
        d.len() > 0,
        lacks(d, '/'),
        lacks(d, '.'),
    ensures
        spec_extension(d) is None,
        spec_extension(seq!['.'] + d) is None,
{
    lemma_split_without_separator(d);
    assert(seq![d].drop_last() =~= Seq::<Seq<char>>::empty());
    assert(d.last() == d[d.len() - 1]);
    lemma_last_dot(Seq::<char>::empty(), d);
    assert(Seq::<char>::empty() + seq!['.'] + d =~= seq!['.'] + d);
    let n = seq!['.'] + d;
    assert(lacks(n, '/')) by {
        assert forall|i: int| 0 <= i < n.len() implies #[trigger] n[i] != '/' by {
            if i > 0 {
                assert(n[i] == d[i - 1]);
            }
        }
    }
    lemma_split_without_separator(n);
    assert(seq![n].drop_last() =~= Seq::<Seq<char>>::empty());
    assert(n.last() == d[d.len() - 1]);
    lemma_last_dot_none(d);
}

proof fn lemma_last_dot_none(d: Seq<char>)
    requires
        lacks(d, '.'),
    ensures
        last_dot(d) == -1,
    decreases d.len(),
{
    if d.len() > 0 {
        assert(d.last() == d[d.len() - 1]);
        assert(lacks(d.drop_last(), '.')) by {
            assert forall|i: int| 0 <= i < d.drop_last().len() implies #[trigger] d.drop_last()[i] != '.' by {
                assert(d.drop_last()[i] == d[i]);
            }
        }
        lemma_last_dot_none(d.drop_last());
    }
}

/// Law: the content type of each known extension, and
/// `application/octet-stream` for a path without an extension or with any
/// other one.
pub proof fn lemma_content_type_of_extension(path: Seq<char>)
    ensures
        spec_extension(path) == Some("css"@) ==> spec_content_type(path) == "text/css"@,
        spec_extension(path) == Some("js"@) ==> spec_content_type(path) == "application/javascript"@,
        spec_extension(path) == Some("json"@) ==> spec_content_type(path) == "application/json"@,
        spec_extension(path) == Some("html"@) ==> spec_content_type(path) == "text/html; charset=utf-8"@,
        spec_extension(path) == Some("svg"@) ==> spec_content_type(path) == "image/svg+xml"@,
        spec_extension(path) == Some("png"@) ==> spec_content_type(path) == "image/png"@,
        spec_extension(path) == Some("jpg"@) ==> spec_content_type(path) == "image/jpeg"@,
        spec_extension(path) == Some("jpeg"@) ==> spec_content_type(path) == "image/jpeg"@,
        spec_extension(path) is None ==> spec_content_type(path) == "application/octet-stream"@,
        (spec_extension(path) matches Some(e) && e != "css"@ && e != "js"@ && e != "json"@ && e != "html"@
            && e != "svg"@ && e != "png"@ && e != "jpg"@ && e != "jpeg"@) ==> spec_content_type(path)
            == "application/octet-stream"@,
{
    reveal_strlit("css");
    reveal_strlit("js");
    reveal_strlit("json");
    reveal_strlit("html");
    reveal_strlit("svg");
    reveal_strlit("png");
    reveal_strlit("jpg");
    reveal_strlit("jpeg");
    let e = spec_extension(path);
    if e is Some {
        let x = e->0;
        if x == "png"@ {
            assert(x.len() == 3 && x[0] == 'p');
        }
        if x == "jpg"@ {
            assert(x.len() == 3 && x[0] == 'j');
        }
        if x == "jpeg"@ {
            assert(x.len() == 4 && x[0] == 'j' && x[1] == 'p');
        }
        if x == "json"@ {
            assert(x.len() == 4 && x[0] == 'j' && x[1] == 's');
        }
        if x == "html"@ {
            assert(x.len() == 4 && x[0] == 'h');
        }
        if x == "svg"@ {
            assert(x.len() == 3 && x[0] == 's');
        }
        if x == "js"@ {
            assert(x.len() == 2);
        }
    }
}

/// Law: a file named `d.png`, `d.css` or `d.js` (with `d` not empty and
/// without `/`) is served as `image/png`, `text/css` and
/// `application/javascript`.
pub proof fn lemma_content_type_of_file_name(d: Seq<char>)
    requires
        d.len() > 0,
        lacks(d, '/'),
    ensures
        spec_content_type(d + seq!['.'] + "png"@) == "image/png"@,
        spec_content_type(d + seq!['.'] + "css"@) == "text/css"@,
        spec_content_type(d + seq!['.'] + "js"@) == "application/javascript"@,
{
    reveal_strlit("png");
    reveal_strlit("css");
    reveal_strlit("js");
    lemma_extension_of_file_name(d, "png"@);
    lemma_extension_of_file_name(d, "css"@);
    lemma_extension_of_file_name(d, "js"@);
    lemma_content_type_of_extension(d + seq!['.'] + "png"@);
    lemma_content_type_of_extension(d + seq!['.'] + "css"@);
    lemma_content_type_of_extension(d + seq!['.'] + "js"@);
}

} // verus!
