//! Path strings and href derivation.
//!
//! Filesystem locations are modelled as plain strings with `/` as the
//! separator. A page's href is obtained by stripping the tree root from its
//! path, mapping the source extension to the rendered `.html` one, and
//! prepending a leading slash; a directory's href keeps the relative
//! directory between slashes instead. When a path does not lie under the
//! root, the full path is used as a defensive fallback.

use vstd::prelude::*;
use vstd::string::StrSliceExecFns;
use vstd::string::StringExecFns;

verus! {

/// Joining a base directory with a relative path: an absolute `rel` wins,
/// an empty base contributes nothing, and exactly one `/` separates the two
/// parts otherwise.
pub open spec fn join_seq(base: Seq<char>, rel: Seq<char>) -> Seq<char> {
    if rel.len() > 0 && rel[0] == '/' {
        rel
    } else if base.len() == 0 {
        rel
    } else if base[base.len() - 1] == '/' {
        base + rel
    } else {
        base + seq!['/'] + rel
    }
}

/// The position of the last occurrence of `c` in `p`, or `-1` when `c` does
/// not occur.
pub open spec fn last_index_of(p: Seq<char>, c: char) -> int
    decreases p.len(),
{
    if p.len() == 0 {
        -1
    } else if p[p.len() - 1] == c {
        p.len() - 1
    } else {
        last_index_of(p.drop_last(), c)
    }
}

/// `last_index_of` points at an occurrence of `c` (when there is one), and
/// nothing after it is an occurrence.
pub proof fn lemma_last_index_of(p: Seq<char>, c: char)
    ensures
        -1 <= last_index_of(p, c) < p.len(),
        last_index_of(p, c) >= 0 ==> p[last_index_of(p, c)] == c,
        forall|j: int| last_index_of(p, c) < j < p.len() ==> p[j] != c,
    decreases p.len(),
{
    if p.len() == 0 {
    } else if p[p.len() - 1] == c {
    } else {
        lemma_last_index_of(p.drop_last(), c);
        assert forall|j: int| last_index_of(p, c) < j < p.len() implies p[j] != c by {
            if j < p.len() - 1 {
                assert(p.drop_last()[j] == p[j]);
            }
        }
    }
}

/// Stripping the tree root from a path. A root with one trailing `/` is
/// treated like the same root without it; `Some` is returned exactly when
/// the path equals the root or continues it across a `/` boundary.
pub open spec fn strip_root_seq(path: Seq<char>, root: Seq<char>) -> Option<Seq<char>> {
    if root.len() == 0 {
        Option::Some(path)
    } else {
        let r = if root[root.len() - 1] == '/' {
            root.drop_last()
        } else {
            root
        };
        if path == r {
            Option::Some(Seq::empty())
        } else if path.len() > r.len() && path.take(r.len() as int) == r && path[r.len() as int]
            == '/' {
            Option::Some(path.skip(r.len() as int + 1))
        } else {
            Option::None
        }
    }
}

/// The root-relative form of a path: the stripped remainder when the path
/// lies under the root, the full path otherwise.
pub open spec fn rel_seq(path: Seq<char>, root: Seq<char>) -> Seq<char> {
    match strip_root_seq(path, root) {
        Option::Some(rest) => rest,
        Option::None => path,
    }
}

/// Mapping the source extension to `.html`: the extension of the final path
/// component is cut off when there is one (a leading dot does not start an
/// extension), and `.html` is appended.
pub open spec fn ext_html_seq(p: Seq<char>) -> Seq<char> {
    let s = last_index_of(p, '/');
    let d = last_index_of(p, '.');
    if d > s + 1 {
        p.take(d) + ".html"@
    } else {
        p + ".html"@
    }
}

/// A page's site-rooted href: a leading `/`, then the root-relative path
/// with its extension mapped to `.html`.
pub open spec fn page_href_seq(path: Seq<char>, root: Seq<char>) -> Seq<char> {
    seq!['/'] + ext_html_seq(rel_seq(path, root))
}

/// A directory's site-rooted href: the root-relative directory between a
/// leading and a trailing `/`.
pub open spec fn dir_href_seq(location: Seq<char>, root: Seq<char>) -> Seq<char> {
    seq!['/'] + rel_seq(location, root) + seq!['/']
}

/// Appends `rel` to the directory `base`, inserting a `/` separator when one
/// is needed.
pub fn join_path(base: &str, rel: &str) -> (r: String)
    ensures
        r@ == join_seq(base@, rel@),
{
    let rel_len: usize = rel.unicode_len();
    if rel_len > 0 && rel.get_char(0) == '/' {
        String::from_str(rel)
    } else {
        let base_len: usize = base.unicode_len();
        if base_len == 0 {
            String::from_str(rel)
        } else if base.get_char(base_len - 1) == '/' {
            let mut s = String::from_str(base);
            s.append(rel);
            s
        } else {
            let mut s = String::from_str(base);
            s.append("/");
            s.append(rel);
            proof {
                reveal_strlit("/");
                assert(s@ =~= base@ + seq!['/'] + rel@);
            }
            s
        }
    }
}

/// The position of the last occurrence of `c` in `s`, or `None` when `c`
/// does not occur.
fn last_index(s: &str, c: char) -> (r: Option<usize>)
    ensures
        r matches Option::Some(i) ==> i == last_index_of(s@, c) && i < s@.len(),
        r is None ==> last_index_of(s@, c) == -1,
{
    proof {
        lemma_last_index_of(s@, c);
    }
    let len: usize = s.unicode_len();
    let mut j: usize = len;
    while j > 0
        invariant
            j <= len,
            len == s@.len(),
            forall|k: int| j <= k < s@.len() ==> s@[k] != c,
        decreases j,
    {
        if s.get_char(j - 1) == c {
            proof {
                lemma_last_index_of(s@, c);
            }
            return Option::Some(j - 1);
        }
        j -= 1;
    }
    Option::None
}

/// Computes the root-relative form of `path` (see `rel_seq`).
pub fn rel_of(path: &str, root: &str) -> (r: String)
    ensures
        r@ == rel_seq(path@, root@),
{
    let root_len: usize = root.unicode_len();
    if root_len == 0 {
        return String::from_str(path);
    }
    let trailing: bool = root.get_char(root_len - 1) == '/';
    let r_len: usize = if trailing {
        root_len - 1
    } else {
        root_len
    };
    let ghost rseq: Seq<char> = if trailing {
        root@.drop_last()
    } else {
        root@
    };
    proof {
        assert(rseq.len() == r_len);
        assert(forall|k: int| 0 <= k < r_len ==> rseq[k] == root@[k]);
    }
    let path_len: usize = path.unicode_len();
    if path_len < r_len {
        return String::from_str(path);
    }
    let mut i: usize = 0;
    while i < r_len
        invariant
            i <= r_len,
            r_len <= path_len,
            path_len == path@.len(),
            root_len == root@.len(),
            root_len >= 1,
            r_len == rseq.len(),
            trailing == (root@[root@.len() - 1] == '/'),
            rseq == (if trailing {
                root@.drop_last()
            } else {
                root@
            }),
            forall|k: int| 0 <= k < i ==> path@[k] == rseq[k],
        decreases r_len - i,
    {
        if path.get_char(i) != root.get_char(i) {
            proof {
                assert(path@[i as int] != rseq[i as int]);
                if path@ == rseq {
                    assert(path@[i as int] == rseq[i as int]);
                }
                if path@.len() > rseq.len() && path@.take(rseq.len() as int) == rseq {
                    assert(path@.take(rseq.len() as int)[i as int] == path@[i as int]);
                }
            }
            return String::from_str(path);
        }
        i += 1;
    }
    if path_len == r_len {
        proof {
            assert(path@ =~= rseq);
        }
        return String::new();
    }
    if path.get_char(r_len) == '/' {
        proof {
            assert(path@.take(rseq.len() as int) =~= rseq);
        }
        let rest = path.substring_char(r_len + 1, path_len);
        proof {
            assert(rest@ =~= path@.skip(rseq.len() as int + 1));
        }
        String::from_str(rest)
    } else {
        proof {
            if path@ == rseq {
                assert(path@.len() == rseq.len());
            }
        }
        String::from_str(path)
    }
}

/// Replaces the extension of the final path component by `.html` (see
/// `ext_html_seq`).
fn ext_html(p: &str) -> (r: String)
    ensures
        r@ == ext_html_seq(p@),
{
    let sl = last_index(p, '/');
    let dt = last_index(p, '.');
    let cut: Option<usize> = match (dt, sl) {
        (Option::Some(d), Option::Some(s)) => if d > s && d - s > 1 {
            Option::Some(d)
        } else {
            Option::None
        },
        (Option::Some(d), Option::None) => if d > 0 {
            Option::Some(d)
        } else {
            Option::None
        },
        _ => {
            Option::None
        },
    };
    match cut {
        Option::Some(d) => {
            let len: usize = p.unicode_len();
            let mut out = String::from_str(p.substring_char(0, d));
            out.append(".html");
            proof {
                assert(out@ =~= p@.take(d as int) + ".html"@);
            }
            out
        },
        Option::None => {
            let mut out = String::from_str(p);
            out.append(".html");
            out
        },
    }
}

/// Computes a page's site-rooted href (see `page_href_seq`).
pub fn href_of_page(path: &str, root: &str) -> (r: String)
    ensures
        r@ == page_href_seq(path@, root@),
{
    let rel = rel_of(path, root);
    let mapped = ext_html(rel.as_str());
    let mut s = String::from_str("/");
    s.append(mapped.as_str());
    proof {
        reveal_strlit("/");
        assert(s@ =~= seq!['/'] + ext_html_seq(rel_seq(path@, root@)));
    }
    s
}

/// Computes a directory's site-rooted href (see `dir_href_seq`).
pub fn href_of_dir(location: &str, root: &str) -> (r: String)
    ensures
        r@ == dir_href_seq(location@, root@),
{
    let rel = rel_of(location, root);
    let mut s = String::from_str("/");
    s.append(rel.as_str());
    s.append("/");
    proof {
        reveal_strlit("/");
        assert(s@ =~= seq!['/'] + rel_seq(location@, root@) + seq!['/']);
    }
    s
}

/// A page href begins with `/` and never ends with `/`: the mapped
/// extension puts `l` in the final position.
pub proof fn lemma_page_href_shape(path: Seq<char>, root: Seq<char>)
    ensures
        page_href_seq(path, root).len() > 0,
        page_href_seq(path, root)[0] == '/',
        page_href_seq(path, root)[page_href_seq(path, root).len() - 1] != '/',
{
    reveal_strlit(".html");
    let e = ext_html_seq(rel_seq(path, root));
    assert(e.len() >= 5);
    assert(e[e.len() - 1] == 'l');
}

/// A directory href begins and ends with `/`.
pub proof fn lemma_dir_href_shape(location: Seq<char>, root: Seq<char>)
    ensures
        dir_href_seq(location, root).len() >= 2,
        dir_href_seq(location, root)[0] == '/',
        dir_href_seq(location, root)[dir_href_seq(location, root).len() - 1] == '/',
{
}

} // verus!
