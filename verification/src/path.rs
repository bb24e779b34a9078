//! Path arithmetic: joining route prefixes and checking group paths.

use vstd::prelude::*;
use vstd::string::*;

verus! {

/// The path of a route group: exactly `/`, or a path that starts with `/`
/// and does not end with `/`.
pub open spec fn is_group_path(p: Seq<char>) -> bool {
    p == seq!['/'] || (p.len() > 0 && p[0] == '/' && p[p.len() - 1] != '/')
}

/// Concatenation of a parent prefix and a child segment.  An empty side is
/// the identity, a lone `/` on either side adds nothing to the other, and
/// two empty sides give the root.
pub open spec fn join_spec(parent: Seq<char>, child: Seq<char>) -> Seq<char> {
    if parent.len() == 0 && child.len() == 0 {
        seq!['/']
    } else if parent.len() == 0 {
        child
    } else if child.len() == 0 || child == seq!['/'] {
        parent
    } else if parent == seq!['/'] {
        child
    } else {
        parent + child
    }
}

/// A path that a node may have: empty, as the root has it, or the path of
/// a route group.
pub open spec fn is_node_path(p: Seq<char>) -> bool {
    p.len() == 0 || is_group_path(p)
}

/// Joining node paths gives the path of a route group.
pub proof fn lemma_join_is_group_path(parent: Seq<char>, child: Seq<char>)
    requires
        is_node_path(parent),
        is_node_path(child),
    ensures
        is_group_path(join_spec(parent, child)),
{
    if parent.len() > 0 && child.len() > 0 && child != seq!['/'] && parent != seq!['/'] {
        let joined = parent + child;
        assert(joined[0] == parent[0]);
        assert(joined[joined.len() - 1] == child[child.len() - 1]);
    }
}

/// A path character as the matcher sees it: a backslash is a slash, and an
/// upper-case ASCII letter is its lower-case letter.
pub open spec fn fold_char(c: char) -> char {
    if c == '\\' {
        '/'
    } else if 'A' <= c && c <= 'Z' {
        ((c as u8) + 32) as char
    } else {
        c
    }
}

/// `s` with every slash that directly follows a slash left out.
pub open spec fn squeeze(s: Seq<char>) -> Seq<char>
    decreases s.len(),
{
    if s.len() == 0 {
        s
    } else if s.last() == '/' && s.len() >= 2 && s[s.len() - 2] == '/' {
        squeeze(s.drop_last())
    } else {
        squeeze(s.drop_last()).push(s.last())
    }
}

/// `s` without its last character if that is a slash and not the only
/// character.
pub open spec fn strip_trailing_slash(s: Seq<char>) -> Seq<char> {
    if s.len() > 1 && s.last() == '/' {
        s.drop_last()
    } else {
        s
    }
}

/// The normal form of a request path: characters folded, runs of slashes
/// squeezed to one, and a trailing slash dropped except on the root.
pub open spec fn normalize_spec(p: Seq<char>) -> Seq<char> {
    strip_trailing_slash(squeeze(p.map_values(|c: char| fold_char(c))))
}

/// A path in normal form: no character that folding would change, no
/// slash directly after a slash, and no slash at the end of a path of more
/// than one character.
pub open spec fn is_normal(s: Seq<char>) -> bool {
    &&& forall|i: int| 0 <= i < s.len() ==> fold_char(#[trigger] s[i]) == s[i]
    &&& forall|i: int| 0 <= i < s.len() - 1 ==> !(#[trigger] s[i] == '/' && s[i + 1] == '/')
    &&& s.len() > 1 ==> s[s.len() - 1] != '/'
}

/// What squeezing keeps: a text that is not empty stays so and keeps its
/// last character, every character that is left was there before, and no
/// slash is left directly after a slash.
pub proof fn lemma_squeeze(s: Seq<char>)
    ensures
        s.len() > 0 ==> squeeze(s).len() > 0 && squeeze(s).last() == s.last(),
        squeeze(s).len() <= s.len(),
        forall|i: int| 0 <= i < squeeze(s).len() ==> s.contains(#[trigger] squeeze(s)[i]),
        forall|i: int|
            0 <= i < squeeze(s).len() - 1 ==> !(#[trigger] squeeze(s)[i] == '/' && squeeze(s)[i
                + 1] == '/'),
    decreases s.len(),
{
    if s.len() > 0 {
        let head = s.drop_last();
        lemma_squeeze(head);
        let out = squeeze(s);
        assert forall|i: int| 0 <= i < out.len() implies s.contains(#[trigger] out[i]) by {
            if i < squeeze(head).len() {
                assert(out[i] == squeeze(head)[i]);
                let w = choose|w: int| 0 <= w < head.len() && head[w] == squeeze(head)[i];
                assert(s[w] == out[i]);
            } else {
                assert(s[s.len() - 1] == out[i]);
            }
        }
        if !(s.last() == '/' && s.len() >= 2 && s[s.len() - 2] == '/') {
            assert forall|i: int| 0 <= i < out.len() - 1 implies !(#[trigger] out[i] == '/'
                && out[i + 1] == '/') by {
                if i + 1 < squeeze(head).len() {
                    assert(out[i] == squeeze(head)[i]);
                    assert(out[i + 1] == squeeze(head)[i + 1]);
                } else {
                    assert(out[i] == squeeze(head).last());
                    assert(head.last() == s[s.len() - 2]);
                }
            }
        }
    }
}

/// Squeezing changes nothing where no slash follows a slash.
pub proof fn lemma_squeeze_fixed(s: Seq<char>)
    requires
        forall|i: int| 0 <= i < s.len() - 1 ==> !(#[trigger] s[i] == '/' && s[i + 1] == '/'),
    ensures
        squeeze(s) == s,
    decreases s.len(),
{
    if s.len() > 0 {
        let head = s.drop_last();
        assert forall|i: int| 0 <= i < head.len() - 1 implies !(#[trigger] head[i] == '/'
            && head[i + 1] == '/') by {
            assert(head[i] == s[i]);
            assert(head[i + 1] == s[i + 1]);
        }
        lemma_squeeze_fixed(head);
        if s.len() >= 2 {
            assert(!(s[s.len() - 2] == '/' && s[s.len() - 2 + 1] == '/'));
        }
        assert(head.push(s.last()) =~= s);
    }
}

/// Folding a folded character changes nothing.
pub proof fn lemma_fold_twice(c: char)
    ensures
        fold_char(fold_char(c)) == fold_char(c),
{
}

/// Every path is normalised to a path in normal form.
pub proof fn lemma_normalize_is_normal(p: Seq<char>)
    ensures
        is_normal(normalize_spec(p)),
{
    let folded = p.map_values(|c: char| fold_char(c));
    let squeezed = squeeze(folded);
    let out = normalize_spec(p);
    lemma_squeeze(folded);
    assert forall|i: int| 0 <= i < out.len() implies fold_char(#[trigger] out[i]) == out[i] by {
        assert(out[i] == squeezed[i]);
        let w = choose|w: int| 0 <= w < folded.len() && folded[w] == squeezed[i];
        assert(folded[w] == fold_char(p[w]));
        lemma_fold_twice(p[w]);
    }
    assert forall|i: int| 0 <= i < out.len() - 1 implies !(#[trigger] out[i] == '/' && out[i
        + 1] == '/') by {
        assert(out[i] == squeezed[i]);
        assert(out[i + 1] == squeezed[i + 1]);
    }
    if out.len() > 1 && out.len() < squeezed.len() {
        assert(out[out.len() - 1] == squeezed[squeezed.len() - 2]);
        assert(!(squeezed[squeezed.len() - 2] == '/' && squeezed[squeezed.len() - 2 + 1]
            == '/'));
    }
}

/// Normalising changes nothing of a path in normal form.
pub proof fn lemma_normal_is_fixed(p: Seq<char>)
    requires
        is_normal(p),
    ensures
        normalize_spec(p) == p,
{
    let folded = p.map_values(|c: char| fold_char(c));
    assert(folded =~= p);
    lemma_squeeze_fixed(p);
}

/// Normalising twice gives what normalising once gives.
pub proof fn lemma_normalize_idempotent(p: Seq<char>)
    ensures
        normalize_spec(normalize_spec(p)) == normalize_spec(p),
{
    lemma_normalize_is_normal(p);
    lemma_normal_is_fixed(normalize_spec(p));
}

/// `String::push` appends one character.
pub assume_specification[ String::push ](s: &mut String, c: char)
    ensures
        final(s)@ == old(s)@.push(c),
;

/// Folds one path character.
pub fn fold(c: char) -> (r: char)
    ensures
        r == fold_char(c),
{
    if c == '\\' {
        '/'
    } else if 'A' <= c && c <= 'Z' {
        let b: u8 = c as u8;
        (b + 32) as char
    } else {
        c
    }
}

/// Brings a request path into the form in which routes are matched.
pub fn normalize_path(path: &str) -> (r: String)
    ensures
        r@ == normalize_spec(path@),
{
    let ghost folded = path@.map_values(|c: char| fold_char(c));
    let mut result = String::new();
    let mut pending = false;
    for raw in it: path.chars()
        invariant
            it.seq() == path@,
            folded == path@.map_values(|c: char| fold_char(c)),
            pending == (it.index() > 0 && folded[it.index() - 1] == '/'),
            !pending ==> result@ == squeeze(folded.take(it.index() as int)),
            pending ==> result@.push('/') == squeeze(folded.take(it.index() as int)),
    {
        let ghost i = it.index() as int;
        let c = fold(raw);
        assert(folded.take(i + 1).drop_last() =~= folded.take(i));
        if c == '/' {
            pending = true;
        } else {
            if pending {
                result.push('/');
            }
            result.push(c);
            pending = false;
        }
    }
    assert(folded.take(path@.len() as int) =~= folded);
    if pending && result.as_str().unicode_len() == 0 {
        result.push('/');
    }
    result
}

/// Whether `s` is the one-character string `/`.
pub fn is_root(s: &str) -> (r: bool)
    ensures
        r == (s@ == seq!['/']),
{
    let n = s.unicode_len();
    if n == 1 {
        let c = s.get_char(0);
        proof {
            if c == '/' {
                assert(s@ =~= seq!['/']);
            }
        }
        c == '/'
    } else {
        false
    }
}

/// Tests whether `path` may name a route group.
pub fn is_valid_group_path(path: &str) -> (r: bool)
    ensures
        r == is_group_path(path@),
{
    let n = path.unicode_len();
    if n == 0 {
        return false;
    }
    let first = path.get_char(0);
    let last = path.get_char(n - 1);
    if n == 1 {
        proof {
            if first == '/' {
                assert(path@ =~= seq!['/']);
            }
        }
        return first == '/';
    }
    first == '/' && last != '/'
}

/// Joins a parent prefix and a child segment.
pub fn join_paths(parent: &str, child: &str) -> (r: String)
    ensures
        r@ == join_spec(parent@, child@),
{
    let pn = parent.unicode_len();
    let cn = child.unicode_len();
    if pn == 0 && cn == 0 {
        let r = String::from_str("/");
        proof {
            reveal_strlit("/");
            assert(r@ =~= seq!['/']);
        }
        r
    } else if pn == 0 {
        String::from_str(child)
    } else if cn == 0 || is_root(child) {
        String::from_str(parent)
    } else if is_root(parent) {
        String::from_str(child)
    } else {
        String::from_str(parent).concat(child)
    }
}

} // verus!
