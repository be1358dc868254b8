//! Paths as text.
//!
//! A path is a string whose components are separated by `/`. A leading
//! separator makes the path absolute. At the end of a path, separators and
//! components that are a single dot do not count: the final component is the
//! last one before them. The rules below are stated on `Seq<char>` and the
//! executable functions are proved against them.

use crate::text::{chars_of, concat, opt_view, slice_text};
use vstd::prelude::*;
use vstd::string::*;

verus! {

/// One more than the index of the last `c` in `s`, or 0 where `s` holds none.
pub open spec fn after_last(s: Seq<char>, c: char) -> nat
    decreases s.len(),
{
    if s.len() == 0 || s.last() == c {
        s.len()
    } else {
        after_last(s.drop_last(), c)
    }
}

/// The character at index `j` is one that does not count at the end of a
/// path: a separator, or a dot that stands right after a separator.
pub open spec fn is_filler(p: Seq<char>, j: int) -> bool {
    p[j] == '/' || (p[j] == '.' && j >= 1 && p[j - 1] == '/')
}

/// The length of `p` once what does not count at its end is left out: the
/// separators that end it, and the single-dot components among them.
pub open spec fn stem_len(p: Seq<char>) -> nat
    decreases p.len(),
{
    if p.len() > 0 && is_filler(p, p.len() - 1) {
        stem_len(p.drop_last())
    } else {
        p.len()
    }
}

/// `p` without what does not count at its end.
pub open spec fn stem(p: Seq<char>) -> Seq<char> {
    p.subrange(0, stem_len(p) as int)
}

/// The index at which the final component of `p` starts.
pub open spec fn name_start(p: Seq<char>) -> nat {
    after_last(stem(p), '/')
}

/// The final component of `p`, empty where `p` is empty or the root.
pub open spec fn final_component(p: Seq<char>) -> Seq<char> {
    p.subrange(name_start(p) as int, stem_len(p) as int)
}

/// A name that can stand for a file: not empty, not `.` and not `..`.
pub open spec fn is_entry_name(n: Seq<char>) -> bool {
    n.len() > 0 && n != seq!['.'] && n != seq!['.', '.']
}

/// A name that is one component: an entry name without a separator.
pub open spec fn is_plain_name(n: Seq<char>) -> bool {
    is_entry_name(n) && !n.contains('/')
}

/// The file name of `p`: its final component where that names an entry.
pub open spec fn file_name_of(p: Seq<char>) -> Option<Seq<char>> {
    if is_entry_name(final_component(p)) {
        Some(final_component(p))
    } else {
        None
    }
}

/// The path of the directory that holds the final component of `p`; none for
/// the empty path and for the root.
pub open spec fn parent_of(p: Seq<char>) -> Option<Seq<char>> {
    if stem_len(p) == 0 {
        None
    } else {
        let head = p.subrange(0, name_start(p) as int);
        if head.len() > 0 && stem_len(head) == 0 {
            Some(seq!['/'])
        } else {
            Some(stem(head))
        }
    }
}

/// Whether `p` starts at the root.
pub open spec fn is_absolute(p: Seq<char>) -> bool {
    p.len() > 0 && p[0] == '/'
}

/// `name` placed under `base`. An absolute `name` stands for itself.
pub open spec fn joined(base: Seq<char>, name: Seq<char>) -> Seq<char> {
    if is_absolute(name) {
        name
    } else if base.len() == 0 || base.last() == '/' {
        base + name
    } else {
        base + seq!['/'] + name
    }
}

/// The extension of the file name of `p`: what follows its last dot. A name
/// without a dot has none, nor has one whose only dot is its first character.
pub open spec fn extension_of(p: Seq<char>) -> Option<Seq<char>> {
    match file_name_of(p) {
        None => None,
        Some(n) => {
            let k = after_last(n, '.');
            if k <= 1 {
                None
            } else {
                Some(n.subrange(k as int, n.len() as int))
            }
        },
    }
}

/// Whether the file name of `p` starts with a dot.
pub open spec fn is_hidden(p: Seq<char>) -> bool {
    match file_name_of(p) {
        None => false,
        Some(n) => n[0] == '.',
    }
}

/// A path in tidy form: no two separators in a row, no separator at the end
/// unless the path is the root itself, and no single-dot component after a
/// separator.
pub open spec fn is_tidy(p: Seq<char>) -> bool {
    &&& forall|i: int| 0 <= i && i + 1 < p.len() ==> !(p[i] == '/' && #[trigger] p[i + 1] == '/')
    &&& (p.len() > 1 ==> p.last() != '/')
    &&& forall|i: int|
        0 <= i && i + 1 < p.len() ==> !(p[i] == '/' && #[trigger] p[i + 1] == '.' && (i + 2
            == p.len() || p[i + 2] == '/'))
}

/// For two paths in resolved form, `path` is `root` or lies below it.
pub open spec fn lies_within(path: Seq<char>, root: Seq<char>) -> bool {
    &&& root.len() > 0
    &&& root.is_prefix_of(path)
    &&& (path.len() == root.len() || root.last() == '/' || path[root.len() as int] == '/')
}

/// What `after_last` finds: a `c` just before the index, and none from it on.
pub proof fn lemma_after_last(s: Seq<char>, c: char)
    ensures
        after_last(s, c) <= s.len(),
        after_last(s, c) > 0 ==> s[after_last(s, c) - 1] == c,
        forall|j: int| after_last(s, c) <= j < s.len() ==> s[j] != c,
        after_last(s, c) == 0 <==> !s.contains(c),
    decreases s.len(),
{
    if s.len() == 0 || s.last() == c {
        if s.len() > 0 {
            assert(s[s.len() - 1] == c);
        }
    } else {
        let t = s.drop_last();
        lemma_after_last(t, c);
        let k = after_last(t, c);
        assert forall|j: int| k <= j < s.len() implies s[j] != c by {
            if j < t.len() {
                assert(t[j] == s[j]);
            }
        }
        if k > 0 {
            assert(t[k - 1] == s[k - 1]);
        } else {
            assert forall|j: int| 0 <= j < s.len() implies s[j] != c by {}
        }
    }
}

/// What `stem_len` finds: from the index on nothing counts, and what stands
/// just before it does.
pub proof fn lemma_stem_len(p: Seq<char>)
    ensures
        stem_len(p) <= p.len(),
        stem_len(p) > 0 ==> !is_filler(p, stem_len(p) - 1),
        forall|j: int| stem_len(p) <= j < p.len() ==> is_filler(p, j),
    decreases p.len(),
{
    if p.len() > 0 && is_filler(p, p.len() - 1) {
        let t = p.drop_last();
        lemma_stem_len(t);
        let k = stem_len(t);
        assert forall|j: int| k <= j < p.len() implies is_filler(p, j) by {
            if j < t.len() {
                assert(is_filler(t, j));
                assert(t[j] == p[j]);
                if j >= 1 {
                    assert(t[j - 1] == p[j - 1]);
                }
            }
        }
        if k > 0 {
            assert(t[k - 1] == p[k - 1]);
            if k >= 2 {
                assert(t[k - 2] == p[k - 2]);
            }
        }
    }
}

/// An index with no `c` from it on, and a `c` just before it or nothing
/// before it, is what `after_last` gives.
pub proof fn lemma_after_last_is(s: Seq<char>, c: char, k: int)
    requires
        0 <= k <= s.len(),
        k > 0 ==> s[k - 1] == c,
        forall|j: int| k <= j < s.len() ==> s[j] != c,
    ensures
        after_last(s, c) == k,
    decreases s.len(),
{
    if s.len() == 0 || s.last() == c {
        if s.len() > 0 && k < s.len() {
            assert(s[s.len() - 1] != c);
        }
    } else {
        let t = s.drop_last();
        assert(k <= t.len()) by {
            if k == s.len() {
                assert(s[k - 1] == c);
            }
        }
        if k > 0 {
            assert(t[k - 1] == s[k - 1]);
        }
        assert forall|j: int| k <= j < t.len() implies t[j] != c by {
            assert(t[j] == s[j]);
        }
        lemma_after_last_is(t, c, k);
    }
}

/// An index from which on nothing counts, with something that counts just
/// before it, is what `stem_len` gives.
pub proof fn lemma_stem_len_is(p: Seq<char>, k: int)
    requires
        0 <= k <= p.len(),
        k > 0 ==> !is_filler(p, k - 1),
        forall|j: int| k <= j < p.len() ==> is_filler(p, j),
    ensures
        stem_len(p) == k,
    decreases p.len(),
{
    if p.len() > 0 && is_filler(p, p.len() - 1) {
        let t = p.drop_last();
        assert(k <= t.len());
        if k > 0 {
            assert(t[k - 1] == p[k - 1]);
            if k >= 2 {
                assert(t[k - 2] == p[k - 2]);
            }
        }
        assert forall|j: int| k <= j < t.len() implies is_filler(t, j) by {
            assert(is_filler(p, j));
            assert(t[j] == p[j]);
            if j >= 1 {
                assert(t[j - 1] == p[j - 1]);
            }
        }
        lemma_stem_len_is(t, k);
    } else {
        if k < p.len() {
            assert(is_filler(p, p.len() - 1));
        }
    }
}

/// The final component holds no separator, and where the path has a file
/// name, that name is one plain component.
pub proof fn lemma_file_name_plain(p: Seq<char>)
    ensures
        name_start(p) <= stem_len(p) <= p.len(),
        !final_component(p).contains('/'),
        file_name_of(p) is Some ==> is_plain_name(file_name_of(p)->0),
        file_name_of(p) is Some ==> parent_of(p) is Some,
{
    lemma_stem_len(p);
    lemma_after_last(stem(p), '/');
    let n = final_component(p);
    assert forall|j: int| 0 <= j < n.len() implies n[j] != '/' by {
        assert(n[j] == stem(p)[name_start(p) + j]);
    }
}

/// A plain name ends in a character that counts: its last character is no
/// separator, and it is no dot unless another character of the name stands
/// before it.
pub proof fn lemma_plain_name_counts(name: Seq<char>)
    requires
        is_plain_name(name),
    ensures
        name.last() != '/',
        name.len() == 1 ==> name[0] != '.',
        forall|j: int| 0 <= j < name.len() ==> name[j] != '/',
{
    assert forall|j: int| 0 <= j < name.len() implies name[j] != '/' by {
        assert(name.contains(name[j]));
    }
    if name.len() == 1 && name[0] == '.' {
        assert(name =~= seq!['.']);
    }
}

/// The file name of a plain name placed under any base is that name.
pub proof fn lemma_file_name_of_joined(base: Seq<char>, name: Seq<char>)
    requires
        is_plain_name(name),
    ensures
        file_name_of(joined(base, name)) == Some(name),
{
    let p = joined(base, name);
    assert(name[0] != '/') by {
        assert(name.contains(name[0]));
    }
    let start = p.len() - name.len();
    assert(p.subrange(start, p.len() as int) =~= name);
    assert forall|j: int| start <= j < p.len() implies p[j] != '/' by {
        assert(p[j] == name[j - start]);
        assert(name.contains(name[j - start]));
    }
    assert(!is_filler(p, p.len() - 1)) by {
        lemma_plain_name_counts(name);
        assert(p[p.len() - 1] == name[name.len() - 1]);
        if name.len() >= 2 {
            assert(p[p.len() - 2] == name[name.len() - 2]);
        }
    }
    lemma_stem_len_is(p, p.len() as int);
    assert(stem(p) =~= p);
    if start > 0 {
        assert(p[start - 1] == '/');
    }
    lemma_after_last_is(p, '/', start);
}

/// The parent of a plain name placed under a tidy base is that base.
pub proof fn lemma_parent_of_joined(base: Seq<char>, name: Seq<char>)
    requires
        is_plain_name(name),
        is_tidy(base),
    ensures
        parent_of(joined(base, name)) == Some(base),
{
    let p = joined(base, name);
    assert(name[0] != '/') by {
        assert(name.contains(name[0]));
    }
    let start = p.len() - name.len();
    assert forall|j: int| start <= j < p.len() implies p[j] != '/' by {
        assert(p[j] == name[j - start]);
        assert(name.contains(name[j - start]));
    }
    assert(!is_filler(p, p.len() - 1)) by {
        lemma_plain_name_counts(name);
        assert(p[p.len() - 1] == name[name.len() - 1]);
        if name.len() >= 2 {
            assert(p[p.len() - 2] == name[name.len() - 2]);
        }
    }
    lemma_stem_len_is(p, p.len() as int);
    assert(stem(p) =~= p);
    if start > 0 {
        assert(p[start - 1] == '/');
    }
    lemma_after_last_is(p, '/', start);
    let head = p.subrange(0, start);
    if base.len() == 0 {
        assert(head =~= base);
        lemma_stem_len_is(head, 0);
        assert(stem(head) =~= base);
    } else if base.last() == '/' {
        assert(base.len() == 1);
        assert(head =~= base);
        lemma_stem_len_is(head, 0);
        assert(base =~= seq!['/']);
    } else {
        assert(head =~= base + seq!['/']);
        let k = base.len() as int;
        assert(head[k - 1] == base[k - 1]);
        assert(!is_filler(head, k - 1)) by {
            if k >= 2 {
                assert(head[k - 2] == base[k - 2]);
                assert(!(base[k - 2] == '/' && base[k - 2 + 1] == '.' && (k - 2 + 2 == base.len()
                    || base[k - 2 + 2] == '/')));
            }
        }
        lemma_stem_len_is(head, k);
        assert(stem(head) =~= base);
    }
}

/// A tidy path with a file name is its file name placed under its parent.
pub proof fn lemma_tidy_path_rebuilds(p: Seq<char>)
    requires
        is_tidy(p),
        file_name_of(p) is Some,
    ensures
        parent_of(p) is Some,
        is_tidy(parent_of(p)->0),
        joined(parent_of(p)->0, file_name_of(p)->0) == p,
{
    lemma_stem_len(p);
    lemma_after_last(stem(p), '/');
    lemma_file_name_plain(p);
    let n = file_name_of(p)->0;
    lemma_plain_name_counts(n);
    let len = p.len() as int;
    assert(stem_len(p) == len) by {
        if stem_len(p) < len {
            assert(is_filler(p, len - 1));
            if p[len - 1] == '/' {
                assert(len == 1);
                assert(stem_len(p) == 0);
            } else {
                assert(p[len - 2] == '/' && p[len - 2 + 1] == '.');
            }
        }
    }
    assert(stem(p) =~= p);
    let start = name_start(p) as int;
    let head = p.subrange(0, start);
    if start == 0 {
        assert(head =~= Seq::<char>::empty());
        lemma_stem_len_is(head, 0);
        assert(stem(head) =~= head);
        assert(joined(stem(head), n) =~= p);
    } else {
        assert(p[start - 1] == '/');
        assert(head[start - 1] == '/');
        if start == 1 {
            lemma_stem_len_is(head, 0);
            assert(joined(seq!['/'], n) =~= p);
        } else {
            let k = start - 1;
            assert(head[k - 1] == p[k - 1]);
            assert(!is_filler(head, k - 1)) by {
                assert(!(p[k - 1] == '/' && p[k - 1 + 1] == '/'));
                if k >= 2 {
                    assert(head[k - 2] == p[k - 2]);
                    assert(!(p[k - 2] == '/' && p[k - 2 + 1] == '.' && (k - 2 + 2 == p.len()
                        || p[k - 2 + 2] == '/')));
                }
            }
            assert(is_filler(head, k));
            lemma_stem_len_is(head, k);
            let par = stem(head);
            assert(par =~= p.subrange(0, k));
            assert(par.last() == p[k - 1]);
            assert(par.last() != '/');
            assert(joined(par, n) =~= p);
            assert forall|i: int| 0 <= i && i + 1 < par.len() implies !(par[i] == '/'
                && #[trigger] par[i + 1] == '/') by {
                assert(par[i] == p[i] && par[i + 1] == p[i + 1]);
            }
            assert forall|i: int| 0 <= i && i + 1 < par.len() implies !(par[i] == '/'
                && #[trigger] par[i + 1] == '.' && (i + 2 == par.len() || par[i + 2] == '/')) by {
                assert(par[i] == p[i] && par[i + 1] == p[i + 1]);
                assert(!(p[i] == '/' && p[i + 1] == '.' && (i + 2 == p.len() || p[i + 2] == '/')));
                if i + 2 < par.len() {
                    assert(par[i + 2] == p[i + 2]);
                }
            }
        }
    }
}

/// Moving an entry into a directory and then moving what arrived there back
/// into the entry's parent names the entry's own path again: for a tidy path
/// `source` and any directory `dest_dir`, the second move's target is `source`.
pub proof fn lemma_move_back_names_source(source: Seq<char>, dest_dir: Seq<char>)
    requires
        is_tidy(source),
        file_name_of(source) is Some,
    ensures
        ({
            let arrived = joined(dest_dir, file_name_of(source)->0);
            &&& file_name_of(arrived) == file_name_of(source)
            &&& parent_of(source) is Some
            &&& joined(parent_of(source)->0, file_name_of(arrived)->0) == source
        }),
{
    lemma_file_name_plain(source);
    lemma_file_name_of_joined(dest_dir, file_name_of(source)->0);
    lemma_tidy_path_rebuilds(source);
}

/// The index after the last `c` among the first `end` characters.
fn after_last_in(chars: &Vec<char>, end: usize, c: char) -> (k: usize)
    requires
        end <= chars.len(),
    ensures
        k == after_last(chars@.subrange(0, end as int), c),
        k <= end,
{
    let mut i: usize = end;
    while i > 0 && chars[i - 1] != c
        invariant
            i <= end <= chars.len(),
            forall|j: int| i <= j < end ==> chars@[j] != c,
        decreases i,
    {
        i = i - 1;
    }
    proof {
        lemma_after_last_is(chars@.subrange(0, end as int), c, i as int);
    }
    i
}

/// The length of the first `end` characters without what does not count at
/// their end.
fn stem_len_in(chars: &Vec<char>, end: usize) -> (k: usize)
    requires
        end <= chars.len(),
    ensures
        k == stem_len(chars@.subrange(0, end as int)),
        k <= end,
{
    let ghost p = chars@.subrange(0, end as int);
    let mut i: usize = end;
    while i > 0 && (chars[i - 1] == '/' || (chars[i - 1] == '.' && i >= 2 && chars[i - 2] == '/'))
        invariant
            i <= end <= chars.len(),
            p == chars@.subrange(0, end as int),
            forall|j: int| i <= j < end ==> is_filler(p, j),
        decreases i,
    {
        assert(p[i - 1] == chars@[i - 1]);
        if i >= 2 {
            assert(p[i - 2] == chars@[i - 2]);
        }
        i = i - 1;
    }
    proof {
        if i > 0 {
            assert(p[i - 1] == chars@[i - 1]);
            if i >= 2 {
                assert(p[i - 2] == chars@[i - 2]);
            }
        }
        lemma_stem_len_is(p, i as int);
    }
    i
}

/// The file name of a path: its final component, unless that is empty, `.`
/// or `..`. Separators and single-dot components at the end of the path are
/// passed over.
pub fn file_name(path: &str) -> (name: Option<String>)
    ensures
        opt_view(name) == file_name_of(path@),
{
    let chars: Vec<char> = chars_of(path);
    let end: usize = stem_len_in(&chars, chars.len());
    assert(chars@.subrange(0, chars.len() as int) =~= path@);
    let start: usize = after_last_in(&chars, end, '/');
    let n: usize = end - start;
    let ghost comp = final_component(path@);
    assert(comp.len() == n);
    assert(forall|j: int| 0 <= j < n ==> comp[j] == chars@[start + j]);
    if n == 0 {
        return None;
    }
    if n == 1 && chars[start] == '.' {
        assert(comp =~= seq!['.']);
        return None;
    }
    if n == 2 && chars[start] == '.' && chars[start + 1] == '.' {
        assert(comp =~= seq!['.', '.']);
        return None;
    }
    assert(comp != seq!['.']) by {
        if comp == seq!['.'] {
            assert(comp[0] == '.');
        }
    }
    assert(comp != seq!['.', '.']) by {
        if comp == seq!['.', '.'] {
            assert(comp[0] == '.' && comp[1] == '.');
        }
    }
    Some(slice_text(path, start, end))
}

/// The directory that holds the final component of a path; none for the
/// empty path and for the root.
pub fn parent(path: &str) -> (dir: Option<String>)
    ensures
        opt_view(dir) == parent_of(path@),
{
    let chars: Vec<char> = chars_of(path);
    let end: usize = stem_len_in(&chars, chars.len());
    assert(chars@.subrange(0, chars.len() as int) =~= path@);
    if end == 0 {
        return None;
    }
    let start: usize = after_last_in(&chars, end, '/');
    let k: usize = stem_len_in(&chars, start);
    let ghost head = path@.subrange(0, start as int);
    assert(head =~= chars@.subrange(0, start as int));
    if start > 0 && k == 0 {
        proof {
            reveal_strlit("/");
            assert("/"@ =~= seq!['/']);
        }
        return Some("/".to_owned());
    }
    let dir: String = slice_text(path, 0, k);
    assert(dir@ =~= stem(head));
    Some(dir)
}

/// `name` placed under `base`, with one separator between them where `base`
/// does not end in one. An absolute `name` stands for itself.
pub fn join(base: &str, name: &str) -> (path: String)
    ensures
        path@ == joined(base@, name@),
{
    let b: Vec<char> = chars_of(base);
    let n: Vec<char> = chars_of(name);
    if n.len() > 0 && n[0] == '/' {
        return name.to_owned();
    }
    if b.len() == 0 || b[b.len() - 1] == '/' {
        return concat(base, name);
    }
    proof {
        reveal_strlit("/");
        assert("/"@ =~= seq!['/']);
    }
    let with_sep: String = concat(base, "/");
    concat(with_sep.as_str(), name)
}

/// The extension of a path's file name: what follows its last dot.
pub fn extension(path: &str) -> (ext: Option<String>)
    ensures
        opt_view(ext) == extension_of(path@),
{
    match file_name(path) {
        None => None,
        Some(name) => {
            let chars: Vec<char> = chars_of(name.as_str());
            let k: usize = after_last_in(&chars, chars.len(), '.');
            assert(chars@.subrange(0, chars.len() as int) =~= name@);
            if k <= 1 {
                None
            } else {
                Some(slice_text(name.as_str(), k, chars.len()))
            }
        },
    }
}

/// Whether `path`, in resolved form, is `root` or lies below it.
pub fn path_lies_within(path: &str, root: &str) -> (inside: bool)
    ensures
        inside == lies_within(path@, root@),
{
    let p: Vec<char> = chars_of(path);
    let r: Vec<char> = chars_of(root);
    if r.len() == 0 || r.len() > p.len() {
        return false;
    }
    let mut i: usize = 0;
    while i < r.len()
        invariant
            p@ == path@,
            r@ == root@,
            i <= r.len() <= p.len(),
            forall|j: int| 0 <= j < i ==> p@[j] == r@[j],
        decreases r.len() - i,
    {
        if p[i] != r[i] {
            assert(!r@.is_prefix_of(p@)) by {
                let head = p@.subrange(0, r@.len() as int);
                assert(head[i as int] == p@[i as int]);
                assert(head != r@);
            }
            return false;
        }
        i = i + 1;
    }
    assert(r@.is_prefix_of(p@)) by {
        assert(p@.subrange(0, r@.len() as int) =~= r@);
    }
    p.len() == r.len() || r[r.len() - 1] == '/' || p[r.len()] == '/'
}

} // verus!
