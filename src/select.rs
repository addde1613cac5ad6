//! Picking the result files out of a set of changed paths, most recent first.
use vstd::prelude::*;

verus! {

/// The last component of a path: what follows its last `/`.
pub open spec fn file_name_of(p: Seq<char>) -> Seq<char>
    decreases p.len(),
{
    if p.len() == 0 {
        p
    } else if p.last() == '/' {
        Seq::empty()
    } else {
        file_name_of(p.drop_last()).push(p.last())
    }
}

pub open spec fn is_digit(c: char) -> bool {
    '0' <= c && c <= '9'
}

/// `s` holds, from position `i`, a stamp `result_<8 digits>_<6 digits>.json`.
pub open spec fn stamp_at(s: Seq<char>, i: int) -> bool {
    &&& 0 <= i && i + 27 <= s.len()
    &&& s.subrange(i, i + 7) == seq!['r', 'e', 's', 'u', 'l', 't', '_']
    &&& forall|k: int| i + 7 <= k < i + 15 ==> is_digit(#[trigger] s[k])
    &&& s[i + 15] == '_'
    &&& forall|k: int| i + 16 <= k < i + 22 ==> is_digit(#[trigger] s[k])
    &&& s.subrange(i + 22, i + 27) == seq!['.', 'j', 's', 'o', 'n']
}

/// `s` is exactly a result stamp: `result_<8 digits>_<6 digits>.json`.
pub open spec fn is_result_name(s: Seq<char>) -> bool {
    s.len() == 27 && stamp_at(s, 0)
}

/// A path is a result file when its file name is exactly a result stamp.
pub open spec fn is_result_path(p: Seq<char>) -> bool {
    is_result_name(file_name_of(p))
}

/// The text of the regular expression that recognises a whole result stamp.
pub open spec fn result_pattern() -> Seq<char> {
    seq![
        '^', 'r', 'e', 's', 'u', 'l', 't', '_', '[', '0', '-', '9', ']', '{', '8', '}', '_', '[', '0',
        '-', '9', ']', '{', '6', '}', '\\', '.', 'j', 's', 'o', 'n', '$',
    ]
}

/// `a` comes strictly before `b` in the order of code points, character by character.
pub open spec fn lex_lt(a: Seq<char>, b: Seq<char>) -> bool
    decreases a.len(),
{
    if b.len() == 0 {
        false
    } else if a.len() == 0 {
        true
    } else if a[0] != b[0] {
        (a[0] as u32) < (b[0] as u32)
    } else {
        lex_lt(a.drop_first(), b.drop_first())
    }
}

/// `a` is at least `b`.
pub open spec fn lex_ge(a: Seq<char>, b: Seq<char>) -> bool {
    !lex_lt(a, b)
}

/// Relies on regex::Regex::new, which compiles this pattern, and on
/// Regex::is_match, which reports whether the pattern matches the haystack;
/// `^` and `$` match only at its start and end, so the whole haystack must be
/// the stamp.
#[verifier::external_body]
fn regex_is_match(pattern: &str, haystack: &str) -> (r: bool)
    requires
        pattern@ == result_pattern(),
    ensures
        r == is_result_name(haystack@),
{
    match regex::Regex::new(pattern) {
        Ok(re) => re.is_match(haystack),
        Err(_) => false,
    }
}

proof fn lemma_file_name_from(p: Seq<char>, k: int)
    requires
        0 <= k <= p.len(),
        k == 0 || p[k - 1] == '/',
        forall|j: int| k <= j < p.len() ==> p[j] != '/',
    ensures
        file_name_of(p) == p.subrange(k, p.len() as int),
    decreases p.len(),
{
    if p.len() == k {
        if p.len() > 0 {
            assert(p.last() == '/');
        }
        assert(p.subrange(k, p.len() as int) =~= Seq::<char>::empty());
    } else {
        let q = p.drop_last();
        assert forall|j: int| k <= j < q.len() implies q[j] != '/' by {
            assert(q[j] == p[j]);
        }
        if k > 0 {
            assert(q[k - 1] == p[k - 1]);
        }
        lemma_file_name_from(q, k);
        assert(p.subrange(k, p.len() as int) =~= q.subrange(k, q.len() as int).push(p.last()));
    }
}

/// The file name of `path`: what follows its last `/`.
pub fn file_name(path: &str) -> (r: &str)
    ensures
        r@ == file_name_of(path@),
{
    let n = path.unicode_len();
    let mut k: usize = n;
    while k > 0 && path.get_char(k - 1) != '/'
        invariant
            n == path@.len(),
            0 <= k <= n,
            forall|j: int| k <= j < n ==> path@[j] != '/',
        decreases k,
    {
        k = k - 1;
    }
    proof {
        lemma_file_name_from(path@, k as int);
    }
    path.substring_char(k, n)
}

/// Whether `path` names a result file: its file name is exactly
/// `result_<8 digits>_<6 digits>.json`.
pub fn is_result_file(path: &str) -> (r: bool)
    ensures
        r == is_result_path(path@),
{
    let name = file_name(path);
    let pattern = "^result_[0-9]{8}_[0-9]{6}\\.json$";
    proof {
        reveal_strlit("^result_[0-9]{8}_[0-9]{6}\\.json$");
        assert(pattern@ =~= result_pattern());
    }
    regex_is_match(pattern, name)
}

/// Whether `a` comes strictly before `b`, comparing code point by code point.
pub fn name_lt(a: &str, b: &str) -> (r: bool)
    ensures
        r == lex_lt(a@, b@),
{
    let na = a.unicode_len();
    let nb = b.unicode_len();
    let mut i: usize = 0;
    assert(a@.skip(0) =~= a@);
    assert(b@.skip(0) =~= b@);
    while i < na && i < nb && a.get_char(i) == b.get_char(i)
        invariant
            na == a@.len(),
            nb == b@.len(),
            i <= na,
            i <= nb,
            a@.subrange(0, i as int) == b@.subrange(0, i as int),
            lex_lt(a@, b@) == lex_lt(a@.skip(i as int), b@.skip(i as int)),
        decreases na - i,
    {
        proof {
            let sa = a@.skip(i as int);
            let sb = b@.skip(i as int);
            assert(sa.drop_first() =~= a@.skip(i + 1));
            assert(sb.drop_first() =~= b@.skip(i + 1));
            assert(a@.subrange(0, i + 1) =~= a@.subrange(0, i as int).push(a@[i as int]));
            assert(b@.subrange(0, i + 1) =~= b@.subrange(0, i as int).push(b@[i as int]));
        }
        i = i + 1;
    }
    if i == nb {
        false
    } else if i == na {
        true
    } else {
        (a.get_char(i) as u32) < (b.get_char(i) as u32)
    }
}

/// The views of a sequence of strings.
pub open spec fn views(s: Seq<String>) -> Seq<Seq<char>> {
    s.map_values(|x: String| x@)
}

/// The result files among `paths`, in their order.
pub open spec fn result_paths(paths: Seq<Seq<char>>) -> Seq<Seq<char>> {
    paths.filter(result_path_pred())
}

pub open spec fn result_path_pred() -> spec_fn(Seq<char>) -> bool {
    |p: Seq<char>| is_result_path(p)
}

/// Paths ordered by file name, greatest first.
pub open spec fn sorted_by_name_desc(s: Seq<Seq<char>>) -> bool {
    forall|i: int, j: int|
        0 <= i < j < s.len() ==> lex_ge(file_name_of(#[trigger] s[i]), file_name_of(#[trigger] s[j]))
}

/// `a` stands before `b` in `s`.
pub open spec fn comes_before(s: Seq<Seq<char>>, a: Seq<char>, b: Seq<char>) -> bool {
    exists|x: int, y: int| 0 <= x < y < s.len() && s[x] == a && s[y] == b
}

/// Paths of `s` with equal file names stand in the order they have in `input`.
pub open spec fn keeps_order_of_ties(s: Seq<Seq<char>>, input: Seq<Seq<char>>) -> bool {
    forall|i: int, j: int|
        0 <= i < j < s.len() && file_name_of(#[trigger] s[i]) == file_name_of(#[trigger] s[j])
            ==> comes_before(input, s[i], s[j])
}

pub(crate) proof fn lemma_lex_irreflexive(a: Seq<char>)
    ensures
        !lex_lt(a, a),
    decreases a.len(),
{
    if a.len() > 0 {
        lemma_lex_irreflexive(a.drop_first());
    }
}

proof fn lemma_lex_transitive(a: Seq<char>, b: Seq<char>, c: Seq<char>)
    requires
        lex_lt(a, b),
        lex_lt(b, c),
    ensures
        lex_lt(a, c),
    decreases a.len(),
{
    if a.len() > 0 && a[0] == b[0] && b[0] == c[0] {
        lemma_lex_transitive(a.drop_first(), b.drop_first(), c.drop_first());
    }
}

proof fn lemma_insert_sorted(v: Seq<Seq<char>>, pos: int, x: Seq<char>)
    requires
        0 <= pos <= v.len(),
        sorted_by_name_desc(v),
        forall|k: int| 0 <= k < pos ==> lex_ge(file_name_of(#[trigger] v[k]), file_name_of(x)),
        pos < v.len() ==> lex_lt(file_name_of(v[pos]), file_name_of(x)),
    ensures
        sorted_by_name_desc(v.insert(pos, x)),
{
    let t = v.insert(pos, x);
    v.insert_ensures(pos, x);
    assert forall|i: int, j: int| 0 <= i < j < t.len() implies lex_ge(
        file_name_of(#[trigger] t[i]),
        file_name_of(#[trigger] t[j]),
    ) by {
        if j > pos {
            assert(t[j] == v[j - 1]);
            if i < pos {
                assert(t[i] == v[i]);
            } else if i > pos {
                assert(t[i] == v[i - 1]);
            } else {
                if lex_lt(file_name_of(x), file_name_of(v[j - 1])) {
                    if j - 1 == pos {
                        lemma_lex_transitive(file_name_of(v[pos]), file_name_of(x), file_name_of(v[pos]));
                        lemma_lex_irreflexive(file_name_of(v[pos]));
                    } else {
                        lemma_lex_transitive(file_name_of(v[pos]), file_name_of(x), file_name_of(v[j - 1]));
                    }
                }
            }
        } else if j == pos {
            assert(t[i] == v[i]);
        } else {
            assert(t[i] == v[i]);
            assert(t[j] == v[j]);
        }
    }
}

proof fn lemma_insert_multiset(v: Seq<Seq<char>>, pos: int, x: Seq<char>)
    requires
        0 <= pos <= v.len(),
    ensures
        v.insert(pos, x).to_multiset() =~= v.to_multiset().insert(x),
{
    let t = v.insert(pos, x);
    assert(t.remove(pos) =~= v);
    t.to_multiset_ensures();
    assert(t[pos] == x);
    assert(t.contains(x));
}

proof fn lemma_insert_keeps_ties(v: Seq<Seq<char>>, pos: int, x: Seq<char>, f: Seq<Seq<char>>)
    requires
        0 <= pos <= v.len(),
        keeps_order_of_ties(v, f),
        v.to_multiset() == f.to_multiset(),
        pos < v.len() ==> lex_lt(file_name_of(v[pos]), file_name_of(x)),
        sorted_by_name_desc(v),
    ensures
        keeps_order_of_ties(v.insert(pos, x), f.push(x)),
{
    let t = v.insert(pos, x);
    let g = f.push(x);
    v.insert_ensures(pos, x);
    v.to_multiset_ensures();
    f.to_multiset_ensures();
    assert forall|i: int, j: int|
        0 <= i < j < t.len() && file_name_of(#[trigger] t[i]) == file_name_of(#[trigger] t[j])
            implies comes_before(g, t[i], t[j]) by {
        if i != pos && j != pos {
            let i2 = if i < pos { i } else { i - 1 };
            let j2 = if j < pos { j } else { j - 1 };
            assert(t[i] == v[i2]);
            assert(t[j] == v[j2]);
            assert(comes_before(f, v[i2], v[j2]));
            let (a, b) = choose|a: int, b: int| 0 <= a < b < f.len() && f[a] == v[i2] && f[b] == v[j2];
            assert(g[a] == f[a] && g[b] == f[b]);
        } else if j == pos {
            assert(t[i] == v[i]);
            assert(v.contains(v[i]));
            assert(f.to_multiset().count(v[i]) > 0);
            assert(f.contains(v[i]));
            let a = choose|a: int| 0 <= a < f.len() && f[a] == v[i];
            assert(g[a] == f[a]);
            assert(g[f.len() as int] == x);
        } else {
            assert(t[j] == v[j - 1]);
            if j - 1 == pos {
                lemma_lex_irreflexive(file_name_of(x));
            } else {
                assert(lex_ge(file_name_of(v[pos]), file_name_of(v[j - 1])));
                if lex_lt(file_name_of(x), file_name_of(v[j - 1])) {
                    lemma_lex_transitive(file_name_of(v[pos]), file_name_of(x), file_name_of(v[j - 1]));
                }
                lemma_lex_irreflexive(file_name_of(x));
            }
        }
    }
}

proof fn lemma_push_keeps_ties(v: Seq<Seq<char>>, f: Seq<Seq<char>>, x: Seq<char>)
    requires
        keeps_order_of_ties(v, f),
    ensures
        keeps_order_of_ties(v, f.push(x)),
{
    let g = f.push(x);
    assert forall|i: int, j: int|
        0 <= i < j < v.len() && file_name_of(#[trigger] v[i]) == file_name_of(#[trigger] v[j])
            implies comes_before(g, v[i], v[j]) by {
        let (a, b) = choose|a: int, b: int| 0 <= a < b < f.len() && f[a] == v[i] && f[b] == v[j];
        assert(g[a] == f[a] && g[b] == f[b]);
    }
}

/// The result files among `updated_file_paths`, ordered by file name, the
/// greatest (the most recent stamp) first; paths with equal file names keep
/// their order.
pub fn filter_and_sort_result_files(updated_file_paths: &Vec<String>) -> (r: Vec<String>)
    ensures
        views(r@).to_multiset() == result_paths(views(updated_file_paths@)).to_multiset(),
        sorted_by_name_desc(views(r@)),
        keeps_order_of_ties(views(r@), result_paths(views(updated_file_paths@))),
{
    let mut r: Vec<String> = Vec::new();
    let mut i: usize = 0;
    assert(views(updated_file_paths@.take(0)) =~= Seq::<Seq<char>>::empty());
    assert(views(r@) =~= Seq::<Seq<char>>::empty());
    proof {
        broadcast use vstd::seq_lib::group_seq_properties;

        assert(result_paths(Seq::<Seq<char>>::empty()) =~= Seq::<Seq<char>>::empty());
    }
    while i < updated_file_paths.len()
        invariant
            i <= updated_file_paths.len(),
            views(r@).to_multiset() == result_paths(views(updated_file_paths@.take(i as int))).to_multiset(),
            sorted_by_name_desc(views(r@)),
            keeps_order_of_ties(views(r@), result_paths(views(updated_file_paths@.take(i as int)))),
        decreases updated_file_paths.len() - i,
    {
        let p = &updated_file_paths[i];
        proof {
            assert(views(updated_file_paths@.take(i + 1)) =~= views(updated_file_paths@.take(i as int)).push(p@));
            let before = views(updated_file_paths@.take(i as int));
            before.lemma_filter_push(p@, result_path_pred());
            result_paths(before).to_multiset_ensures();
            lemma_push_keeps_ties(views(r@), result_paths(before), p@);
        }
        if is_result_file(p.as_str()) {
            let name = file_name(p.as_str());
            let mut pos: usize = 0;
            while pos < r.len() && !name_lt(file_name(r[pos].as_str()), name)
                invariant
                    pos <= r.len(),
                    name@ == file_name_of(p@),
                    forall|k: int| 0 <= k < pos ==> lex_ge(file_name_of(#[trigger] views(r@)[k]), name@),
                decreases r.len() - pos,
            {
                pos = pos + 1;
            }
            let item = p.clone();
            proof {
                lemma_insert_keeps_ties(
                    views(r@),
                    pos as int,
                    p@,
                    result_paths(views(updated_file_paths@.take(i as int))),
                );
                lemma_insert_sorted(views(r@), pos as int, p@);
                lemma_insert_multiset(views(r@), pos as int, p@);
                assert(views(r@.insert(pos as int, item)) =~= views(r@).insert(pos as int, p@));
            }
            r.insert(pos, item);
        }
        i = i + 1;
    }
    assert(updated_file_paths@.take(i as int) =~= updated_file_paths@);
    r
}

} // verus!
