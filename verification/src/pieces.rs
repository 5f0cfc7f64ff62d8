//! Cutting text into pieces and putting pieces back together: splitting on a
//! separator, dropping empty pieces, joining with a separator, numbers as text.
use vstd::prelude::*;

use crate::seqs::{lemma_take_all, lemma_take_step, nonempty_pred};
use crate::text::{
    chars_of, eq_chars, has_char, is_whitespace, is_ws, slice_chars, string_of, trim, trim_chars, trim_end, trim_start,
};

verus! {

/// The texts held by a sequence of character vectors.
pub open spec fn texts(v: Seq<Vec<char>>) -> Seq<Seq<char>> {
    v.map_values(|x: Vec<char>| x@)
}

/// Pushing a vector pushes its text.
pub proof fn lemma_texts_push(v: Seq<Vec<char>>, x: Vec<char>)
    ensures
        texts(v.push(x)) == texts(v).push(x@),
{
    assert(texts(v.push(x)) =~= texts(v).push(x@));
}

/// The separator test: whitespace when `by_ws`, else the character `c`.
pub open spec fn sep_pred(by_ws: bool, c: char) -> spec_fn(char) -> bool {
    |x: char| if by_ws { is_ws(x) } else { x == c }
}

/// `s` cut at every character that `p` accepts. The separators are dropped and
/// empty pieces are kept, so there is always at least one piece (what `str::split` yields).
pub open spec fn split_when(s: Seq<char>, p: spec_fn(char) -> bool) -> Seq<Seq<char>>
    decreases s.len(),
{
    if s.len() == 0 {
        seq![Seq::empty()]
    } else {
        let q = split_when(s.drop_last(), p);
        if p(s.last()) {
            q.push(Seq::empty())
        } else {
            q.update(q.len() - 1, q.last().push(s.last()))
        }
    }
}

/// The whitespace-separated words of `s` (what `str::split_whitespace` yields).
pub open spec fn words(s: Seq<char>) -> Seq<Seq<char>> {
    split_when(s, sep_pred(true, ' ')).filter(nonempty_pred())
}

/// The pieces written one after another with `sep` between neighbours (what `join` returns).
pub open spec fn join(parts: Seq<Seq<char>>, sep: Seq<char>) -> Seq<char>
    decreases parts.len(),
{
    if parts.len() == 0 {
        Seq::empty()
    } else if parts.len() == 1 {
        parts[0]
    } else {
        join(parts.drop_last(), sep) + sep + parts.last()
    }
}

/// The test "is not `c`".
pub open spec fn other_than(c: char) -> spec_fn(char) -> bool {
    |x: char| x != c
}

/// `s` with every character that `p` accepts replaced by `r`.
pub open spec fn replace_when(s: Seq<char>, p: spec_fn(char) -> bool, r: char) -> Seq<char> {
    s.map_values(|x: char| if p(x) { r } else { x })
}

/// There is always at least one piece.
pub proof fn lemma_split_nonempty(s: Seq<char>, p: spec_fn(char) -> bool)
    ensures
        split_when(s, p).len() >= 1,
    decreases s.len(),
{
    if s.len() > 0 {
        lemma_split_nonempty(s.drop_last(), p);
    }
}

/// No piece holds a separator.
pub proof fn lemma_split_pieces_clean(s: Seq<char>, p: spec_fn(char) -> bool)
    ensures
        forall|k: int, j: int|
            0 <= k < split_when(s, p).len() && 0 <= j < split_when(s, p)[k].len() ==> !p(
                #[trigger] split_when(s, p)[k][j],
            ),
    decreases s.len(),
{
    if s.len() > 0 {
        lemma_split_pieces_clean(s.drop_last(), p);
        lemma_split_nonempty(s.drop_last(), p);
        let q = split_when(s.drop_last(), p);
        if !p(s.last()) {
            let last = q.last().push(s.last());
            assert forall|k: int, j: int|
                0 <= k < split_when(s, p).len() && 0 <= j < split_when(s, p)[k].len() implies !p(
                #[trigger] split_when(s, p)[k][j],
            ) by {
                if k == q.len() - 1 {
                    if j < last.len() - 1 {
                        assert(last[j] == q[k][j]);
                    }
                } else {
                    assert(split_when(s, p)[k] == q[k]);
                }
            }
        } else {
            assert forall|k: int, j: int|
                0 <= k < split_when(s, p).len() && 0 <= j < split_when(s, p)[k].len() implies !p(
                #[trigger] split_when(s, p)[k][j],
            ) by {
                if k < q.len() {
                    assert(split_when(s, p)[k] == q[k]);
                }
            }
        }
    }
}

/// Text whose only whitespace is single spaces between other characters: none at
/// either end and no two in a row.
pub open spec fn single_spaced(t: Seq<char>) -> bool {
    forall|i: int|
        0 <= i < t.len() && is_ws(#[trigger] t[i]) ==> t[i] == ' ' && 0 < i < t.len() - 1 && t[i + 1]
            != ' '
}

/// Words joined by single spaces are single spaced.
pub proof fn lemma_words_single_spaced(s: Seq<char>)
    ensures
        single_spaced(join(words(s), " "@)),
{
    let pieces = split_when(s, sep_pred(true, ' '));
    lemma_split_pieces_clean(s, sep_pred(true, ' '));
    let ws = words(s);
    assert forall|k: int| 0 <= k < ws.len() implies #[trigger] ws[k].len() > 0 && (forall|j: int|
        0 <= j < ws[k].len() ==> !is_ws(#[trigger] ws[k][j])) by {
        assert(ws.contains(ws[k]));
        pieces.lemma_filter_contains_rev(nonempty_pred(), ws[k]);
        let m = choose|m: int| 0 <= m < pieces.len() && pieces[m] == ws[k];
        pieces.lemma_filter_pred(nonempty_pred(), k);
        assert forall|j: int| 0 <= j < ws[k].len() implies !is_ws(#[trigger] ws[k][j]) by {
            assert(pieces[m][j] == ws[k][j]);
        }
    }
    lemma_join_single_spaced(ws);
}

/// Non-empty parts without whitespace, joined by single spaces, are single spaced.
pub proof fn lemma_join_single_spaced(parts: Seq<Seq<char>>)
    requires
        forall|k: int| 0 <= k < parts.len() ==> #[trigger] parts[k].len() > 0 && (forall|j: int|
            0 <= j < parts[k].len() ==> !is_ws(#[trigger] parts[k][j])),
    ensures
        single_spaced(join(parts, " "@)),
        parts.len() > 0 ==> join(parts, " "@).len() > 0,
    decreases parts.len(),
{
    reveal_strlit(" ");
    if parts.len() == 1 {
        assert(parts[0].len() > 0);
        assert forall|i: int| 0 <= i < parts[0].len() implies !is_ws(#[trigger] parts[0][i]) by {}
    } else if parts.len() > 1 {
        let a = join(parts.drop_last(), " "@);
        let b = parts.last();
        assert(parts[parts.len() - 1] == b);
        assert(b.len() > 0);
        lemma_join_single_spaced(parts.drop_last());
        let t = a + " "@ + b;
        assert(join(parts, " "@) == t);
        assert forall|i: int| 0 <= i < t.len() && is_ws(#[trigger] t[i]) implies t[i] == ' ' && 0 < i
            < t.len() - 1 && t[i + 1] != ' ' by {
            if i < a.len() {
                assert(t[i] == a[i]);
                if i + 1 < a.len() {
                    assert(t[i + 1] == a[i + 1]);
                }
            } else if i == a.len() {
                assert(t[i + 1] == b[0]);
                assert(!is_ws(b[0]));
            } else {
                assert(t[i] == b[i - a.len() - 1]);
                assert(!is_ws(b[i - a.len() - 1]));
            }
        }
    }
}

/// Every character of `s` passes `q`.
pub open spec fn all_chars(s: Seq<char>, q: spec_fn(char) -> bool) -> bool {
    forall|i: int| 0 <= i < s.len() ==> q(#[trigger] s[i])
}

/// Trimming keeps only characters of the text.
pub proof fn lemma_trim_all_chars(s: Seq<char>, q: spec_fn(char) -> bool)
    requires
        all_chars(s, q),
    ensures
        all_chars(trim(s), q),
{
    lemma_trim_start_all_chars(s, q);
    lemma_trim_end_all_chars(trim_start(s), q);
}

proof fn lemma_trim_start_all_chars(s: Seq<char>, q: spec_fn(char) -> bool)
    requires
        all_chars(s, q),
    ensures
        all_chars(trim_start(s), q),
    decreases s.len(),
{
    if s.len() > 0 && is_ws(s[0]) {
        assert forall|i: int| 0 <= i < s.drop_first().len() implies q(#[trigger] s.drop_first()[i]) by {
            assert(s.drop_first()[i] == s[i + 1]);
        }
        lemma_trim_start_all_chars(s.drop_first(), q);
    }
}

proof fn lemma_trim_end_all_chars(s: Seq<char>, q: spec_fn(char) -> bool)
    requires
        all_chars(s, q),
    ensures
        all_chars(trim_end(s), q),
    decreases s.len(),
{
    if s.len() > 0 && is_ws(s.last()) {
        assert forall|i: int| 0 <= i < s.drop_last().len() implies q(#[trigger] s.drop_last()[i]) by {
            assert(s.drop_last()[i] == s[i]);
        }
        lemma_trim_end_all_chars(s.drop_last(), q);
    }
}

/// Every piece of a split holds only characters of the text.
pub proof fn lemma_split_all_chars(s: Seq<char>, p: spec_fn(char) -> bool, q: spec_fn(char) -> bool)
    requires
        all_chars(s, q),
    ensures
        forall|k: int| 0 <= k < split_when(s, p).len() ==> all_chars(#[trigger] split_when(s, p)[k], q),
    decreases s.len(),
{
    if s.len() > 0 {
        assert forall|i: int| 0 <= i < s.drop_last().len() implies q(#[trigger] s.drop_last()[i]) by {
            assert(s.drop_last()[i] == s[i]);
        }
        lemma_split_all_chars(s.drop_last(), p, q);
        lemma_split_nonempty(s.drop_last(), p);
        let q0 = split_when(s.drop_last(), p);
        assert(q(s[s.len() - 1]));
        assert forall|k: int| 0 <= k < split_when(s, p).len() implies all_chars(
            #[trigger] split_when(s, p)[k],
            q,
        ) by {
            if k < q0.len() - 1 || (k == q0.len() - 1 && p(s.last())) {
                assert(split_when(s, p)[k] == q0[k]);
            } else if k == q0.len() - 1 {
                let last = q0.last().push(s.last());
                assert(split_when(s, p)[k] == last);
                assert(all_chars(q0[k], q));
                assert forall|j: int| 0 <= j < last.len() implies q(#[trigger] last[j]) by {
                    if j < last.len() - 1 {
                        assert(last[j] == q0[k][j]);
                    }
                }
            } else {
                assert(split_when(s, p)[k] == Seq::<char>::empty());
            }
        }
    }
}

/// Words of a text hold only its characters, joined by single spaces.
pub proof fn lemma_words_join_all_chars(s: Seq<char>, q: spec_fn(char) -> bool)
    requires
        all_chars(s, q),
        q(' '),
    ensures
        all_chars(join(words(s), " "@), q),
{
    let pieces = split_when(s, sep_pred(true, ' '));
    lemma_split_all_chars(s, sep_pred(true, ' '), q);
    let ws = words(s);
    assert forall|k: int| 0 <= k < ws.len() implies all_chars(#[trigger] ws[k], q) by {
        assert(ws.contains(ws[k]));
        pieces.lemma_filter_contains_rev(nonempty_pred(), ws[k]);
        let m = choose|m: int| 0 <= m < pieces.len() && pieces[m] == ws[k];
        assert(all_chars(pieces[m], q));
    }
    lemma_join_all_chars(ws, q);
}

/// Parts that hold only characters passing `q`, joined by single spaces (which pass
/// it too), hold only such characters.
pub proof fn lemma_join_all_chars(parts: Seq<Seq<char>>, q: spec_fn(char) -> bool)
    requires
        forall|k: int| 0 <= k < parts.len() ==> all_chars(#[trigger] parts[k], q),
        q(' '),
    ensures
        all_chars(join(parts, " "@), q),
    decreases parts.len(),
{
    reveal_strlit(" ");
    if parts.len() == 1 {
        assert(all_chars(parts[0], q));
    } else if parts.len() > 1 {
        let a = join(parts.drop_last(), " "@);
        let b = parts.last();
        assert(parts[parts.len() - 1] == b);
        assert(all_chars(b, q));
        assert forall|k: int| 0 <= k < parts.drop_last().len() implies all_chars(
            #[trigger] parts.drop_last()[k],
            q,
        ) by {
            assert(parts.drop_last()[k] == parts[k]);
        }
        lemma_join_all_chars(parts.drop_last(), q);
        let t = a + " "@ + b;
        assert(join(parts, " "@) == t);
        assert forall|i: int| 0 <= i < t.len() implies q(#[trigger] t[i]) by {
            if i < a.len() {
                assert(t[i] == a[i]);
            } else if i == a.len() {
            } else {
                assert(t[i] == b[i - a.len() - 1]);
            }
        }
    }
}

/// Splits `v` at each separator (whitespace when `by_ws`, else `c`).
pub fn split_chars(v: &[char], by_ws: bool, c: char) -> (r: Vec<Vec<char>>)
    ensures
        texts(r@) == split_when(v@, sep_pred(by_ws, c)),
{
    let ghost p = sep_pred(by_ws, c);
    let mut out: Vec<Vec<char>> = Vec::new();
    let mut cur: Vec<char> = Vec::new();
    let mut i: usize = 0;
    proof {
        assert(v@.take(0) =~= Seq::<char>::empty());
        assert(texts(out@).push(cur@) =~= seq![Seq::<char>::empty()]);
    }
    while i < v.len()
        invariant
            i <= v.len(),
            p == sep_pred(by_ws, c),
            texts(out@).push(cur@) == split_when(v@.take(i as int), p),
        decreases v.len() - i,
    {
        let ch = v[i];
        proof {
            lemma_take_step(v@, i as int);
            lemma_split_nonempty(v@.take(i as int), p);
        }
        let ghost q = split_when(v@.take(i as int), p);
        let sep = if by_ws {
            is_whitespace(ch)
        } else {
            ch == c
        };
        assert(sep == p(ch));
        if sep {
            proof {
                lemma_texts_push(out@, cur);
            }
            out.push(cur);
            cur = Vec::new();
            proof {
                assert(texts(out@).push(cur@) =~= q.push(Seq::empty()));
            }
        } else {
            cur.push(ch);
            proof {
                assert(texts(out@).push(cur@) =~= q.update(q.len() - 1, q.last().push(ch)));
            }
        }
        i += 1;
    }
    proof {
        lemma_take_all(v@);
        lemma_texts_push(out@, cur);
    }
    out.push(cur);
    out
}

/// Drops the empty texts.
pub fn keep_nonempty(v: Vec<Vec<char>>) -> (r: Vec<Vec<char>>)
    ensures
        texts(r@) == texts(v@).filter(nonempty_pred()),
{
    let mut r: Vec<Vec<char>> = Vec::new();
    let mut i: usize = 0;
    while i < v.len()
        invariant
            i <= v.len(),
            texts(r@) == texts(v@).take(i as int).filter(nonempty_pred()),
        decreases v.len() - i,
    {
        proof {
            lemma_take_step(texts(v@), i as int);
            texts(v@).take(i as int).lemma_filter_push(texts(v@)[i as int], nonempty_pred());
            assert(texts(v@).take(i as int).push(texts(v@)[i as int]) == texts(v@).take(
                i as int + 1,
            ));
        }
        if v[i].len() > 0 {
            let x = slice_chars(&v[i], 0, v[i].len());
            assert(x@ =~= v@[i as int]@);
            proof {
                lemma_texts_push(r@, x);
            }
            r.push(x);
        }
        i += 1;
    }
    proof {
        lemma_take_all(texts(v@));
    }
    r
}

/// Trims each text.
pub fn trim_each(v: Vec<Vec<char>>) -> (r: Vec<Vec<char>>)
    ensures
        texts(r@) == texts(v@).map_values(|x: Seq<char>| trim(x)),
{
    let mut r: Vec<Vec<char>> = Vec::new();
    let mut i: usize = 0;
    while i < v.len()
        invariant
            i <= v.len(),
            texts(r@) == texts(v@).take(i as int).map_values(|x: Seq<char>| trim(x)),
        decreases v.len() - i,
    {
        let x = trim_chars(&v[i]);
        proof {
            lemma_texts_push(r@, x);
            lemma_take_step(texts(v@), i as int);
            assert(texts(v@).take(i as int + 1).map_values(|x: Seq<char>| trim(x)) =~= texts(
                v@,
            ).take(i as int).map_values(|x: Seq<char>| trim(x)).push(trim(v@[i as int]@)));
        }
        r.push(x);
        i += 1;
    }
    proof {
        lemma_take_all(texts(v@));
    }
    r
}

/// The whitespace-separated words of `v`.
pub fn words_of(v: &[char]) -> (r: Vec<Vec<char>>)
    ensures
        texts(r@) == words(v@),
{
    let parts = split_chars(v, true, ' ');
    keep_nonempty(parts)
}

/// Appends `b` to `a`.
pub fn append_chars(a: &mut Vec<char>, b: &[char])
    ensures
        final(a)@ == old(a)@ + b@,
{
    let mut j: usize = 0;
    let ghost a0 = a@;
    while j < b.len()
        invariant
            j <= b.len(),
            a@ == a0 + b@.take(j as int),
        decreases b.len() - j,
    {
        a.push(b[j]);
        proof {
            lemma_take_step(b@, j as int);
            assert(a0 + b@.take(j as int + 1) =~= (a0 + b@.take(j as int)).push(b@[j as int]));
        }
        j += 1;
    }
    proof {
        lemma_take_all(b@);
    }
}

/// The pieces joined with `sep` between neighbours.
pub fn join_chars(parts: &Vec<Vec<char>>, sep: &[char]) -> (r: Vec<char>)
    ensures
        r@ == join(texts(parts@), sep@),
{
    let mut r: Vec<char> = Vec::new();
    let mut i: usize = 0;
    proof {
        assert(texts(parts@).take(0) =~= Seq::<Seq<char>>::empty());
    }
    while i < parts.len()
        invariant
            i <= parts.len(),
            r@ == join(texts(parts@).take(i as int), sep@),
        decreases parts.len() - i,
    {
        proof {
            lemma_take_step(texts(parts@), i as int);
        }
        let ghost t = texts(parts@).take(i as int + 1);
        assert(t.drop_last() =~= texts(parts@).take(i as int));
        if i > 0 {
            append_chars(&mut r, sep);
        } else {
            assert(t.len() == 1);
        }
        append_chars(&mut r, &parts[i]);
        i += 1;
    }
    proof {
        lemma_take_all(texts(parts@));
    }
    r
}

/// `v` with each of the characters in `from` replaced by `to`.
pub fn replace_any(v: &[char], from: &[char], to: char) -> (r: Vec<char>)
    ensures
        r@ == replace_when(v@, |x: char| from@.contains(x), to),
{
    let ghost p = |x: char| from@.contains(x);
    let mut r: Vec<char> = Vec::new();
    let mut i: usize = 0;
    while i < v.len()
        invariant
            i <= v.len(),
            p == (|x: char| from@.contains(x)),
            r@ == replace_when(v@.take(i as int), p, to),
        decreases v.len() - i,
    {
        proof {
            lemma_take_step(v@, i as int);
        }
        let hit = has_char(from, v[i]);
        if hit {
            r.push(to);
        } else {
            r.push(v[i]);
        }
        assert(replace_when(v@.take(i as int + 1), p, to) =~= replace_when(
            v@.take(i as int),
            p,
            to,
        ).push(if p(v@[i as int]) { to } else { v@[i as int] }));
        i += 1;
    }
    proof {
        lemma_take_all(v@);
    }
    r
}

/// The texts of a sequence of strings.
pub open spec fn string_views(v: Seq<String>) -> Seq<Seq<char>> {
    v.map_values(|x: String| x@)
}

/// Pushing a string pushes its text.
pub proof fn lemma_string_views_push(v: Seq<String>, x: String)
    ensures
        string_views(v.push(x)) == string_views(v).push(x@),
{
    assert(string_views(v.push(x)) =~= string_views(v).push(x@));
}

/// The texts as strings.
pub fn strings_of(v: &Vec<Vec<char>>) -> (r: Vec<String>)
    ensures
        string_views(r@) == texts(v@),
{
    let mut r: Vec<String> = Vec::new();
    let mut i: usize = 0;
    while i < v.len()
        invariant
            i <= v.len(),
            string_views(r@) == texts(v@).take(i as int),
        decreases v.len() - i,
    {
        let s = string_of(&v[i]);
        proof {
            lemma_string_views_push(r@, s);
            lemma_take_step(texts(v@), i as int);
        }
        r.push(s);
        assert(string_views(r@) =~= texts(v@).take(i as int + 1));
        i += 1;
    }
    proof {
        lemma_take_all(texts(v@));
    }
    r
}

/// The strings as character vectors.
pub fn chars_of_all(v: &Vec<String>) -> (r: Vec<Vec<char>>)
    ensures
        texts(r@) == string_views(v@),
{
    let mut r: Vec<Vec<char>> = Vec::new();
    let mut i: usize = 0;
    while i < v.len()
        invariant
            i <= v.len(),
            texts(r@) == string_views(v@).take(i as int),
        decreases v.len() - i,
    {
        let c = chars_of(v[i].as_str());
        proof {
            lemma_texts_push(r@, c);
            lemma_take_step(string_views(v@), i as int);
        }
        r.push(c);
        assert(texts(r@) =~= string_views(v@).take(i as int + 1));
        i += 1;
    }
    proof {
        lemma_take_all(string_views(v@));
    }
    r
}

/// A copy of the strings.
pub fn clone_strings(v: &Vec<String>) -> (r: Vec<String>)
    ensures
        string_views(r@) == string_views(v@),
{
    let c = chars_of_all(v);
    strings_of(&c)
}

/// Whether one of the texts equals `k`.
pub fn has_text(v: &Vec<Vec<char>>, k: &[char]) -> (r: bool)
    ensures
        r == texts(v@).contains(k@),
{
    let mut i: usize = 0;
    while i < v.len()
        invariant
            i <= v.len(),
            forall|j: int| 0 <= j < i ==> texts(v@)[j] != k@,
        decreases v.len() - i,
    {
        if eq_chars(&v[i], k) {
            assert(texts(v@)[i as int] == k@);
            return true;
        }
        i += 1;
    }
    false
}

/// Whether one of the strings equals `k`.
pub fn has_string(v: &Vec<String>, k: &str) -> (r: bool)
    ensures
        r == string_views(v@).contains(k@),
{
    let kc = chars_of(k);
    let mut i: usize = 0;
    while i < v.len()
        invariant
            i <= v.len(),
            kc@ == k@,
            forall|j: int| 0 <= j < i ==> string_views(v@)[j] != k@,
        decreases v.len() - i,
    {
        if eq_chars(&chars_of(v[i].as_str()), &kc) {
            assert(string_views(v@)[i as int] == k@);
            return true;
        }
        i += 1;
    }
    false
}

/// `s` without trailing `c` characters.
pub open spec fn trim_end_char(s: Seq<char>, c: char) -> Seq<char>
    decreases s.len(),
{
    if s.len() > 0 && s.last() == c {
        trim_end_char(s.drop_last(), c)
    } else {
        s
    }
}

/// Drops trailing `c` characters.
pub fn trim_end_chars_of(v: &[char], c: char) -> (r: Vec<char>)
    ensures
        r@ == trim_end_char(v@, c),
{
    let mut k: usize = v.len();
    assert(v@.take(v.len() as int) =~= v@);
    while k > 0 && v[k - 1] == c
        invariant
            k <= v.len(),
            trim_end_char(v@, c) == trim_end_char(v@.take(k as int), c),
        decreases k,
    {
        assert(v@.take(k as int).drop_last() =~= v@.take(k as int - 1));
        k -= 1;
    }
    let r = slice_chars(v, 0, k);
    assert(r@ =~= v@.take(k as int));
    r
}

// ---------------------------------------------------------------- numbers

/// The decimal digit character for `d` (below ten).
pub open spec fn digit_char(d: nat) -> char {
    ((48 + d) as u32) as char
}

/// `n` written in decimal, without leading zeros (what `to_string` gives for an unsigned number).
pub open spec fn decimal(n: nat) -> Seq<char>
    decreases n,
{
    if n < 10 {
        seq![digit_char(n)]
    } else {
        decimal(n / 10).push(digit_char(n % 10))
    }
}

/// `n` written in decimal with a leading `-` when negative (what `to_string` gives for a signed number).
pub open spec fn signed_decimal(n: int) -> Seq<char> {
    if n < 0 {
        seq!['-'] + decimal((-n) as nat)
    } else {
        decimal(n as nat)
    }
}

fn digit(d: u64) -> (c: char)
    requires
        d < 10,
    ensures
        c == digit_char(d as nat),
{
    if d == 0 {
        '0'
    } else if d == 1 {
        '1'
    } else if d == 2 {
        '2'
    } else if d == 3 {
        '3'
    } else if d == 4 {
        '4'
    } else if d == 5 {
        '5'
    } else if d == 6 {
        '6'
    } else if d == 7 {
        '7'
    } else if d == 8 {
        '8'
    } else {
        '9'
    }
}

/// The decimal digits of `n`.
pub fn decimal_chars(n: u64) -> (r: Vec<char>)
    ensures
        r@ == decimal(n as nat),
    decreases n,
{
    if n < 10 {
        let mut r: Vec<char> = Vec::new();
        r.push(digit(n));
        assert(r@ =~= seq![digit_char(n as nat)]);
        r
    } else {
        let mut r = decimal_chars(n / 10);
        r.push(digit(n % 10));
        r
    }
}

/// `n` as decimal text.
pub fn u64_text(n: u64) -> (r: String)
    ensures
        r@ == decimal(n as nat),
{
    let v = decimal_chars(n);
    string_of(&v)
}

/// `n` as decimal text, with a `-` when negative.
pub fn i64_text(n: i64) -> (r: String)
    ensures
        r@ == signed_decimal(n as int),
{
    if n < 0 {
        let m: u64 = if n == i64::MIN {
            9223372036854775808u64
        } else {
            (-n) as u64
        };
        let d = decimal_chars(m);
        let mut v: Vec<char> = Vec::new();
        v.push('-');
        append_chars(&mut v, &d);
        assert(v@ =~= seq!['-'] + decimal((-(n as int)) as nat));
        string_of(&v)
    } else {
        u64_text(n as u64)
    }
}

} // verus!
