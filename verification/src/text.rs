//! Pure string helpers: the last dot-delimited segment of a package
//! identifier, title-casing of a segment, and joining identifiers with a
//! separator.

use vstd::prelude::*;
use vstd::string::*;

verus! {

/// The sequence of characters that `char::to_uppercase` yields for `c`:
/// a fixed function of the character alone.
pub uninterp spec fn upper_chars(c: char) -> Seq<char>;

/// The sequence of characters that `char::to_lowercase` yields for `c`:
/// a fixed function of the character alone.
pub uninterp spec fn lower_chars(c: char) -> Seq<char>;

/// Relies on `char::to_uppercase`: the Unicode uppercase mapping of the
/// character, a function of the character alone.
#[verifier::external_body]
fn upper_char(c: char) -> (r: String)
    ensures
        r@ == upper_chars(c),
{
    c.to_uppercase().collect()
}

/// Relies on `char::to_lowercase`: the Unicode lowercase mapping of the
/// character, a function of the character alone.
#[verifier::external_body]
fn lower_char(c: char) -> (r: String)
    ensures
        r@ == lower_chars(c),
{
    c.to_lowercase().collect()
}

/// Every character of `s`, lowercased, in order.
pub open spec fn lower_all(s: Seq<char>) -> Seq<char>
    decreases s.len(),
{
    if s.len() == 0 {
        Seq::empty()
    } else {
        lower_chars(s[0]) + lower_all(s.skip(1))
    }
}

/// The title-cased form of `s`: its first character uppercased, every
/// later character lowercased.
pub open spec fn title_of(s: Seq<char>) -> Seq<char> {
    if s.len() == 0 {
        Seq::empty()
    } else {
        upper_chars(s[0]) + lower_all(s.skip(1))
    }
}

/// The suffix of `s` after its last `'.'`, or all of `s` if it has none.
pub open spec fn last_segment_of(s: Seq<char>) -> Seq<char>
    decreases s.len(),
{
    if s.len() == 0 {
        Seq::<char>::empty()
    } else if s[s.len() - 1] == '.' {
        Seq::<char>::empty()
    } else {
        last_segment_of(s.take(s.len() - 1)).push(s[s.len() - 1])
    }
}

proof fn lemma_last_segment_no_dot(s: Seq<char>)
    requires
        forall|i: int| 0 <= i < s.len() ==> s[i] != '.',
    ensures
        last_segment_of(s) == s,
    decreases s.len(),
{
    if s.len() > 0 {
        lemma_last_segment_no_dot(s.take(s.len() - 1));
        assert(last_segment_of(s) =~= s);
    } else {
        assert(last_segment_of(s) =~= s);
    }
}

proof fn lemma_last_segment_after_dot(s: Seq<char>, d: int)
    requires
        0 <= d < s.len(),
        s[d] == '.',
        forall|i: int| d < i < s.len() ==> s[i] != '.',
    ensures
        last_segment_of(s) == s.subrange(d + 1, s.len() as int),
    decreases s.len(),
{
    if d == s.len() - 1 {
        assert(last_segment_of(s) =~= s.subrange(d + 1, s.len() as int));
    } else {
        let t = s.take(s.len() - 1);
        lemma_last_segment_after_dot(t, d);
        assert(last_segment_of(s) =~= s.subrange(d + 1, s.len() as int));
    }
}

/// Returns the last dot-delimited segment of `s`: everything after the last
/// `'.'`, or all of `s` when it holds no dot.
pub fn last_segment(s: &str) -> (r: String)
    ensures
        r@ == last_segment_of(s@),
{
    let n = s.unicode_len();
    let mut dot: Option<usize> = None;
    let mut i: usize = 0;
    while i < n
        invariant
            i <= n,
            n == s@.len(),
            match dot {
                None => forall|j: int| 0 <= j < i ==> s@[j] != '.',
                Some(d) => d < i && s@[d as int] == '.' && forall|j: int|
                    d < j < i ==> s@[j] != '.',
            },
        decreases n - i,
    {
        if s.get_char(i) == '.' {
            dot = Some(i);
        }
        i += 1;
    }
    match dot {
        None => {
            proof {
                lemma_last_segment_no_dot(s@);
            }
            s.to_owned()
        },
        Some(d) => {
            proof {
                lemma_last_segment_after_dot(s@, d as int);
            }
            let seg = s.substring_char(d + 1, n);
            seg.to_owned()
        },
    }
}

proof fn lemma_lower_all_push(t: Seq<char>, c: char)
    ensures
        lower_all(t.push(c)) == lower_all(t) + lower_chars(c),
    decreases t.len(),
{
    let u = t.push(c);
    assert(u.len() == t.len() + 1);
    if t.len() == 0 {
        let e = Seq::<char>::empty();
        assert(u[0] == c);
        assert(u.skip(1) =~= e);
        assert(lower_all(e) == e);
        assert(lower_all(u) == lower_chars(u[0]) + lower_all(u.skip(1)));
        assert(lower_all(u.skip(1)) == lower_all(e));
        assert(lower_all(t) == e);
        assert(lower_chars(c) + e =~= e + lower_chars(c));
    } else {
        assert(u[0] == t[0]);
        assert(u.skip(1) =~= t.skip(1).push(c));
        lemma_lower_all_push(t.skip(1), c);
        assert(lower_all(u) == lower_chars(t[0]) + (lower_all(t.skip(1)) + lower_chars(c)));
        assert(lower_all(t) + lower_chars(c) == (lower_chars(t[0]) + lower_all(t.skip(1)))
            + lower_chars(c));
        assert(lower_chars(t[0]) + (lower_all(t.skip(1)) + lower_chars(c)) =~= (lower_chars(t[0])
            + lower_all(t.skip(1))) + lower_chars(c));
    }
}

/// Title-cases `s`: the first character is uppercased, every later one is
/// lowercased, whatever case it had.
pub fn title_case(s: &str) -> (r: String)
    ensures
        r@ == title_of(s@),
{
    let n = s.unicode_len();
    let mut r = String::new();
    let mut i: usize = 0;
    while i < n
        invariant
            i <= n,
            n == s@.len(),
            r@ == title_of(s@.take(i as int)),
        decreases n - i,
    {
        let c = s.get_char(i);
        let piece = if i == 0 {
            upper_char(c)
        } else {
            lower_char(c)
        };
        proof {
            let pre = s@.take(i as int);
            let post = s@.take(i + 1);
            assert(post[0] == s@[0]);
            if i == 0 {
                assert(post.skip(1) =~= Seq::<char>::empty());
                assert(post =~= seq![s@[0]]);
                assert(title_of(post) =~= upper_chars(c));
            } else {
                assert(post.skip(1) =~= pre.skip(1).push(c));
                lemma_lower_all_push(pre.skip(1), c);
                assert(title_of(post) =~= title_of(pre) + lower_chars(c));
            }
        }
        r.append(piece.as_str());
        i += 1;
    }
    proof {
        assert(s@.take(n as int) =~= s@);
    }
    r
}

/// `ids` joined with `sep` between successive elements, in order.
pub open spec fn join_of(ids: Seq<Seq<char>>, sep: char) -> Seq<char>
    decreases ids.len(),
{
    if ids.len() == 0 {
        Seq::<char>::empty()
    } else if ids.len() == 1 {
        ids[0]
    } else {
        join_of(ids.drop_last(), sep) + seq![sep] + ids.last()
    }
}

/// The views of the strings of `ids`, in order.
pub open spec fn ids_view(ids: Seq<String>) -> Seq<Seq<char>> {
    ids.map_values(|s: String| s@)
}

/// Joins the strings of `ids` with `'|'` between successive elements.
pub fn join_pipe(ids: &Vec<String>) -> (r: String)
    ensures
        r@ == join_of(ids_view(ids@), '|'),
{
    let mut r = String::new();
    let mut i: usize = 0;
    while i < ids.len()
        invariant
            i <= ids@.len(),
            r@ == join_of(ids_view(ids@).take(i as int), '|'),
        decreases ids@.len() - i,
    {
        if i > 0 {
            r.append("|");
        }
        r.append(ids[i].as_str());
        proof {
            reveal_strlit("|");
            let v = ids_view(ids@);
            let post = v.take(i + 1);
            assert(post.drop_last() =~= v.take(i as int));
            assert(post.last() == v[i as int]);
            assert(v[i as int] == ids@[i as int]@);
            if i > 0 {
                assert("|"@ =~= seq!['|']);
                assert(r@ =~= join_of(v.take(i as int), '|') + seq!['|'] + v[i as int]);
                assert(r@ =~= join_of(post, '|'));
            } else {
                assert(post =~= seq![v[0]]);
                assert(r@ =~= v[0]);
            }
        }
        i += 1;
    }
    proof {
        assert(ids_view(ids@).take(ids@.len() as int) =~= ids_view(ids@));
    }
    r
}

} // verus!
