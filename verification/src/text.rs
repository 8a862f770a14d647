//! Character-level text handling: whitespace, trimming and splitting,
//! with the meaning that `str::trim`, `str::split_whitespace` and
//! `str::split` give them.

use vstd::prelude::*;

verus! {

/// The Unicode `White_Space` property, which `char::is_whitespace` follows.
pub open spec fn is_ws(c: char) -> bool {
    let u = c as u32;
    ||| 0x09 <= u <= 0x0d
    ||| u == 0x20
    ||| u == 0x85
    ||| u == 0xa0
    ||| u == 0x1680
    ||| 0x2000 <= u <= 0x200a
    ||| u == 0x2028
    ||| u == 0x2029
    ||| u == 0x202f
    ||| u == 0x205f
    ||| u == 0x3000
}

/// Whether `c` is a whitespace character.
pub fn is_whitespace(c: char) -> (b: bool)
    ensures
        b == is_ws(c),
{
    let u = c as u32;
    (0x09 <= u && u <= 0x0d) || u == 0x20 || u == 0x85 || u == 0xa0 || u == 0x1680 || (0x2000
        <= u && u <= 0x200a) || u == 0x2028 || u == 0x2029 || u == 0x202f || u == 0x205f || u
        == 0x3000
}

/// The characters of `s`, in order.
pub fn chars_of(s: &str) -> (v: Vec<char>)
    ensures
        v@ == s@,
{
    let mut v: Vec<char> = Vec::new();
    for c in it: s.chars()
        invariant
            v@ == it.seq().take(it.index() as int),
            it.seq() == s@,
    {
        v.push(c);
    }
    v
}


/// `s` without its leading whitespace.
pub open spec fn trim_start_spec(s: Seq<char>) -> Seq<char>
    decreases s.len(),
{
    if s.len() > 0 && is_ws(s[0]) {
        trim_start_spec(s.drop_first())
    } else {
        s
    }
}

/// `s` without its trailing whitespace.
pub open spec fn trim_end_spec(s: Seq<char>) -> Seq<char>
    decreases s.len(),
{
    if s.len() > 0 && is_ws(s.last()) {
        trim_end_spec(s.drop_last())
    } else {
        s
    }
}

/// `s` without leading and trailing whitespace, as `str::trim` gives it.
pub open spec fn trim_spec(s: Seq<char>) -> Seq<char> {
    trim_end_spec(trim_start_spec(s))
}

proof fn lemma_trim_start_skip(s: Seq<char>, i: int)
    requires
        0 <= i <= s.len(),
        forall|k: int| 0 <= k < i ==> is_ws(#[trigger] s[k]),
    ensures
        trim_start_spec(s) == trim_start_spec(s.skip(i)),
    decreases i,
{
    if i > 0 {
        assert(s.skip(1) == s.drop_first());
        lemma_trim_start_skip(s.drop_first(), i - 1);
        assert(s.drop_first().skip(i - 1) == s.skip(i));
    } else {
        assert(s.skip(0) == s);
    }
}

proof fn lemma_trim_end_take(s: Seq<char>, j: int)
    requires
        0 <= j <= s.len(),
        forall|k: int| j <= k < s.len() ==> is_ws(#[trigger] s[k]),
    ensures
        trim_end_spec(s) == trim_end_spec(s.take(j)),
    decreases s.len() - j,
{
    if j < s.len() {
        assert(s.take(s.len() - 1) == s.drop_last());
        lemma_trim_end_take(s.drop_last(), j);
        assert(s.drop_last().take(j) == s.take(j));
    } else {
        assert(s.take(j) == s);
    }
}

/// The characters of `s` from `lo` up to `hi`, as a `String`.
pub fn substring(s: &str, lo: usize, hi: usize) -> (r: String)
    requires
        lo <= hi <= s@.len(),
    ensures
        r@ == s@.subrange(lo as int, hi as int),
{
    String::from_str(s.substring_char(lo, hi))
}

/// `s` without leading and trailing whitespace.
pub fn trim(s: &str) -> (r: String)
    ensures
        r@ == trim_spec(s@),
{
    let cs = chars_of(s);
    let n = cs.len();
    let mut i: usize = 0;
    while i < n && is_whitespace(cs[i])
        invariant
            i <= n == cs@.len(),
            cs@ == s@,
            forall|k: int| 0 <= k < i ==> is_ws(#[trigger] cs@[k]),
        decreases n - i,
    {
        i = i + 1;
    }
    proof {
        lemma_trim_start_skip(s@, i as int);
    }
    let ghost t = s@.skip(i as int);
    assert(i < n ==> !is_ws(t[0]));
    assert(trim_start_spec(t) == t);
    let mut j: usize = n;
    while j > i && is_whitespace(cs[j - 1])
        invariant
            i <= j <= n == cs@.len(),
            cs@ == s@,
            t == s@.skip(i as int),
            forall|k: int| j <= k < n ==> is_ws(#[trigger] cs@[k]),
        decreases j,
    {
        j = j - 1;
    }
    proof {
        assert forall|k: int| j - i <= k < t.len() implies is_ws(#[trigger] t[k]) by {
            assert(t[k] == cs@[k + i]);
        }
        lemma_trim_end_take(t, j - i);
        let u = t.take(j - i);
        assert(u == s@.subrange(i as int, j as int));
        if u.len() > 0 {
            assert(u.last() == cs@[j - 1]);
        }
        assert(trim_end_spec(u) == u);
    }
    substring(s, i, j)
}


proof fn lemma_trim_start_shape(s: Seq<char>)
    ensures
        exists|a: int|
            0 <= a <= s.len() && trim_start_spec(s) == s.skip(a) && (forall|k: int| 0 <= k < a ==> is_ws(
                #[trigger] s[k],
            )) && (a == s.len() || !is_ws(s[a])),
    decreases s.len(),
{
    if s.len() > 0 && is_ws(s[0]) {
        lemma_trim_start_shape(s.drop_first());
        let a = choose|a: int|
            0 <= a <= s.drop_first().len() && trim_start_spec(s.drop_first()) == s.drop_first().skip(a) && (forall|k: int|
                0 <= k < a ==> is_ws(#[trigger] s.drop_first()[k])) && (a == s.drop_first().len() || !is_ws(
                s.drop_first()[a],
            ));
        assert(s.drop_first().skip(a) == s.skip(a + 1));
        assert forall|k: int| 0 <= k < a + 1 implies is_ws(#[trigger] s[k]) by {
            if k > 0 {
                assert(s[k] == s.drop_first()[k - 1]);
            }
        }
        if a < s.drop_first().len() {
            assert(s[a + 1] == s.drop_first()[a]);
        }
    } else {
        assert(s.skip(0) == s);
    }
}

proof fn lemma_trim_end_shape(s: Seq<char>)
    ensures
        exists|b: int|
            0 <= b <= s.len() && trim_end_spec(s) == s.take(b) && (forall|k: int| b <= k < s.len() ==> is_ws(
                #[trigger] s[k],
            )) && (b == 0 || !is_ws(s[b - 1])),
    decreases s.len(),
{
    if s.len() > 0 && is_ws(s.last()) {
        lemma_trim_end_shape(s.drop_last());
        let d = s.drop_last();
        let b = choose|b: int|
            0 <= b <= d.len() && trim_end_spec(d) == d.take(b) && (forall|k: int| b <= k < d.len() ==> is_ws(
                #[trigger] d[k],
            )) && (b == 0 || !is_ws(d[b - 1]));
        assert(d.take(b) == s.take(b));
        assert forall|k: int| b <= k < s.len() implies is_ws(#[trigger] s[k]) by {
            if k < d.len() {
                assert(s[k] == d[k]);
            }
        }
        if b > 0 {
            assert(s[b - 1] == d[b - 1]);
        }
    } else {
        assert(s.take(s.len() as int) == s);
    }
}

/// Trimming removes whitespace from both ends and nothing else: the result
/// is a stretch `s[i..j]` of `s` with only whitespace before and after it,
/// and it neither begins nor ends with whitespace.
pub proof fn lemma_trim_shape(s: Seq<char>)
    ensures
        exists|i: int, j: int|
            0 <= i <= j <= s.len() && trim_spec(s) == s.subrange(i, j) && (forall|k: int| 0 <= k < i ==> is_ws(
                #[trigger] s[k],
            )) && (forall|k: int| j <= k < s.len() ==> is_ws(#[trigger] s[k])),
        trim_spec(s).len() > 0 ==> !is_ws(trim_spec(s)[0]) && !is_ws(trim_spec(s).last()),
{
    lemma_trim_start_shape(s);
    let a = choose|a: int|
        0 <= a <= s.len() && trim_start_spec(s) == s.skip(a) && (forall|k: int| 0 <= k < a ==> is_ws(#[trigger] s[k]))
            && (a == s.len() || !is_ws(s[a]));
    let t = s.skip(a);
    lemma_trim_end_shape(t);
    let b = choose|b: int|
        0 <= b <= t.len() && trim_end_spec(t) == t.take(b) && (forall|k: int| b <= k < t.len() ==> is_ws(
            #[trigger] t[k],
        )) && (b == 0 || !is_ws(t[b - 1]));
    assert(t.take(b) == s.subrange(a, a + b));
    assert forall|k: int| a + b <= k < s.len() implies is_ws(#[trigger] s[k]) by {
        assert(s[k] == t[k - a]);
    }
    if b > 0 {
        assert(trim_spec(s)[0] == s[a]);
        assert(trim_spec(s).last() == t[b - 1]);
    }
}

/// The words of `s` are non-empty and hold no whitespace; text without
/// whitespace is one word, and text of whitespace alone has none.
pub proof fn lemma_words_shape(s: Seq<char>)
    ensures
        forall|i: int| 0 <= i < words(s).len() ==> (#[trigger] words(s)[i]).len() > 0,
        forall|i: int, k: int| 0 <= i < words(s).len() && 0 <= k < words(s)[i].len() ==> !is_ws(#[trigger] words(s)[i][k]),
        s.len() > 0 && (forall|k: int| 0 <= k < s.len() ==> !is_ws(#[trigger] s[k])) ==> words(s) == seq![s],
        (forall|k: int| 0 <= k < s.len() ==> is_ws(#[trigger] s[k])) ==> words(s).len() == 0,
    decreases s.len(),
{
    if s.len() > 0 {
        lemma_word_len_bound(s);
        if is_ws(s[0]) {
            lemma_words_shape(s.drop_first());
            assert(words(s) == words(s.drop_first()));
            if forall|k: int| 0 <= k < s.len() ==> is_ws(#[trigger] s[k]) {
                assert forall|k: int| 0 <= k < s.drop_first().len() implies is_ws(#[trigger] s.drop_first()[k]) by {
                    assert(s.drop_first()[k] == s[k + 1]);
                }
            }
        } else {
            let n = word_len(s);
            lemma_word_len_prefix(s);
            lemma_words_shape(s.skip(n as int));
            let w = words(s);
            assert(w == seq![s.take(n as int)] + words(s.skip(n as int)));
            assert forall|i: int, k: int| 0 <= i < w.len() && 0 <= k < w[i].len() implies !is_ws(#[trigger] w[i][k]) by {
                if i > 0 {
                    assert(w[i] == words(s.skip(n as int))[i - 1]);
                } else {
                    assert(w[0][k] == s[k]);
                }
            }
            assert forall|i: int| 0 <= i < w.len() implies (#[trigger] w[i]).len() > 0 by {
                if i > 0 {
                    assert(w[i] == words(s.skip(n as int))[i - 1]);
                }
            }
            if forall|k: int| 0 <= k < s.len() ==> !is_ws(#[trigger] s[k]) {
                lemma_word_len_exact(s, s.len() as int);
                assert(s.skip(s.len() as int).len() == 0);
                assert(s.take(s.len() as int) == s);
            }
        }
    }
}

proof fn lemma_word_len_prefix(s: Seq<char>)
    ensures
        forall|k: int| 0 <= k < word_len(s) ==> !is_ws(#[trigger] s[k]),
    decreases s.len(),
{
    lemma_word_len_bound(s);
    if s.len() > 0 && !is_ws(s[0]) {
        lemma_word_len_prefix(s.drop_first());
        assert forall|k: int| 0 <= k < word_len(s) implies !is_ws(#[trigger] s[k]) by {
            if k > 0 {
                assert(s[k] == s.drop_first()[k - 1]);
            }
        }
    }
}

/// The views of a list of strings.
pub open spec fn views(v: Seq<String>) -> Seq<Seq<char>> {
    v.map_values(|x: String| x@)
}

/// The number of non-whitespace characters at the start of `s`.
pub open spec fn word_len(s: Seq<char>) -> nat
    decreases s.len(),
{
    if s.len() > 0 && !is_ws(s[0]) {
        1 + word_len(s.drop_first())
    } else {
        0
    }
}

/// The maximal runs of non-whitespace characters of `s`, in order: what
/// `str::split_whitespace` yields.
pub open spec fn words(s: Seq<char>) -> Seq<Seq<char>>
    decreases s.len(),
{
    if s.len() == 0 {
        Seq::empty()
    } else if is_ws(s[0]) {
        words(s.drop_first())
    } else {
        let n = word_len(s);
        if 0 < n <= s.len() {
            seq![s.take(n as int)] + words(s.skip(n as int))
        } else {
            Seq::empty()
        }
    }
}

proof fn lemma_word_len_bound(s: Seq<char>)
    ensures
        word_len(s) <= s.len(),
        s.len() > 0 && !is_ws(s[0]) ==> word_len(s) > 0,
    decreases s.len(),
{
    if s.len() > 0 && !is_ws(s[0]) {
        lemma_word_len_bound(s.drop_first());
    }
}

proof fn lemma_word_len_exact(s: Seq<char>, k: int)
    requires
        0 <= k <= s.len(),
        forall|m: int| 0 <= m < k ==> !is_ws(#[trigger] s[m]),
        k == s.len() || is_ws(s[k]),
    ensures
        word_len(s) == k,
    decreases k,
{
    if k > 0 {
        lemma_word_len_exact(s.drop_first(), k - 1);
    }
}

/// The whitespace-separated words of `s`.
pub fn split_whitespace(s: &str) -> (r: Vec<String>)
    ensures
        views(r@) == words(s@),
{
    let cs = chars_of(s);
    let n = cs.len();
    let mut r: Vec<String> = Vec::new();
    let mut i: usize = 0;
    assert(s@.skip(0) == s@);
    while i < n
        invariant
            i <= n == cs@.len(),
            cs@ == s@,
            words(s@) == views(r@) + words(s@.skip(i as int)),
        decreases n - i,
    {
        let ghost t = s@.skip(i as int);
        assert(t.drop_first() == s@.skip(i + 1));
        if is_whitespace(cs[i]) {
            i = i + 1;
        } else {
            let mut j: usize = i + 1;
            while j < n && !is_whitespace(cs[j])
                invariant
                    i < j <= n == cs@.len(),
                    cs@ == s@,
                    forall|m: int| i <= m < j ==> !is_ws(#[trigger] cs@[m]),
                decreases n - j,
            {
                j = j + 1;
            }
            let w = substring(s, i, j);
            proof {
                assert forall|m: int| 0 <= m < j - i implies !is_ws(#[trigger] t[m]) by {
                    assert(t[m] == cs@[m + i]);
                }
                if j < n {
                    assert(t[j - i] == cs@[j as int]);
                }
                lemma_word_len_exact(t, j - i);
                assert(t.take(j - i) == s@.subrange(i as int, j as int));
                assert(t.skip(j - i) == s@.skip(j as int));
            }
            let ghost prev = r@;
            r.push(w);
            assert(views(r@) == views(prev).push(w@));
            i = j;
        }
    }
    r
}


/// Whether `sep` occurs in `s` at position `i`.
pub open spec fn occurs_at(s: Seq<char>, sep: Seq<char>, i: int) -> bool {
    0 <= i && i + sep.len() <= s.len() && s.subrange(i, i + sep.len()) == sep
}

/// The first position at or after `i` where `sep` occurs in `s`.
pub open spec fn find_from(s: Seq<char>, sep: Seq<char>, i: nat) -> Option<nat>
    decreases s.len() - i,
{
    if i + sep.len() > s.len() {
        None
    } else if occurs_at(s, sep, i as int) {
        Some(i)
    } else if i < s.len() {
        find_from(s, sep, i + 1)
    } else {
        None
    }
}

/// The pieces of `s` between the occurrences of a non-empty `sep`, the
/// occurrences taken from the left without overlap: what `str::split`
/// yields for a string pattern.
pub open spec fn split_on(s: Seq<char>, sep: Seq<char>) -> Seq<Seq<char>>
    decreases s.len(),
{
    match find_from(s, sep, 0) {
        Some(k) => if sep.len() > 0 && k + sep.len() <= s.len() {
            seq![s.take(k as int)] + split_on(s.skip((k + sep.len()) as int), sep)
        } else {
            seq![s]
        },
        None => seq![s],
    }
}

proof fn lemma_find_from_skip(s: Seq<char>, sep: Seq<char>, q: nat)
    requires
        forall|p: int| 0 <= p < q ==> !occurs_at(s, sep, p),
        q <= s.len(),
    ensures
        find_from(s, sep, 0) == find_from(s, sep, q),
    decreases q,
{
    if q > 0 {
        lemma_find_from_skip(s, sep, (q - 1) as nat);
        assert(!occurs_at(s, sep, q - 1));
    }
}

proof fn lemma_find_from_bound(s: Seq<char>, sep: Seq<char>, i: nat)
    ensures
        find_from(s, sep, i) matches Some(k) ==> i <= k && k + sep.len() <= s.len() && occurs_at(s, sep, k as int),
    decreases s.len() - i,
{
    if i + sep.len() <= s.len() && !occurs_at(s, sep, i as int) && i < s.len() {
        lemma_find_from_bound(s, sep, i + 1);
    }
}

proof fn lemma_find_from_none(s: Seq<char>, sep: Seq<char>, i: nat, p: int)
    requires
        find_from(s, sep, i) is None,
        i <= p,
    ensures
        !occurs_at(s, sep, p),
    decreases s.len() - i,
{
    if i + sep.len() <= s.len() && !occurs_at(s, sep, i as int) && i < s.len() && p > i {
        lemma_find_from_none(s, sep, i + 1, p);
    }
}

proof fn lemma_find_from_first(s: Seq<char>, sep: Seq<char>, i: nat, p: int)
    requires
        find_from(s, sep, i) matches Some(k) && i <= p < k,
    ensures
        !occurs_at(s, sep, p),
    decreases s.len() - i,
{
    if p > i {
        lemma_find_from_first(s, sep, i + 1, p);
    }
}

/// Splitting `x`, a separator and `y` gives the pieces of `x` followed by
/// those of `y`, where `x` does not end in a character of the separator.
pub proof fn lemma_split_on_concat(x: Seq<char>, sep: Seq<char>, y: Seq<char>)
    requires
        sep.len() > 0,
        !(x.len() > 0 && sep.contains(x.last())),
    ensures
        split_on(x + sep + y, sep) == split_on(x, sep) + split_on(y, sep),
    decreases x.len(),
{
    let s = x + sep + y;
    let n: int = sep.len() as int;
    lemma_find_from_bound(x, sep, 0);
    match find_from(x, sep, 0) {
        Some(k) => {
            assert forall|p: int| 0 <= p < k implies !occurs_at(s, sep, p) by {
                lemma_find_from_first(x, sep, 0, p);
                assert(s.subrange(p, p + n) == x.subrange(p, p + n));
            }
            assert(s.subrange(k as int, k + n) == x.subrange(k as int, k + n));
            lemma_find_from_skip(s, sep, k);
            assert(find_from(s, sep, 0) == Some(k));
            let rest = x.skip(k + n);
            if rest.len() == 0 {
                assert(x.last() == x.subrange(k as int, k + n)[n - 1]);
                assert(sep.contains(sep[n - 1]));
            } else {
                assert(rest.last() == x.last());
            }
            lemma_split_on_concat(rest, sep, y);
            assert(s.take(k as int) == x.take(k as int));
            assert(s.skip(k + n) == rest + sep + y);
            assert(split_on(x, sep) == seq![x.take(k as int)] + split_on(rest, sep));
            assert(split_on(s, sep) == seq![x.take(k as int)] + split_on(rest + sep + y, sep));
        },
        None => {
            assert forall|p: int| 0 <= p < x.len() implies !occurs_at(s, sep, p) by {
                if p + n <= x.len() {
                    lemma_find_from_none(x, sep, 0, p);
                    assert(s.subrange(p, p + n) == x.subrange(p, p + n));
                } else if occurs_at(s, sep, p) {
                    let j = x.len() - 1 - p;
                    assert(s.subrange(p, p + n)[j] == x.last());
                    assert(sep[j] == x.last());
                    assert(sep.contains(x.last()));
                }
            }
            assert(s.subrange(x.len() as int, x.len() + n) == sep);
            lemma_find_from_skip(s, sep, x.len());
            assert(find_from(s, sep, 0) == Some(x.len()));
            assert(s.take(x.len() as int) == x);
            assert(s.skip(x.len() + n) == y);
        },
    }
}

proof fn lemma_joined_front(a: Seq<char>, rest: Seq<Seq<char>>, sep: Seq<char>)
    requires
        rest.len() > 0,
    ensures
        joined(seq![a] + rest, sep) == a + sep + joined(rest, sep),
    decreases rest.len(),
{
    let v = seq![a] + rest;
    if rest.len() == 1 {
        assert(v.drop_last() == seq![a]);
        assert(joined(seq![a], sep) == a);
        assert(joined(rest, sep) == rest[0]);
    } else {
        lemma_joined_front(a, rest.drop_last(), sep);
        assert(v.drop_last() == seq![a] + rest.drop_last());
        assert(v.last() == rest.last());
    }
}

/// Joining the pieces of `s` with `sep` gives `s` back, and no piece holds
/// `sep`: splitting loses nothing and cuts at every occurrence.
pub proof fn lemma_split_on_join(s: Seq<char>, sep: Seq<char>)
    requires
        sep.len() > 0,
    ensures
        joined(split_on(s, sep), sep) == s,
        split_on(s, sep).len() > 0,
        forall|i: int, p: int| 0 <= i < split_on(s, sep).len() ==> !#[trigger] occurs_at(split_on(s, sep)[i], sep, p),
    decreases s.len(),
{
    let n: int = sep.len() as int;
    lemma_find_from_bound(s, sep, 0);
    match find_from(s, sep, 0) {
        Some(k) => {
            let rest = s.skip(k + n);
            lemma_split_on_join(rest, sep);
            let pieces = split_on(s, sep);
            assert(pieces == seq![s.take(k as int)] + split_on(rest, sep));
            lemma_joined_front(s.take(k as int), split_on(rest, sep), sep);
            assert(s.take(k as int) + sep + rest == s) by {
                assert(s.subrange(k as int, k + n) == sep);
                assert(s =~= s.take(k as int) + s.subrange(k as int, k + n) + rest);
            }
            assert forall|i: int, p: int| 0 <= i < pieces.len() implies !#[trigger] occurs_at(pieces[i], sep, p) by {
                if i == 0 {
                    if occurs_at(pieces[0], sep, p) {
                        lemma_find_from_first(s, sep, 0, p);
                        assert(s.subrange(p, p + n) == pieces[0].subrange(p, p + n));
                    }
                } else {
                    assert(pieces[i] == split_on(rest, sep)[i - 1]);
                }
            }
        },
        None => {
            assert(split_on(s, sep) == seq![s]);
            assert forall|i: int, p: int| 0 <= i < split_on(s, sep).len() implies !#[trigger] occurs_at(split_on(s, sep)[i], sep, p) by {
                if p >= 0 {
                    lemma_find_from_none(s, sep, 0, p);
                }
            }
        },
    }
}

/// Whether `sep` occurs in `cs` at position `i`.
fn occurs_at_exec(cs: &Vec<char>, sep: &Vec<char>, i: usize) -> (b: bool)
    ensures
        b == occurs_at(cs@, sep@, i as int),
{
    if sep.len() > cs.len() || i > cs.len() - sep.len() {
        return false;
    }
    let mut k: usize = 0;
    while k < sep.len()
        invariant
            k <= sep.len(),
            i + sep.len() <= cs.len(),
            forall|m: int| 0 <= m < k ==> cs@[i + m] == sep@[m],
        decreases sep.len() - k,
    {
        if cs[i + k] != sep[k] {
            assert(cs@.subrange(i as int, i + sep.len())[k as int] != sep@[k as int]);
            return false;
        }
        k = k + 1;
    }
    assert(cs@.subrange(i as int, i + sep.len()) == sep@);
    true
}

/// The pieces of `s` between the occurrences of `sep`.
pub fn split_on_str(s: &str, sep: &str) -> (r: Vec<String>)
    requires
        sep@.len() > 0,
    ensures
        views(r@) == split_on(s@, sep@),
{
    let cs = chars_of(s);
    let sp = chars_of(sep);
    let n = cs.len();
    let m = sp.len();
    let mut r: Vec<String> = Vec::new();
    let mut start: usize = 0;
    let mut i: usize = 0;
    assert(s@.skip(0) == s@);
    while i < n
        invariant
            start <= i <= n == cs@.len(),
            cs@ == s@,
            sp@ == sep@,
            m == sep@.len() > 0,
            split_on(s@, sep@) == views(r@) + split_on(s@.skip(start as int), sep@),
            forall|p: int| start <= p < i ==> !occurs_at(s@, sep@, p),
        decreases n - i,
    {
        if occurs_at_exec(&cs, &sp, i) {
            let ghost t = s@.skip(start as int);
            proof {
                assert forall|p: int| 0 <= p < i - start implies !occurs_at(t, sep@, p) by {
                    assert(!occurs_at(s@, sep@, p + start));
                    if p + m <= t.len() {
                        assert(t.subrange(p, p + m) == s@.subrange(p + start, p + start + m));
                    }
                }
                lemma_find_from_skip(t, sep@, (i - start) as nat);
                assert(t.subrange(i - start, i - start + m) == s@.subrange(i as int, i + m));
                assert(t.take(i - start) == s@.subrange(start as int, i as int));
                assert(t.skip(i - start + m) == s@.skip(i + m));
            }
            let piece = substring(s, start, i);
            let ghost prev = r@;
            r.push(piece);
            assert(views(r@) == views(prev).push(piece@));
            i = i + m;
            start = i;
        } else {
            i = i + 1;
        }
    }
    proof {
        let t = s@.skip(start as int);
        assert forall|p: int| 0 <= p < t.len() implies !occurs_at(t, sep@, p) by {
            assert(!occurs_at(s@, sep@, p + start));
            if p + m <= t.len() {
                assert(t.subrange(p, p + m) == s@.subrange(p + start, p + start + m));
            }
        }
        lemma_find_from_skip(t, sep@, t.len());
        assert(t == s@.subrange(start as int, n as int));
    }
    let last = substring(s, start, n);
    let ghost prev = r@;
    r.push(last);
    assert(views(r@) == views(prev).push(last@));
    r
}


/// Whether the string `s` reads `lit`.
pub fn equals(s: &String, lit: &str) -> (b: bool)
    ensures
        b == (s@ == lit@),
{
    *s == String::from_str(lit)
}

/// Whether `s` begins with the character `c`.
pub fn starts_with_char(s: &str, c: char) -> (b: bool)
    ensures
        b == (s@.len() > 0 && s@[0] == c),
{
    let cs = chars_of(s);
    cs.len() > 0 && cs[0] == c
}

/// The strings of `v` joined, with `sep` between each two.
pub open spec fn joined(v: Seq<Seq<char>>, sep: Seq<char>) -> Seq<char>
    decreases v.len(),
{
    if v.len() == 0 {
        Seq::empty()
    } else if v.len() == 1 {
        v[0]
    } else {
        joined(v.drop_last(), sep) + sep + v.last()
    }
}

/// The strings of `v` joined with `sep` between each two, as `[String]::join`
/// gives it.
pub fn join(v: &[String], sep: &str) -> (r: String)
    ensures
        r@ == joined(views(v@), sep@),
{
    let mut r = String::new();
    let n = v.len();
    for i in 0..n
        invariant
            n == v@.len(),
            r@ == joined(views(v@.take(i as int)), sep@),
    {
        let ghost before = v@.take(i as int);
        assert(v@.take(i + 1) == before.push(v@[i as int]));
        assert(views(v@.take(i + 1)).drop_last() == views(before));
        if i > 0 {
            r.append(sep);
        }
        r.append(v[i].as_str());
    }
    assert(v@.take(n as int) == v@);
    r
}


/// `line` without the `\r` of a `\r\n` ending.
pub open spec fn strip_cr(line: Seq<char>) -> Seq<char> {
    if line.len() > 0 && line.last() == '\r' {
        line.drop_last()
    } else {
        line
    }
}

/// The lines of `s` as `str::lines` yields them: split after each `\n`,
/// with the `\n` (and a `\r` before it) removed; a last line that is
/// empty is not a line.
pub open spec fn lines_spec(s: Seq<char>) -> Seq<Seq<char>>
    decreases s.len(),
{
    if s.len() == 0 {
        Seq::empty()
    } else {
        match find_from(s, seq!['\n'], 0) {
            Some(k) => if k < s.len() {
                seq![strip_cr(s.take(k as int))] + lines_spec(s.skip(k + 1int))
            } else {
                seq![s]
            },
            None => seq![s],
        }
    }
}

/// No line holds a `\n`; text without `\n` is one line, and so is text
/// ending in its only `\n` (without it, and without a `\r` before it).
pub proof fn lemma_lines_shape(s: Seq<char>)
    ensures
        forall|i: int, k: int| 0 <= i < lines_spec(s).len() && 0 <= k < lines_spec(s)[i].len() ==> #[trigger] lines_spec(s)[i][k] != '\n',
        s.len() > 0 && (forall|k: int| 0 <= k < s.len() ==> #[trigger] s[k] != '\n') ==> lines_spec(s) == seq![s],
    decreases s.len(),
{
    let nl = seq!['\n'];
    if s.len() > 0 {
        lemma_find_from_bound(s, nl, 0);
        match find_from(s, nl, 0) {
            Some(k) => {
                let rest = s.skip(k + 1int);
                lemma_lines_shape(rest);
                let first = strip_cr(s.take(k as int));
                assert forall|m: int| 0 <= m < first.len() implies #[trigger] first[m] != '\n' by {
                    assert(first.len() <= k);
                    assert(first[m] == s.take(k as int)[m]);
                    assert(first[m] == s[m]);
                    lemma_find_from_first(s, nl, 0, m);
                    if s[m] == '\n' {
                        assert(s.subrange(m, m + 1) =~= nl);
                    }
                }
                let ls = lines_spec(s);
                assert(ls == seq![first] + lines_spec(rest));
                assert forall|i: int, m: int| 0 <= i < ls.len() && 0 <= m < ls[i].len() implies #[trigger] ls[i][m] != '\n' by {
                    if i > 0 {
                        assert(ls[i] == lines_spec(rest)[i - 1]);
                    }
                }
                assert(s.subrange(k as int, k + 1int)[0] == '\n');
            },
            None => {
                assert(lines_spec(s) == seq![s]);
                assert forall|m: int| 0 <= m < s.len() implies #[trigger] s[m] != '\n' by {
                    lemma_find_from_none(s, nl, 0, m);
                    if m + 1 <= s.len() {
                        assert(s.subrange(m, m + 1)[0] == s[m]);
                        if s[m] == '\n' {
                            assert(s.subrange(m, m + 1) == nl);
                        }
                    }
                }
            },
        }
    }
}

/// The lines of `s`.
pub fn lines(s: &str) -> (r: Vec<String>)
    ensures
        views(r@) == lines_spec(s@),
{
    let cs = chars_of(s);
    let n = cs.len();
    let mut r: Vec<String> = Vec::new();
    let mut start: usize = 0;
    let mut i: usize = 0;
    let ghost nl = seq!['\n'];
    assert(s@.skip(0) == s@);
    while i < n
        invariant
            start <= i <= n == cs@.len(),
            cs@ == s@,
            nl == seq!['\n'],
            lines_spec(s@) == views(r@) + lines_spec(s@.skip(start as int)),
            forall|p: int| start <= p < i ==> cs@[p] != '\n',
        decreases n - i,
    {
        if cs[i] == '\n' {
            let ghost t = s@.skip(start as int);
            proof {
                assert forall|p: int| 0 <= p < i - start implies !occurs_at(t, nl, p) by {
                    assert(t.subrange(p, p + 1)[0] == cs@[p + start]);
                }
                lemma_find_from_skip(t, nl, (i - start) as nat);
                assert(t.subrange(i - start, i - start + 1) == nl);
                assert(t.take(i - start) == s@.subrange(start as int, i as int));
                assert(t.skip(i - start + 1) == s@.skip(i + 1));
            }
            let end = if i > start && cs[i - 1] == '\r' { i - 1 } else { i };
            let piece = substring(s, start, end);
            proof {
                let u = s@.subrange(start as int, i as int);
                if i > start && cs@[i - 1] == '\r' {
                    assert(u.drop_last() == s@.subrange(start as int, end as int));
                }
            }
            let ghost prev = r@;
            r.push(piece);
            assert(views(r@) == views(prev).push(piece@));
            i = i + 1;
            start = i;
        } else {
            i = i + 1;
        }
    }
    if start < n {
        proof {
            let t = s@.skip(start as int);
            assert forall|p: int| 0 <= p < t.len() implies !occurs_at(t, nl, p) by {
                if p + 1 <= t.len() {
                    assert(t.subrange(p, p + 1)[0] == cs@[p + start]);
                }
            }
            lemma_find_from_skip(t, nl, t.len());
            assert(t == s@.subrange(start as int, n as int));
        }
        let last = substring(s, start, n);
        let ghost prev = r@;
        r.push(last);
        assert(views(r@) == views(prev).push(last@));
    } else {
        assert(s@.skip(start as int).len() == 0);
    }
    r
}

} // verus!
