//! Strings as sequences of characters: trimming, splitting, searching and joining.

use vstd::prelude::*;

verus! {

/// The characters with the Unicode `White_Space` property.
pub open spec fn is_space(c: char) -> bool {
    ||| '\u{9}' <= c <= '\u{d}'
    ||| c == ' '
    ||| c == '\u{85}'
    ||| c == '\u{a0}'
    ||| c == '\u{1680}'
    ||| '\u{2000}' <= c <= '\u{200a}'
    ||| c == '\u{2028}'
    ||| c == '\u{2029}'
    ||| c == '\u{202f}'
    ||| c == '\u{205f}'
    ||| c == '\u{3000}'
}

/// Whether `c` has the Unicode `White_Space` property.
pub fn is_whitespace(c: char) -> (r: bool)
    ensures
        r == is_space(c),
{
    ('\u{9}' <= c && c <= '\u{d}') || c == ' ' || c == '\u{85}' || c == '\u{a0}' || c
        == '\u{1680}' || ('\u{2000}' <= c && c <= '\u{200a}') || c == '\u{2028}' || c
        == '\u{2029}' || c == '\u{202f}' || c == '\u{205f}' || c == '\u{3000}'
}

/// The characters of `s`, in order.
pub fn to_chars(s: &str) -> (r: Vec<char>)
    ensures
        r@ == s@,
{
    let mut r: Vec<char> = Vec::new();
    for c in it: s.chars()
        invariant
            it.seq() == s@,
            r@ == s@.take(it.index() as int),
    {
        r.push(c);
        assert(s@.take(it.index() as int + 1) =~= s@.take(it.index() as int).push(c));
    }
    assert(s@.take(s@.len() as int) =~= s@);
    r
}

/// The string that holds `chars[from..to]`.
pub fn from_chars(chars: &Vec<char>, from: usize, to: usize) -> (r: String)
    requires
        from <= to <= chars@.len(),
    ensures
        r@ == chars@.subrange(from as int, to as int),
{
    let mut r = String::new();
    let mut i: usize = from;
    while i < to
        invariant
            from <= i <= to <= chars@.len(),
            r@ == chars@.subrange(from as int, i as int),
        decreases to - i,
    {
        r.push(chars[i]);
        i = i + 1;
        assert(chars@.subrange(from as int, i as int) =~= chars@.subrange(
            from as int,
            i - 1,
        ).push(chars@[i - 1]));
    }
    r
}

/// Whether the two strings hold the same characters.
pub fn same(a: &str, b: &str) -> (r: bool)
    ensures
        r == (a@ == b@),
{
    let x = to_chars(a);
    let y = to_chars(b);
    if x.len() != y.len() {
        return false;
    }
    let mut i: usize = 0;
    while i < x.len()
        invariant
            i <= x@.len(),
            x@.len() == y@.len(),
            x@ == a@,
            y@ == b@,
            forall|k: int| 0 <= k < i ==> x@[k] == y@[k],
        decreases x.len() - i,
    {
        if x[i] != y[i] {
            assert(x@[i as int] != y@[i as int]);
            return false;
        }
        i = i + 1;
    }
    assert(x@ =~= y@);
    true
}

/// Whether `needle` stands in `hay` at position `at`.
pub open spec fn occurs_at(hay: Seq<char>, needle: Seq<char>, at: int) -> bool {
    &&& 0 <= at
    &&& at + needle.len() <= hay.len()
    &&& hay.subrange(at, at + needle.len()) == needle
}

/// Whether `needle` stands somewhere in `hay`.
pub open spec fn has(hay: Seq<char>, needle: Seq<char>) -> bool {
    exists|at: int| occurs_at(hay, needle, at)
}

/// Whether `needle` stands in `hay` at position `at`.
pub fn matches_at(hay: &Vec<char>, needle: &Vec<char>, at: usize) -> (r: bool)
    ensures
        r == occurs_at(hay@, needle@, at as int),
{
    let size: usize = hay.len();
    if at > size || size - at < needle.len() {
        return false;
    }
    let mut k: usize = 0;
    while k < needle.len()
        invariant
            k <= needle@.len(),
            at + needle@.len() <= size == hay@.len(),
            forall|m: int| 0 <= m < k ==> hay@[at + m] == needle@[m],
        decreases needle.len() - k,
    {
        if hay[at + k] != needle[k] {
            proof {
                let w = hay@.subrange(at as int, at + needle@.len());
                assert(w[k as int] != needle@[k as int]);
            }
            return false;
        }
        k = k + 1;
    }
    assert(hay@.subrange(at as int, at + needle@.len()) =~= needle@);
    true
}

/// Whether `hay` contains `needle`.
pub fn contains(hay: &str, needle: &str) -> (r: bool)
    ensures
        r == has(hay@, needle@),
{
    let h = to_chars(hay);
    let n = to_chars(needle);
    let mut at: usize = 0;
    while at <= h.len()
        invariant
            at <= h@.len() + 1,
            h@ == hay@,
            n@ == needle@,
            forall|k: int| 0 <= k < at ==> !occurs_at(hay@, needle@, k),
        decreases h.len() + 1 - at,
    {
        if matches_at(&h, &n, at) {
            return true;
        }
        if at == h.len() {
            return false;
        }
        at = at + 1;
    }
    false
}

/// Whether `s` begins with `prefix`.
pub fn starts_with(s: &str, prefix: &str) -> (r: bool)
    ensures
        r == prefix@.is_prefix_of(s@),
{
    let h = to_chars(s);
    let n = to_chars(prefix);
    matches_at(&h, &n, 0)
}

/// Whether `s` ends with `suffix`.
pub fn ends_with(s: &str, suffix: &str) -> (r: bool)
    ensures
        r == suffix@.is_suffix_of(s@),
{
    let h = to_chars(s);
    let n = to_chars(suffix);
    if h.len() < n.len() {
        return false;
    }
    matches_at(&h, &n, h.len() - n.len())
}

/// `s` without its leading white space.
pub open spec fn trim_front(s: Seq<char>) -> Seq<char>
    decreases s.len(),
{
    if s.len() > 0 && is_space(s[0]) {
        trim_front(s.skip(1))
    } else {
        s
    }
}

/// `s` without its trailing white space.
pub open spec fn trim_back(s: Seq<char>) -> Seq<char>
    decreases s.len(),
{
    if s.len() > 0 && is_space(s.last()) {
        trim_back(s.drop_last())
    } else {
        s
    }
}

/// `s` without the white space around it.
pub open spec fn trimmed(s: Seq<char>) -> Seq<char> {
    trim_back(trim_front(s))
}

/// `s` without the white space around it.
pub fn trim(s: &str) -> (r: String)
    ensures
        r@ == trimmed(s@),
{
    let c = to_chars(s);
    let n = c.len();
    let mut i: usize = 0;
    assert(c@.skip(0) =~= c@);
    while i < n && is_whitespace(c[i])
        invariant
            i <= n == c@.len(),
            c@ == s@,
            trim_front(s@) == trim_front(c@.skip(i as int)),
        decreases n - i,
    {
        assert(c@.skip(i as int).skip(1) =~= c@.skip(i + 1));
        i = i + 1;
    }
    let mut j: usize = n;
    assert(c@.skip(i as int) =~= c@.subrange(i as int, j as int));
    assert(trim_front(s@) == c@.subrange(i as int, j as int));
    while i < j && is_whitespace(c[j - 1])
        invariant
            i <= j <= n == c@.len(),
            c@ == s@,
            trimmed(s@) == trim_back(c@.subrange(i as int, j as int)),
        decreases j - i,
    {
        assert(c@.subrange(i as int, j as int).drop_last() =~= c@.subrange(i as int, j - 1));
        j = j - 1;
    }
    from_chars(&c, i, j)
}

/// How many characters stand at the front of `s` before the first white space.
pub open spec fn word_len(s: Seq<char>) -> nat
    decreases s.len(),
{
    if s.len() > 0 && !is_space(s[0]) {
        1 + word_len(s.skip(1))
    } else {
        0
    }
}

/// The first word of a text holds no white space, and white space or the end follows it.
pub proof fn lemma_word_len(s: Seq<char>)
    ensures
        word_len(s) <= s.len(),
        forall|k: int| 0 <= k < word_len(s) ==> !is_space(#[trigger] s[k]),
        word_len(s) < s.len() ==> is_space(s[word_len(s) as int]),
    decreases s.len(),
{
    if s.len() > 0 && !is_space(s[0]) {
        lemma_word_len(s.skip(1));
        assert forall|k: int| 0 <= k < word_len(s) implies !is_space(#[trigger] s[k]) by {
            if k > 0 {
                assert(s[k] == s.skip(1)[k - 1]);
            }
        }
    }
}

/// What is left of a text without its leading white space is its end, and begins with another
/// character.
pub proof fn lemma_trim_front(s: Seq<char>)
    ensures
        trim_front(s).len() <= s.len(),
        trim_front(s) == s.skip(s.len() - trim_front(s).len()),
        trim_front(s).len() > 0 ==> !is_space(trim_front(s)[0]),
    decreases s.len(),
{
    if s.len() > 0 && is_space(s[0]) {
        lemma_trim_front(s.skip(1));
        assert(s.skip(1).skip(s.skip(1).len() - trim_front(s).len()) =~= s.skip(
            s.len() - trim_front(s).len(),
        ));
    } else {
        assert(s.skip(0) =~= s);
    }
}

/// The words of `s`: its maximal runs of characters other than white space, in order.
pub open spec fn words(s: Seq<char>) -> Seq<Seq<char>>
    decreases s.len(),
    via words_decreases
{
    let t = trim_front(s);
    if t.len() == 0 {
        Seq::empty()
    } else {
        seq![t.take(word_len(t) as int)] + words(t.skip(word_len(t) as int))
    }
}

#[via_fn]
proof fn words_decreases(s: Seq<char>) {
    lemma_trim_front(s);
    let t = trim_front(s);
    lemma_word_len(t);
    if t.len() > 0 {
        assert(word_len(t) >= 1);
    }
}

/// The views of a list of strings.
pub open spec fn views(list: Seq<String>) -> Seq<Seq<char>> {
    list.map_values(|s: String| s@)
}

/// The view of an optional string.
pub open spec fn opt(s: Option<String>) -> Option<Seq<char>> {
    match s {
        Some(t) => Some(t@),
        None => None,
    }
}

/// The view of a text or an error.
pub open spec fn outcome(r: Result<String, String>) -> Result<Seq<char>, Seq<char>> {
    match r {
        Ok(s) => Ok(s@),
        Err(e) => Err(e@),
    }
}

/// The view of an outcome that is nothing but a success or an error.
pub open spec fn step_outcome(r: Result<(), String>) -> Result<(), Seq<char>> {
    match r {
        Ok(()) => Ok(()),
        Err(e) => Err(e@),
    }
}

/// The words of `s`, in order.
pub fn split_whitespace(s: &str) -> (r: Vec<String>)
    ensures
        views(r@) == words(s@),
{
    let c = to_chars(s);
    let n = c.len();
    let mut r: Vec<String> = Vec::new();
    let mut i: usize = 0;
    assert(c@.skip(0) =~= c@);
    assert(views(r@) + words(c@.skip(0)) =~= words(s@));
    while i < n
        invariant
            i <= n == c@.len(),
            c@ == s@,
            views(r@) + words(c@.skip(i as int)) == words(s@),
        decreases n - i,
    {
        let ghost t = c@.skip(i as int);
        if is_whitespace(c[i]) {
            assert(t.skip(1) =~= c@.skip(i + 1));
            assert(trim_front(t) == trim_front(t.skip(1)));
            i = i + 1;
        } else {
            let mut j: usize = i;
            while j < n && !is_whitespace(c[j])
                invariant
                    i <= j <= n == c@.len(),
                    i < n,
                    t == c@.skip(i as int),
                    !is_space(c@[i as int]),
                    forall|k: int| i <= k < j ==> !is_space(#[trigger] c@[k]),
                decreases n - j,
            {
                j = j + 1;
            }
            let w = from_chars(&c, i, j);
            proof {
                lemma_word_len(t);
                assert(trim_front(t) == t);
                if word_len(t) < j - i {
                    assert(t[word_len(t) as int] == c@[i + word_len(t)]);
                }
                if word_len(t) > j - i {
                    assert(t[j - i] == c@[j as int]);
                }
                assert(t.take(j - i) =~= w@);
                assert(t.skip(j - i) =~= c@.skip(j as int));
                assert(words(t) == seq![w@] + words(c@.skip(j as int)));
                assert(views(r@.push(w)) =~= views(r@).push(w@));
                assert(views(r@.push(w)) + words(c@.skip(j as int)) =~= views(r@) + words(t));
            }
            r.push(w);
            i = j;
        }
    }
    assert(c@.skip(n as int).len() == 0);
    assert(words(c@.skip(n as int)) =~= Seq::<Seq<char>>::empty());
    assert(views(r@) + Seq::<Seq<char>>::empty() =~= views(r@));
    r
}

/// The parts in order, with `sep` between neighbours.
pub open spec fn joined(parts: Seq<Seq<char>>, sep: Seq<char>) -> Seq<char>
    decreases parts.len(),
{
    if parts.len() == 0 {
        Seq::empty()
    } else if parts.len() == 1 {
        parts[0]
    } else {
        joined(parts.drop_last(), sep) + sep + parts.last()
    }
}

/// The parts in order, with `sep` between neighbours.
pub fn join(parts: &Vec<String>, sep: &str) -> (r: String)
    ensures
        r@ == joined(views(parts@), sep@),
{
    let mut r = String::new();
    let mut i: usize = 0;
    let ghost v = views(parts@);
    while i < parts.len()
        invariant
            i <= parts@.len(),
            v == views(parts@),
            r@ == joined(v.take(i as int), sep@),
        decreases parts.len() - i,
    {
        if i > 0 {
            r.append(sep);
        }
        r.append(parts[i].as_str());
        proof {
            assert(v.take(i + 1).drop_last() =~= v.take(i as int));
            assert(v.take(i + 1).last() == parts@[i as int]@);
            if i == 0 {
                assert(v.take(0) =~= Seq::<Seq<char>>::empty());
                assert(r@ =~= parts@[0]@);
            }
        }
        i = i + 1;
    }
    assert(v.take(parts@.len() as int) =~= v);
    r
}

/// `s` with its words separated by single spaces and nothing around them.
pub open spec fn collapsed(s: Seq<char>) -> Seq<char> {
    joined(words(s), seq![' '])
}

/// What is left of a text without its trailing white space is its beginning.
pub proof fn lemma_trim_back(s: Seq<char>)
    ensures
        trim_back(s).len() <= s.len(),
        trim_back(s) == s.take(trim_back(s).len() as int),
    decreases s.len(),
{
    if s.len() > 0 && is_space(s.last()) {
        lemma_trim_back(s.drop_last());
        assert(s.drop_last().take(trim_back(s).len() as int) =~= s.take(
            trim_back(s).len() as int,
        ));
    } else {
        assert(s.take(s.len() as int) =~= s);
    }
}

/// The words of a text are not empty, hold no white space, and are made of its characters.
pub proof fn lemma_words_chars(s: Seq<char>)
    ensures
        forall|k: int, i: int|
            0 <= k < words(s).len() && 0 <= i < words(s)[k].len() ==> {
                &&& !is_space(#[trigger] words(s)[k][i])
                &&& s.contains(words(s)[k][i])
            },
        forall|k: int| 0 <= k < words(s).len() ==> (#[trigger] words(s)[k]).len() > 0,
    decreases s.len(),
{
    let t = trim_front(s);
    lemma_trim_front(s);
    lemma_word_len(t);
    if t.len() > 0 {
        let n = word_len(t) as int;
        let rest = t.skip(n);
        assert(n >= 1);
        lemma_words_chars(rest);
        assert(words(s) == seq![t.take(n)] + words(rest));
        let lead = s.len() - t.len();
        assert forall|k: int, i: int|
            0 <= k < words(s).len() && 0 <= i < words(s)[k].len() implies {
            &&& !is_space(#[trigger] words(s)[k][i])
            &&& s.contains(words(s)[k][i])
        } by {
            if k == 0 {
                assert(words(s)[0][i] == t[i]);
                assert(t[i] == s[lead + i]);
            } else {
                assert(words(s)[k] == words(rest)[k - 1]);
                let c = words(rest)[k - 1][i];
                assert(rest.contains(c));
                let m = choose|m: int| 0 <= m < rest.len() && rest[m] == c;
                assert(s[lead + n + m] == c);
            }
        }
        assert forall|k: int| 0 <= k < words(s).len() implies (#[trigger] words(s)[k]).len()
            > 0 by {
            if k > 0 {
                assert(words(s)[k] == words(rest)[k - 1]);
            }
        }
    }
}

/// Whether white space stands in a text only as single blanks between other characters.
pub open spec fn is_tidy(s: Seq<char>) -> bool {
    &&& s.len() > 0 ==> !is_space(s[0]) && !is_space(s.last())
    &&& forall|i: int| 0 <= i < s.len() && is_space(#[trigger] s[i]) ==> s[i] == ' '
    &&& forall|i: int, j: int|
        0 <= i < s.len() && j == i + 1 && j < s.len() ==> !(is_space(#[trigger] s[i])
            && is_space(#[trigger] s[j]))
}

proof fn lemma_joined_tidy(parts: Seq<Seq<char>>)
    requires
        forall|k: int| 0 <= k < parts.len() ==> (#[trigger] parts[k]).len() > 0,
        forall|k: int, i: int|
            0 <= k < parts.len() && 0 <= i < parts[k].len() ==> !is_space(#[trigger] parts[k][i]),
    ensures
        is_tidy(joined(parts, seq![' '])),
        parts.len() > 0 ==> joined(parts, seq![' ']).len() > 0,
    decreases parts.len(),
{
    let sep = seq![' '];
    if parts.len() >= 2 {
        let head = joined(parts.drop_last(), sep);
        let last = parts.last();
        assert forall|k: int, i: int|
            0 <= k < parts.drop_last().len() && 0 <= i < parts.drop_last()[k].len() implies
            !is_space(#[trigger] parts.drop_last()[k][i]) by {
            assert(!is_space(parts[k][i]));
        }
        lemma_joined_tidy(parts.drop_last());
        let s = joined(parts, sep);
        assert(s == head + sep + last);
        let n = head.len() as int;
        assert(forall|i: int| 0 <= i < n ==> s[i] == head[i]);
        assert(s[n] == ' ');
        assert(forall|i: int| n < i < s.len() ==> s[i] == last[i - n - 1]);
        assert forall|i: int| n < i < s.len() implies !is_space(#[trigger] s[i]) by {
            assert(!is_space(parts[parts.len() - 1][i - n - 1]));
        }
        assert(head[n - 1] == head.last());
        assert(!is_space(s[n - 1]));
    } else if parts.len() == 1 {
        let s = parts[0];
        assert forall|i: int| 0 <= i < s.len() implies !is_space(#[trigger] s[i]) by {
            assert(!is_space(parts[0][i]));
        }
    }
}

proof fn lemma_joined_front(a: Seq<char>, rest: Seq<Seq<char>>, sep: Seq<char>)
    requires
        rest.len() > 0,
    ensures
        joined(seq![a] + rest, sep) == a + sep + joined(rest, sep),
    decreases rest.len(),
{
    let all = seq![a] + rest;
    assert(all.last() == rest.last());
    if rest.len() == 1 {
        assert(all.drop_last() =~= seq![a]);
        assert(joined(seq![a], sep) == a);
        assert(joined(rest, sep) == rest[0]);
    } else {
        assert(all.drop_last() =~= seq![a] + rest.drop_last());
        lemma_joined_front(a, rest.drop_last(), sep);
        assert(joined(all, sep) =~= a + sep + joined(rest, sep));
    }
}

/// A collapsed text is tidy.
pub proof fn collapsed_is_tidy(s: Seq<char>)
    ensures
        is_tidy(collapsed(s)),
{
    lemma_words_chars(s);
    lemma_joined_tidy(words(s));
}

/// Collapsing and trimming leave a tidy text as it is.
pub proof fn tidy_text_stays(s: Seq<char>)
    requires
        is_tidy(s),
    ensures
        collapsed(s) == s,
        trimmed(s) == s,
    decreases s.len(),
{
    let sep = seq![' '];
    if s.len() == 0 {
        assert(words(s) =~= Seq::<Seq<char>>::empty());
        assert(collapsed(s) =~= s);
    } else {
        let n = word_len(s) as int;
        lemma_word_len(s);
        assert(trim_front(s) == s);
        assert(n >= 1);
        let tail = s.skip(n);
        assert(words(s) == seq![s.take(n)] + words(tail));
        if n == s.len() {
            assert(tail =~= Seq::<char>::empty());
            assert(words(tail) =~= Seq::<Seq<char>>::empty());
            assert(s.take(n) =~= s);
            assert(words(s) =~= seq![s]);
        } else {
            assert(is_space(s[n]));
            assert(n + 1 < s.len());
            let rest = s.skip(n + 1);
            assert(tail.skip(1) =~= rest);
            assert(rest[0] == s[n + 1]);
            assert(!is_space(s[n + 1]));
            assert(trim_front(rest) == rest);
            assert(tail[0] == s[n]);
            assert(trim_front(tail) == rest);
            assert(words(tail) == words(rest));
            assert(rest.last() == s.last());
            assert(is_tidy(rest)) by {
                assert(forall|i: int| 0 <= i < rest.len() ==> #[trigger] rest[i] == s[i + n + 1]);
            }
            tidy_text_stays(rest);
            lemma_word_len(rest);
            assert(words(rest).len() > 0);
            lemma_joined_front(s.take(n), words(rest), sep);
            assert(collapsed(s) =~= s.take(n) + sep + rest);
            assert(s.take(n) + sep + rest =~= s);
        }
    }
}

/// `s` with its words separated by single spaces and nothing around them.
pub fn collapse(s: &str) -> (r: String)
    ensures
        r@ == collapsed(s@),
{
    let w = split_whitespace(s);
    proof {
        reveal_strlit(" ");
        assert(" "@ =~= seq![' ']);
    }
    join(&w, " ")
}

/// `s` with every occurrence of `from` replaced by `to`, found left to right without overlap.
pub open spec fn replaced(s: Seq<char>, from: Seq<char>, to: Seq<char>) -> Seq<char>
    decreases s.len(),
{
    if from.len() == 0 || s.len() < from.len() {
        s
    } else if from.is_prefix_of(s) {
        to + replaced(s.skip(from.len() as int), from, to)
    } else {
        s.take(1) + replaced(s.skip(1), from, to)
    }
}

/// `s` with every occurrence of `from` replaced by `to`, found left to right without overlap.
pub fn replace(s: &str, from: &str, to: &str) -> (r: String)
    requires
        from@.len() > 0,
    ensures
        r@ == replaced(s@, from@, to@),
{
    let c = to_chars(s);
    let f = to_chars(from);
    let n = c.len();
    let mut r = String::new();
    let mut i: usize = 0;
    assert(c@.skip(0) =~= c@);
    assert(r@ + replaced(c@.skip(0), from@, to@) =~= replaced(s@, from@, to@));
    while i < n
        invariant
            i <= n == c@.len(),
            c@ == s@,
            f@ == from@,
            from@.len() > 0,
            r@ + replaced(c@.skip(i as int), from@, to@) == replaced(s@, from@, to@),
        decreases n - i,
    {
        let ghost t = c@.skip(i as int);
        if matches_at(&c, &f, i) {
            proof {
                assert(t.take(from@.len() as int) =~= c@.subrange(i as int, i + from@.len()));
                assert(t.skip(from@.len() as int) =~= c@.skip(i + from@.len()));
                assert(r@ + (to@ + replaced(t.skip(from@.len() as int), from@, to@)) =~= (r@ + to@)
                    + replaced(t.skip(from@.len() as int), from@, to@));
            }
            r.append(to);
            i = i + f.len();
        } else {
            proof {
                if t.len() >= from@.len() {
                    if from@.is_prefix_of(t) {
                        assert(c@.subrange(i as int, i + from@.len()) =~= t.take(from@.len() as int));
                        assert(false);
                    }
                    assert(t.skip(1) =~= c@.skip(i + 1));
                    assert(t.take(1) =~= seq![c@[i as int]]);
                } else {
                    assert(t =~= seq![c@[i as int]] + c@.skip(i + 1));
                }
                assert(r@ + (seq![c@[i as int]] + replaced(c@.skip(i + 1), from@, to@))
                    =~= r@.push(c@[i as int]) + replaced(c@.skip(i + 1), from@, to@));
            }
            r.push(c[i]);
            i = i + 1;
        }
    }
    assert(c@.skip(n as int) =~= Seq::<char>::empty());
    assert(r@ + Seq::<char>::empty() =~= r@);
    r
}

/// The pieces of `s` between the occurrences of `sep`, found left to right without overlap.
pub open spec fn pieces(s: Seq<char>, sep: Seq<char>) -> Seq<Seq<char>> {
    pieces_from(s, sep, 0)
}

/// The pieces of `s`, where no `sep` stands before position `at`.
pub open spec fn pieces_from(s: Seq<char>, sep: Seq<char>, at: int) -> Seq<Seq<char>>
    decreases s.len() - at,
{
    if sep.len() == 0 || at < 0 || at + sep.len() > s.len() {
        seq![s]
    } else if occurs_at(s, sep, at) {
        seq![s.take(at)] + pieces_from(s.skip(at + sep.len()), sep, 0)
    } else {
        pieces_from(s, sep, at + 1)
    }
}

/// The pieces of `s` between the occurrences of `sep`, found left to right without overlap.
pub fn split(s: &str, sep: &str) -> (r: Vec<String>)
    requires
        sep@.len() > 0,
    ensures
        views(r@) == pieces(s@, sep@),
{
    let c = to_chars(s);
    let f = to_chars(sep);
    let n = c.len();
    let mut r: Vec<String> = Vec::new();
    let mut start: usize = 0;
    let mut i: usize = 0;
    assert(c@.skip(0) =~= c@);
    assert(views(r@) + pieces_from(c@.skip(0), sep@, 0) =~= pieces(s@, sep@));
    while i < n
        invariant
            start <= i <= n == c@.len(),
            c@ == s@,
            f@ == sep@,
            sep@.len() > 0,
            views(r@) + pieces_from(c@.skip(start as int), sep@, i - start) == pieces(s@, sep@),
        decreases n - i,
    {
        let ghost t = c@.skip(start as int);
        if matches_at(&c, &f, i) {
            let w = from_chars(&c, start, i);
            proof {
                assert(t.subrange(i - start, i - start + sep@.len()) =~= c@.subrange(
                    i as int,
                    i + sep@.len(),
                ));
                assert(occurs_at(t, sep@, i - start));
                assert(t.take(i - start) =~= w@);
                assert(t.skip(i - start + sep@.len()) =~= c@.skip(i + sep@.len()));
                assert(views(r@.push(w)) =~= views(r@).push(w@));
                assert(views(r@.push(w)) + pieces_from(c@.skip(i + sep@.len()), sep@, 0) =~= views(
                    r@,
                ) + pieces_from(t, sep@, i - start));
            }
            r.push(w);
            i = i + f.len();
            start = i;
        } else {
            proof {
                if i - start + sep@.len() <= t.len() {
                    assert(t.subrange(i - start, i - start + sep@.len()) =~= c@.subrange(
                        i as int,
                        i + sep@.len(),
                    ));
                    assert(!occurs_at(t, sep@, i - start));
                }
            }
            i = i + 1;
        }
    }
    let w = from_chars(&c, start, n);
    proof {
        assert(c@.skip(start as int) =~= w@);
        assert(views(r@.push(w)) =~= views(r@) + seq![w@]);
    }
    r.push(w);
    r
}

/// The lines of `s`: the pieces between line feeds, without the empty piece that a final line
/// feed leaves, each without the carriage return that stood before its line feed.
pub open spec fn lines_of(s: Seq<char>) -> Seq<Seq<char>> {
    let p = pieces(s, seq!['\n']);
    let full = p.drop_last().map_values(|l: Seq<char>| without_cr(l));
    if p.last().len() == 0 {
        full
    } else {
        full.push(p.last())
    }
}

/// `l` without one final carriage return.
pub open spec fn without_cr(l: Seq<char>) -> Seq<char> {
    if l.len() > 0 && l.last() == '\r' {
        l.drop_last()
    } else {
        l
    }
}

/// Splitting a text gives at least one piece.
pub proof fn lemma_pieces_nonempty(s: Seq<char>, sep: Seq<char>, at: int)
    ensures
        pieces_from(s, sep, at).len() >= 1,
    decreases s.len() - at,
{
    if sep.len() == 0 || at < 0 || at + sep.len() > s.len() {
    } else if occurs_at(s, sep, at) {
    } else {
        lemma_pieces_nonempty(s, sep, at + 1);
    }
}

/// The lines of `s`.
pub fn lines(s: &str) -> (r: Vec<String>)
    ensures
        views(r@) == lines_of(s@),
{
    proof {
        reveal_strlit("\n");
        assert("\n"@ =~= seq!['\n']);
        lemma_pieces_nonempty(s@, seq!['\n'], 0);
    }
    let p = split(s, "\n");
    let ghost v = pieces(s@, seq!['\n']);
    assert(v.len() == p@.len());
    let last: usize = p.len() - 1;
    let mut r: Vec<String> = Vec::new();
    let mut i: usize = 0;
    while i < last
        invariant
            i <= last,
            last + 1 == p@.len(),
            views(p@) == v,
            views(r@) == v.take(i as int).map_values(|l: Seq<char>| without_cr(l)),
        decreases last - i,
    {
        let c = to_chars(p[i].as_str());
        assert(v[i as int] == p@[i as int]@);
        let w = if c.len() > 0 && c[c.len() - 1] == '\r' {
            from_chars(&c, 0, c.len() - 1)
        } else {
            p[i].clone()
        };
        proof {
            assert(w@ =~= without_cr(v[i as int]));
            assert(views(r@.push(w)) =~= views(r@).push(w@));
            assert(v.take(i + 1) =~= v.take(i as int).push(v[i as int]));
            assert(v.take(i + 1).map_values(|l: Seq<char>| without_cr(l)) =~= v.take(
                i as int,
            ).map_values(|l: Seq<char>| without_cr(l)).push(w@));
        }
        r.push(w);
        i = i + 1;
    }
    assert(v.take(last as int) =~= v.drop_last());
    assert(v.last() == p@[last as int]@);
    if !p[last].as_str().is_empty() {
        let w = p[last].clone();
        assert(views(r@.push(w)) =~= views(r@).push(w@));
        r.push(w);
    }
    r
}

/// The lower-case form of an ASCII letter; any other character unchanged.
pub open spec fn ascii_lower(c: char) -> char {
    if 'A' <= c <= 'Z' {
        ((c as u32) + 32) as char
    } else {
        c
    }
}

/// `s` with its ASCII letters in lower case.
pub open spec fn ascii_lowered(s: Seq<char>) -> Seq<char> {
    s.map_values(|c: char| ascii_lower(c))
}

/// The upper-case form of an ASCII letter; any other character unchanged.
pub open spec fn ascii_upper(c: char) -> char {
    if 'a' <= c <= 'z' {
        ((c as u32) - 32) as char
    } else {
        c
    }
}

/// `c` with ASCII letters in lower case.
pub fn to_ascii_lower(c: char) -> (r: char)
    ensures
        r == ascii_lower(c),
{
    if 'A' <= c && c <= 'Z' {
        ((c as u8) + 32) as char
    } else {
        c
    }
}

/// `c` with ASCII letters in upper case.
pub fn to_ascii_upper(c: char) -> (r: char)
    ensures
        r == ascii_upper(c),
{
    if 'a' <= c && c <= 'z' {
        ((c as u8) - 32) as char
    } else {
        c
    }
}

/// Whether a text is made of white space, or empty.
pub open spec fn is_blank(s: Seq<char>) -> bool {
    forall|i: int| 0 <= i < s.len() ==> is_space(#[trigger] s[i])
}

proof fn lemma_front_is_blank(s: Seq<char>)
    ensures
        is_blank(s.take(s.len() - trim_front(s).len())),
    decreases s.len(),
{
    lemma_trim_front(s);
    if s.len() > 0 && is_space(s[0]) {
        let rest = s.skip(1);
        lemma_front_is_blank(rest);
        lemma_trim_front(rest);
        let n = s.len() - trim_front(s).len();
        assert forall|i: int| 0 <= i < n implies is_space(#[trigger] s.take(n)[i]) by {
            if i > 0 {
                assert(s.take(n)[i] == rest.take(n - 1)[i - 1]);
            }
        }
    }
}

proof fn lemma_back_is_blank(s: Seq<char>)
    ensures
        is_blank(s.skip(trim_back(s).len() as int)),
        trim_back(s).len() > 0 ==> !is_space(trim_back(s).last()),
    decreases s.len(),
{
    lemma_trim_back(s);
    if s.len() > 0 && is_space(s.last()) {
        let rest = s.drop_last();
        lemma_back_is_blank(rest);
        lemma_trim_back(rest);
        let n = trim_back(s).len() as int;
        assert forall|i: int| 0 <= i < s.len() - n implies is_space(#[trigger] s.skip(n)[i]) by {
            if i < s.len() - n - 1 {
                assert(s.skip(n)[i] == rest.skip(n)[i]);
            }
        }
    }
}

/// A trimmed text is what is left between the white space at both ends, and neither begins nor
/// ends with white space itself.
pub proof fn trimmed_is_between_blanks(s: Seq<char>)
    ensures
        exists|front: Seq<char>, back: Seq<char>|
            #[trigger] is_blank(front) && #[trigger] is_blank(back) && s == front + trimmed(s)
                + back,
        trimmed(s).len() > 0 ==> !is_space(trimmed(s)[0]) && !is_space(trimmed(s).last()),
{
    let t = trim_front(s);
    lemma_trim_front(s);
    lemma_front_is_blank(s);
    lemma_trim_back(t);
    lemma_back_is_blank(t);
    let front = s.take(s.len() - t.len());
    let back = t.skip(trimmed(s).len() as int);
    assert(s =~= front + t);
    assert(t =~= trimmed(s) + back);
    assert(is_blank(front) && is_blank(back));
    assert(s =~= front + trimmed(s) + back);
}

/// Trimming a text takes away the white space around it and nothing else.
pub proof fn trim_takes_blanks_away(s: &str, r: String)
    requires
        call_ensures(trim, (s,), r),
    ensures
        exists|a: Seq<char>, b: Seq<char>|
            #[trigger] is_blank(a) && #[trigger] is_blank(b) && s@ == a + r@ + b,
        r@.len() > 0 ==> !is_space(r@[0]) && !is_space(r@.last()),
        is_blank(s@) <==> r@.len() == 0,
{
    trimmed_is_between_blanks(s@);
    let (a, b) = choose|a: Seq<char>, b: Seq<char>|
        #[trigger] is_blank(a) && #[trigger] is_blank(b) && s@ == a + trimmed(s@) + b;
    if r@.len() == 0 {
        assert forall|i: int| 0 <= i < s@.len() implies is_space(#[trigger] s@[i]) by {
            if i < a.len() {
                assert(s@[i] == a[i]);
            } else {
                assert(s@[i] == b[i - a.len()]);
            }
        }
    } else {
        assert(s@[a.len() as int] == r@[0]);
    }
}

proof fn lemma_trim_front_of(s: Seq<char>, tail: Seq<char>)
    requires
        tail.len() > 0,
        is_space(tail[0]),
    ensures
        is_blank(s) ==> trim_front(s + tail) == trim_front(tail) && trim_front(s).len() == 0,
        !is_blank(s) ==> trim_front(s + tail) == trim_front(s) + tail && trim_front(s).len() > 0,
    decreases s.len(),
{
    if s.len() == 0 {
        assert(s + tail =~= tail);
    } else if is_space(s[0]) {
        let rest = s.skip(1);
        assert((s + tail).skip(1) =~= rest + tail);
        lemma_trim_front_of(rest, tail);
        if is_blank(rest) {
            assert forall|i: int| 0 <= i < s.len() implies is_space(#[trigger] s[i]) by {
                if i > 0 {
                    assert(s[i] == rest[i - 1]);
                }
            }
        } else if is_blank(s) {
            assert forall|i: int| 0 <= i < rest.len() implies is_space(#[trigger] rest[i]) by {
                assert(rest[i] == s[i + 1]);
            }
        }
    } else {
        assert(!is_space(s[0]));
    }
}

proof fn lemma_word_len_of(s: Seq<char>, tail: Seq<char>)
    requires
        tail.len() > 0,
        is_space(tail[0]),
    ensures
        word_len(s + tail) == word_len(s),
    decreases s.len(),
{
    if s.len() == 0 {
        assert(s + tail =~= tail);
    } else if !is_space(s[0]) {
        assert((s + tail).skip(1) =~= s.skip(1) + tail);
        lemma_word_len_of(s.skip(1), tail);
    }
}

/// White space is what splits a text into words: the words on both sides of it are those of the
/// text, and a text without it is one word, if it is not empty.
pub proof fn words_split_at_blanks(a: Seq<char>, blank: char, b: Seq<char>)
    requires
        is_space(blank),
    ensures
        words(a + seq![blank] + b) == words(a) + words(b),
        a.len() > 0 && (forall|i: int| 0 <= i < a.len() ==> !is_space(#[trigger] a[i])) ==> words(a)
            == seq![a],
        a.len() == 0 ==> words(a).len() == 0,
    decreases a.len(),
{
    let tail = seq![blank] + b;
    let whole = a + seq![blank] + b;
    assert(whole =~= a + tail);
    lemma_trim_front_of(a, tail);
    lemma_trim_front(a);
    if is_blank(a) {
        assert(tail.skip(1) =~= b);
        assert(trim_front(tail) == trim_front(b));
        assert(words(whole) == words(b));
        assert(words(a) + words(b) =~= words(b));
    } else {
        let t = trim_front(a);
        let n = word_len(t) as int;
        lemma_word_len(t);
        lemma_word_len_of(t, tail);
        let rest = t.skip(n);
        words_split_at_blanks(rest, blank, b);
        assert((t + tail).take(n) =~= t.take(n));
        assert((t + tail).skip(n) =~= rest + seq![blank] + b);
        assert(words(whole) =~= words(a) + words(b));
    }
    if a.len() > 0 && (forall|i: int| 0 <= i < a.len() ==> !is_space(#[trigger] a[i])) {
        assert(trim_front(a) == a);
        lemma_word_len(a);
        assert(word_len(a) == a.len());
        assert(a.take(a.len() as int) =~= a);
        assert(a.skip(a.len() as int) =~= Seq::<char>::empty());
        assert(words(Seq::<char>::empty()) =~= Seq::<Seq<char>>::empty());
        assert(words(a) =~= seq![a]);
    }
}

/// The words that come out of a text are its words, and collapsing it puts single blanks between
/// them.
pub proof fn collapsed_text_has_its_words(s: &str, list: Vec<String>, r: String)
    requires
        call_ensures(split_whitespace, (s,), list),
        call_ensures(collapse, (s,), r),
    ensures
        views(list@) == words(s@),
        r@ == joined(words(s@), seq![' ']),
        is_tidy(r@),
        is_tidy(s@) ==> r@ == s@,
        words(r@) == words(s@),
{
    collapsed_is_tidy(s@);
    if is_tidy(s@) {
        tidy_text_stays(s@);
    }
    lemma_words_chars(s@);
    lemma_words_joined(words(s@));
}

proof fn lemma_words_joined(parts: Seq<Seq<char>>)
    requires
        forall|k: int| 0 <= k < parts.len() ==> (#[trigger] parts[k]).len() > 0,
        forall|k: int, i: int|
            0 <= k < parts.len() && 0 <= i < parts[k].len() ==> !is_space(#[trigger] parts[k][i]),
    ensures
        words(joined(parts, seq![' '])) == parts,
    decreases parts.len(),
{
    let sep = seq![' '];
    if parts.len() == 0 {
        words_split_at_blanks(Seq::empty(), ' ', Seq::empty());
        assert(words(joined(parts, sep)) =~= parts);
    } else if parts.len() == 1 {
        let a = parts[0];
        assert forall|i: int| 0 <= i < a.len() implies !is_space(#[trigger] a[i]) by {
            assert(!is_space(parts[0][i]));
        }
        words_split_at_blanks(a, ' ', Seq::empty());
        assert(parts =~= seq![a]);
    } else {
        let front = parts.drop_last();
        let last = parts.last();
        assert forall|k: int, i: int|
            0 <= k < front.len() && 0 <= i < front[k].len() implies !is_space(
            #[trigger] front[k][i],
        ) by {
            assert(!is_space(parts[k][i]));
        }
        lemma_words_joined(front);
        assert forall|i: int| 0 <= i < last.len() implies !is_space(#[trigger] last[i]) by {
            assert(!is_space(parts[parts.len() - 1][i]));
        }
        words_split_at_blanks(joined(front, sep), ' ', last);
        words_split_at_blanks(last, ' ', Seq::empty());
        assert(front + seq![last] =~= parts);
    }
}

proof fn lemma_pieces_join(s: Seq<char>, sep: Seq<char>, at: int)
    requires
        sep.len() > 0,
        0 <= at,
        forall|k: int| 0 <= k < at ==> !occurs_at(s, sep, k),
    ensures
        joined(pieces_from(s, sep, at), sep) == s,
        forall|k: int|
            0 <= k < pieces_from(s, sep, at).len() ==> !(has(
                #[trigger] pieces_from(s, sep, at)[k],
                sep,
            )),
    decreases s.len(), s.len() - at,
{
    let p = pieces_from(s, sep, at);
    if at + sep.len() > s.len() {
        assert forall|k: int| !occurs_at(s, sep, k) by {}
        assert(joined(seq![s], sep) == s);
    } else if occurs_at(s, sep, at) {
        let first = s.take(at);
        let rest = s.skip(at + sep.len());
        lemma_pieces_join(rest, sep, 0);
        lemma_pieces_nonempty(rest, sep, 0);
        lemma_joined_front(first, pieces_from(rest, sep, 0), sep);
        assert(s =~= first + sep + rest) by {
            assert(s.subrange(at, at + sep.len()) == sep);
            assert forall|i: int| 0 <= i < s.len() implies s[i] == (first + sep + rest)[i] by {
                if at <= i < at + sep.len() {
                    assert(s.subrange(at, at + sep.len())[i - at] == s[i]);
                }
            }
        }
        assert forall|k: int| !occurs_at(first, sep, k) by {
            if occurs_at(first, sep, k) {
                assert(s.subrange(k, k + sep.len()) =~= first.subrange(k, k + sep.len()));
                assert(occurs_at(s, sep, k));
            }
        }
        assert forall|k: int| 0 <= k < p.len() implies !(has(#[trigger] p[k], sep)) by {
            if k > 0 {
                assert(p[k] == pieces_from(rest, sep, 0)[k - 1]);
            }
        }
    } else {
        lemma_pieces_join(s, sep, at + 1);
    }
}

/// The pieces of a text joined again by what they were split at are the text, and none of them
/// holds it any more.
pub proof fn pieces_join_again(s: &str, sep: &str, list: Vec<String>)
    requires
        sep@.len() > 0,
        call_ensures(split, (s, sep), list),
    ensures
        joined(views(list@), sep@) == s@,
        forall|k: int| 0 <= k < views(list@).len() ==> !(has(
            #[trigger] views(list@)[k],
            sep@,
        )),
{
    lemma_pieces_join(s@, sep@, 0);
}

/// Joined texts stand in their order with the separator between neighbours.
pub proof fn join_adds_one_by_one(parts: Seq<Seq<char>>, last: Seq<char>, sep: Seq<char>)
    ensures
        joined(Seq::empty(), sep).len() == 0,
        joined(seq![last], sep) == last,
        parts.len() > 0 ==> joined(parts.push(last), sep) == joined(parts, sep) + sep + last,
{
    assert(parts.push(last).drop_last() =~= parts);
}

proof fn lemma_replaced(s: Seq<char>, from: Seq<char>, to: Seq<char>, at: int)
    requires
        from.len() > 0,
        0 <= at <= s.len(),
        forall|k: int| 0 <= k < at ==> !occurs_at(s, from, k),
    ensures
        replaced(s, from, to) == s.take(at) + replaced(s.skip(at), from, to),
    decreases at,
{
    if at == 0 {
        assert(s.skip(0) =~= s);
        assert(s.take(0) + replaced(s.skip(0), from, to) =~= replaced(s, from, to));
    } else {
        lemma_replaced(s, from, to, at - 1);
        let t = s.skip(at - 1);
        if t.len() >= from.len() {
            if from.is_prefix_of(t) {
                assert(s.subrange(at - 1, at - 1 + from.len()) =~= t.take(from.len() as int));
                assert(occurs_at(s, from, at - 1));
            }
            assert(t.skip(1) =~= s.skip(at));
            assert(s.take(at - 1) + (t.take(1) + replaced(t.skip(1), from, to)) =~= s.take(at)
                + replaced(s.skip(at), from, to));
        } else {
            assert(s.skip(at).len() < from.len());
            assert(s.take(at - 1) + t =~= s.take(at) + s.skip(at));
        }
    }
}

proof fn lemma_replaced_joins(s: Seq<char>, from: Seq<char>, to: Seq<char>, at: int)
    requires
        from.len() > 0,
        0 <= at,
        forall|k: int| 0 <= k < at ==> !occurs_at(s, from, k),
    ensures
        replaced(s, from, to) == joined(pieces_from(s, from, at), to),
    decreases s.len(), s.len() - at,
{
    if at + from.len() > s.len() {
        let stop = if at <= s.len() {
            at
        } else {
            s.len() as int
        };
        lemma_replaced(s, from, to, stop);
        assert(s.take(stop) + s.skip(stop) =~= s);
        assert(joined(seq![s], to) == s);
    } else if occurs_at(s, from, at) {
        let rest = s.skip(at + from.len());
        lemma_replaced(s, from, to, at);
        lemma_replaced_joins(rest, from, to, 0);
        lemma_pieces_nonempty(rest, from, 0);
        lemma_joined_front(s.take(at), pieces_from(rest, from, 0), to);
        let t = s.skip(at);
        assert(t.take(from.len() as int) =~= s.subrange(at, at + from.len()));
        assert(from.is_prefix_of(t));
        assert(t.skip(from.len() as int) =~= rest);
        assert(s.take(at) + (to + replaced(rest, from, to)) =~= s.take(at) + to + replaced(
            rest,
            from,
            to,
        ));
    } else {
        lemma_replaced_joins(s, from, to, at + 1);
    }
}

/// Replacing one text by another in a third is splitting that at the one and joining the pieces by
/// the other.
pub proof fn replacing_is_splitting_and_joining(
    s: &str,
    from: &str,
    to: &str,
    list: Vec<String>,
    r: String,
)
    requires
        from@.len() > 0,
        call_ensures(split, (s, from), list),
        call_ensures(replace, (s, from, to), r),
    ensures
        r@ == joined(views(list@), to@),
{
    lemma_replaced_joins(s@, from@, to@, 0);
}

proof fn lemma_first_line(a: Seq<char>, b: Seq<char>, at: int)
    requires
        !a.contains('\n'),
        0 <= at <= a.len(),
    ensures
        pieces_from(a + seq!['\n'] + b, seq!['\n'], at) == seq![a] + pieces(b, seq!['\n']),
        pieces_from(a, seq!['\n'], at) == seq![a],
    decreases a.len() - at,
{
    let sep = seq!['\n'];
    let s = a + sep + b;
    if at == a.len() {
        assert(s.subrange(at, at + 1) =~= sep);
        assert(s.take(at) =~= a);
        assert(s.skip(at + 1) =~= b);
    } else {
        assert(a.contains(a[at]));
        assert(s.subrange(at, at + 1)[0] == a[at]);
        assert(a.subrange(at, at + 1)[0] == a[at]);
        lemma_first_line(a, b, at + 1);
    }
}

/// Line feeds are what splits a text into lines: what stands before the first is a line, without a
/// carriage return at its end, and what stands behind it is read on its own; a text without one is
/// a line, if it is not empty.
pub proof fn lines_split_at_line_feeds(a: Seq<char>, b: Seq<char>)
    requires
        !a.contains('\n'),
    ensures
        lines_of(a + seq!['\n'] + b) == seq![without_cr(a)] + lines_of(b),
        a.len() > 0 ==> lines_of(a) == seq![a],
        a.len() == 0 ==> lines_of(a).len() == 0,
        a.len() > 0 && a.last() == '\r' ==> without_cr(a) + seq!['\r'] == a,
        a.len() == 0 || a.last() != '\r' ==> without_cr(a) == a,
{
    let sep = seq!['\n'];
    lemma_first_line(a, b, 0);
    lemma_pieces_nonempty(b, sep, 0);
    let p = pieces(a + sep + b, sep);
    let q = pieces(b, sep);
    let cr = |l: Seq<char>| without_cr(l);
    assert(p.last() == q.last());
    assert(p.drop_last() =~= seq![a] + q.drop_last());
    assert(p.drop_last().map_values(cr) =~= seq![without_cr(a)] + q.drop_last().map_values(cr));
    assert(lines_of(a + sep + b) =~= seq![without_cr(a)] + lines_of(b));
    let one = pieces(a, sep);
    assert(one.drop_last().map_values(cr) =~= Seq::<Seq<char>>::empty());
    assert(a.len() > 0 ==> lines_of(a) =~= seq![a]);
    assert(a.len() > 0 && a.last() == '\r' ==> without_cr(a) + seq!['\r'] =~= a);
}

/// The lines that come out of a text are its lines.
pub proof fn lines_come_out(s: &str, list: Vec<String>)
    requires
        call_ensures(lines, (s,), list),
    ensures
        views(list@) == lines_of(s@),
{
}

/// A text holds, begins with or ends with another where that is what remains of it after taking
/// something away at both ends, at its end or at its front; and two texts are the same where all
/// their characters are.
pub proof fn found_texts_are_there(
    s: &str,
    part: &str,
    inside: bool,
    first: bool,
    last: bool,
    equal: bool,
)
    requires
        call_ensures(contains, (s, part), inside),
        call_ensures(starts_with, (s, part), first),
        call_ensures(ends_with, (s, part), last),
        call_ensures(same, (s, part), equal),
    ensures
        inside <==> exists|a: Seq<char>, b: Seq<char>| s@ == #[trigger] (a + part@ + b),
        first <==> exists|b: Seq<char>| s@ == #[trigger] (part@ + b),
        last <==> exists|a: Seq<char>| s@ == #[trigger] (a + part@),
        equal <==> s@ == part@,
{
    let n = part@.len() as int;
    if inside {
        let at = choose|at: int| occurs_at(s@, part@, at);
        assert(s@.take(at) + part@ + s@.skip(at + n) =~= s@) by {
            assert forall|i: int| at <= i < at + n implies s@[i] == part@[i - at] by {
                assert(s@.subrange(at, at + n)[i - at] == s@[i]);
            }
        }
    }
    if exists|a: Seq<char>, b: Seq<char>| s@ == #[trigger] (a + part@ + b) {
        let (a, b) = choose|a: Seq<char>, b: Seq<char>| s@ == #[trigger] (a + part@ + b);
        assert(s@.subrange(a.len() as int, a.len() + n) =~= part@);
        assert(occurs_at(s@, part@, a.len() as int));
    }
    if first {
        assert(part@ + s@.skip(n) =~= s@);
    }
    if exists|b: Seq<char>| s@ == #[trigger] (part@ + b) {
        let b = choose|b: Seq<char>| s@ == #[trigger] (part@ + b);
        assert(s@.take(n) =~= part@);
    }
    if last {
        assert(s@.take(s@.len() - n) + part@ =~= s@);
    }
    if exists|a: Seq<char>| s@ == #[trigger] (a + part@) {
        let a = choose|a: Seq<char>| s@ == #[trigger] (a + part@);
        assert(s@.skip(a.len() as int) =~= part@);
        assert(s@.subrange(s@.len() - n, s@.len() as int) =~= part@);
    }
}

/// The 26 letters of ASCII have their case changed, and no other character is.
pub proof fn letters_change_case(c: char, lower: char, upper: char)
    requires
        call_ensures(to_ascii_lower, (c,), lower),
        call_ensures(to_ascii_upper, (c,), upper),
    ensures
        'A' <= c <= 'Z' ==> lower as int - 'a' as int == c as int - 'A' as int && upper == c,
        'a' <= c <= 'z' ==> upper as int - 'A' as int == c as int - 'a' as int && lower == c,
        !('A' <= c <= 'Z') && !('a' <= c <= 'z') ==> lower == c && upper == c,
{
}

/// White space is the blank, the tab and the four line and page ends of ASCII, two characters of
/// Latin-1, and 17 beyond that.
pub proof fn white_space_is_known(c: char, r: bool)
    requires
        call_ensures(is_whitespace, (c,), r),
    ensures
        (c as int) < 128 ==> (r <==> c == ' ' || c == '\t' || c == '\n' || c == '\r' || c as int == 11
            || c as int == 12),
        128 <= c as int && (c as int) < 0x1000 ==> (r <==> c as int == 0x85 || c as int == 0xa0),
        c as int >= 0x1000 ==> (r <==> 0x2000 <= c as int <= 0x200a || c as int == 0x1680 || c as int
            == 0x2028 || c as int == 0x2029 || c as int == 0x202f || c as int == 0x205f || c as int
            == 0x3000),
{
}

} // verus!
