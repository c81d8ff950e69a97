use vstd::prelude::*;

verus! {

// ---------------------------------------------------------------------------
// Character classes
// ---------------------------------------------------------------------------

/// `char::is_whitespace`: the Unicode `White_Space` property.
pub open spec fn is_ws(c: char) -> bool {
    let u = c as u32;
    ||| 9 <= u <= 13
    ||| u == 32
    ||| u == 0x85
    ||| u == 0xA0
    ||| u == 0x1680
    ||| 0x2000 <= u <= 0x200A
    ||| u == 0x2028
    ||| u == 0x2029
    ||| u == 0x202F
    ||| u == 0x205F
    ||| u == 0x3000
}

/// `char::is_ascii_punctuation`.
pub open spec fn is_ascii_punct(c: char) -> bool {
    let u = c as u32;
    ||| 0x21 <= u <= 0x2F
    ||| 0x3A <= u <= 0x40
    ||| 0x5B <= u <= 0x60
    ||| 0x7B <= u <= 0x7E
}

/// The class of characters stripped from the ends of a string: ASCII
/// punctuation when `punct` holds, whitespace otherwise.
pub open spec fn in_class(c: char, punct: bool) -> bool {
    if punct {
        is_ascii_punct(c)
    } else {
        is_ws(c)
    }
}

/// `char::to_ascii_lowercase`.
pub open spec fn ascii_lower(c: char) -> char {
    let u = c as u32;
    if 0x41 <= u <= 0x5A {
        ((u + 32) as u32) as char
    } else {
        c
    }
}

pub fn is_whitespace_char(c: char) -> (r: bool)
    ensures
        r == is_ws(c),
{
    let u = c as u32;
    (9 <= u && u <= 13) || u == 32 || u == 0x85 || u == 0xA0 || u == 0x1680 || (0x2000 <= u
        && u <= 0x200A) || u == 0x2028 || u == 0x2029 || u == 0x202F || u == 0x205F || u
        == 0x3000
}

fn is_ascii_punct_char(c: char) -> (r: bool)
    ensures
        r == is_ascii_punct(c),
{
    let u = c as u32;
    (0x21 <= u && u <= 0x2F) || (0x3A <= u && u <= 0x40) || (0x5B <= u && u <= 0x60) || (0x7B
        <= u && u <= 0x7E)
}

fn in_class_char(c: char, punct: bool) -> (r: bool)
    ensures
        r == in_class(c, punct),
{
    if punct {
        is_ascii_punct_char(c)
    } else {
        is_whitespace_char(c)
    }
}

pub(crate) fn chars_eq_ignore_ascii_case(a: char, b: char) -> (r: bool)
    ensures
        r == (ascii_lower(a) == ascii_lower(b)),
{
    let ua = a as u32;
    let ub = b as u32;
    let la = if 0x41 <= ua && ua <= 0x5A {
        ua + 32
    } else {
        ua
    };
    let lb = if 0x41 <= ub && ub <= 0x5A {
        ub + 32
    } else {
        ub
    };
    proof {
        assert(ascii_lower(a) as u32 == la);
        assert(ascii_lower(b) as u32 == lb);
    }
    la == lb
}

// ---------------------------------------------------------------------------
// Trimming
// ---------------------------------------------------------------------------

/// Drop leading characters of the class.
pub open spec fn strip_start(s: Seq<char>, punct: bool) -> Seq<char>
    decreases s.len(),
{
    if s.len() > 0 && in_class(s[0], punct) {
        strip_start(s.drop_first(), punct)
    } else {
        s
    }
}

/// Drop trailing characters of the class.
pub open spec fn strip_end(s: Seq<char>, punct: bool) -> Seq<char>
    decreases s.len(),
{
    if s.len() > 0 && in_class(s.last(), punct) {
        strip_end(s.drop_last(), punct)
    } else {
        s
    }
}

/// `str::trim`: leading and trailing whitespace removed.
pub open spec fn trim(s: Seq<char>) -> Seq<char> {
    strip_end(strip_start(s, false), false)
}

/// `str::trim_matches(char::is_ascii_punctuation)`.
pub open spec fn strip_punct(s: Seq<char>) -> Seq<char> {
    strip_end(strip_start(s, true), true)
}

proof fn lemma_strip_start_skip(s: Seq<char>, punct: bool, k: int)
    requires
        0 <= k <= s.len(),
        forall|j: int| 0 <= j < k ==> in_class(#[trigger] s[j], punct),
    ensures
        strip_start(s, punct) == strip_start(s.skip(k), punct),
    decreases k,
{
    if k > 0 {
        let t = s.drop_first();
        assert forall|j: int| 0 <= j < k - 1 implies in_class(#[trigger] t[j], punct) by {
            assert(t[j] == s[j + 1]);
        }
        lemma_strip_start_skip(t, punct, k - 1);
        assert(t.skip(k - 1) =~= s.skip(k));
    } else {
        assert(s.skip(0) =~= s);
    }
}

proof fn lemma_strip_end_take(s: Seq<char>, punct: bool, k: int)
    requires
        0 <= k <= s.len(),
        forall|j: int| k <= j < s.len() ==> in_class(#[trigger] s[j], punct),
    ensures
        strip_end(s, punct) == strip_end(s.take(k), punct),
    decreases s.len() - k,
{
    if k < s.len() {
        let t = s.drop_last();
        assert forall|j: int| k <= j < t.len() implies in_class(#[trigger] t[j], punct) by {
            assert(t[j] == s[j]);
        }
        assert(in_class(s[s.len() - 1], punct));
        lemma_strip_end_take(t, punct, k);
        assert(t.take(k) =~= s.take(k));
    } else {
        assert(s.take(k) =~= s);
    }
}

/// The characters of `s` with leading and trailing characters of the class
/// removed.
pub(crate) fn strip_class(s: &Vec<char>, punct: bool) -> (r: Vec<char>)
    ensures
        r@ == strip_end(strip_start(s@, punct), punct),
{
    let n = s.len();
    let mut i: usize = 0;
    while i < n && in_class_char(s[i], punct)
        invariant
            i <= n,
            n == s.len(),
            forall|j: int| 0 <= j < i ==> in_class(#[trigger] s@[j], punct),
        decreases n - i,
    {
        i += 1;
    }
    proof {
        lemma_strip_start_skip(s@, punct, i as int);
        let t = s@.skip(i as int);
        if t.len() > 0 {
            assert(t[0] == s@[i as int]);
        }
        assert(strip_start(t, punct) == t);
    }
    let mut j: usize = n;
    while j > i && in_class_char(s[j - 1], punct)
        invariant
            i <= j <= n,
            n == s.len(),
            forall|k: int| j <= k < n ==> in_class(#[trigger] s@[k], punct),
        decreases j,
    {
        j -= 1;
    }
    let mut r: Vec<char> = Vec::new();
    let mut k: usize = i;
    while k < j
        invariant
            i <= k <= j <= n,
            n == s.len(),
            r@ == s@.subrange(i as int, k as int),
        decreases j - k,
    {
        r.push(s[k]);
        k += 1;
    }
    proof {
        let t = s@.skip(i as int);
        assert forall|m: int| j - i <= m < t.len() implies in_class(#[trigger] t[m], punct) by {
            assert(t[m] == s@[m + i]);
        }
        lemma_strip_end_take(t, punct, j - i);
        assert(t.take(j - i) =~= r@);
        if r@.len() > 0 {
            assert(r@.last() == s@[j - 1]);
        }
    }
    r
}

/// `str::trim` on a character sequence.
pub fn trim_chars(s: &Vec<char>) -> (r: Vec<char>)
    ensures
        r@ == trim(s@),
{
    strip_class(s, false)
}

// ---------------------------------------------------------------------------
// Strings and character vectors
// ---------------------------------------------------------------------------

/// The characters of a string, in order.
pub fn chars_of(s: &str) -> (v: Vec<char>)
    ensures
        v@ == s@,
{
    let mut v: Vec<char> = Vec::new();
    for c in it: s.chars()
        invariant
            it.seq() == s@,
            v@ == it.seq().take(it.index() as int),
    {
        v.push(c);
    }
    v
}

/// `String::push`: the string with one more character at its end.
#[verifier::external_body]
pub(crate) fn push_char(s: &mut String, c: char)
    ensures
        final(s)@ == old(s)@.push(c),
{
    s.push(c);
}

/// Append every character of `cs` to `s`.
pub fn push_chars(s: &mut String, cs: &Vec<char>)
    ensures
        final(s)@ == old(s)@ + cs@,
{
    let ghost start = s@;
    let mut i: usize = 0;
    while i < cs.len()
        invariant
            i <= cs.len(),
            s@ == start + cs@.take(i as int),
        decreases cs.len() - i,
    {
        push_char(s, cs[i]);
        i += 1;
        proof {
            assert(cs@.take(i as int) =~= cs@.take(i - 1).push(cs@[i - 1]));
        }
    }
    proof {
        assert(cs@.take(i as int) =~= cs@);
    }
}

/// A new string holding exactly the characters of `cs`.
pub fn string_from_chars(cs: &Vec<char>) -> (s: String)
    ensures
        s@ == cs@,
{
    let mut s = String::new();
    push_chars(&mut s, cs);
    s
}


// ---------------------------------------------------------------------------
// Words
// ---------------------------------------------------------------------------

/// `str::split_whitespace`: the maximal runs of non-whitespace characters,
/// left to right. A non-whitespace character continues the word of the
/// character before it, or starts a new word after whitespace or at the start.
pub open spec fn words(s: Seq<char>) -> Seq<Seq<char>>
    decreases s.len(),
{
    if s.len() == 0 {
        seq![]
    } else {
        let prev = words(s.drop_last());
        let c = s.last();
        if is_ws(c) {
            prev
        } else if s.len() >= 2 && !is_ws(s[s.len() - 2]) {
            prev.drop_last().push(prev.last().push(c))
        } else {
            prev.push(seq![c])
        }
    }
}

/// `[&str]::join(" ")`: the pieces separated by single spaces.
pub open spec fn join_space(ws: Seq<Seq<char>>) -> Seq<char>
    decreases ws.len(),
{
    if ws.len() == 0 {
        seq![]
    } else if ws.len() == 1 {
        ws[0]
    } else {
        join_space(ws.drop_last()) + seq![' '] + ws.last()
    }
}

/// The text with its words separated by single spaces and no whitespace at
/// either end.
pub open spec fn clean(s: Seq<char>) -> Seq<char> {
    join_space(words(s))
}

/// The views of a vector of character vectors.
pub open spec fn views(v: Seq<Vec<char>>) -> Seq<Seq<char>> {
    v.map_values(|w: Vec<char>| w@)
}

pub proof fn lemma_words_nonempty_when_last_is_word(s: Seq<char>)
    requires
        s.len() > 0,
        !is_ws(s.last()),
    ensures
        words(s).len() > 0,
{
}

proof fn lemma_join_extend_last(ws: Seq<Seq<char>>, c: char)
    requires
        ws.len() > 0,
    ensures
        join_space(ws.drop_last().push(ws.last().push(c))) == join_space(ws).push(c),
{
    let ws2 = ws.drop_last().push(ws.last().push(c));
    if ws.len() == 1 {
        assert(ws2.len() == 1);
        assert(ws2[0] == ws[0].push(c));
    } else {
        assert(ws2.drop_last() =~= ws.drop_last());
        assert(ws2.last() == ws.last().push(c));
        assert(join_space(ws2) == join_space(ws.drop_last()) + seq![' '] + ws.last().push(c));
        assert(join_space(ws.drop_last()) + seq![' '] + ws.last().push(c) =~= (join_space(
            ws.drop_last(),
        ) + seq![' '] + ws.last()).push(c));
    }
}

pub proof fn lemma_join_push(ws: Seq<Seq<char>>, w: Seq<char>)
    ensures
        join_space(ws.push(w)) == if ws.len() == 0 {
            w
        } else {
            join_space(ws) + seq![' '] + w
        },
{
    assert(ws.push(w).drop_last() =~= ws);
    if ws.len() == 0 {
        assert(ws.push(w)[0] == w);
    }
}

/// The words of `s`, in order.
pub fn split_words(s: &Vec<char>) -> (r: Vec<Vec<char>>)
    ensures
        views(r@) == words(s@),
{
    let n = s.len();
    let mut r: Vec<Vec<char>> = Vec::new();
    let mut i: usize = 0;
    while i < n
        invariant
            i <= n,
            n == s.len(),
            views(r@) == words(s@.take(i as int)),
            i > 0 && !is_ws(s@[i - 1]) ==> r@.len() > 0,
        decreases n - i,
    {
        let c = s[i];
        let ghost t = s@.take(i as int);
        let ghost t2 = s@.take(i + 1);
        proof {
            assert(t2.drop_last() =~= t);
            assert(t2.last() == c);
            if i >= 1 {
                assert(t2[t2.len() - 2] == s@[i - 1]);
            }
        }
        if is_whitespace_char(c) {
        } else if i > 0 && !is_whitespace_char(s[i - 1]) {
            let mut last = r.pop().unwrap();
            last.push(c);
            r.push(last);
            proof {
                assert(views(r@) =~= words(t).drop_last().push(words(t).last().push(c)));
            }
        } else {
            let mut w: Vec<char> = Vec::new();
            w.push(c);
            r.push(w);
            proof {
                assert(w@ =~= seq![c]);
                assert(views(r@) =~= words(t).push(seq![c]));
            }
        }
        i += 1;
    }
    proof {
        assert(s@.take(n as int) =~= s@);
    }
    r
}

/// The words of `s` separated by single spaces.
pub fn clean_chars(s: &Vec<char>) -> (r: Vec<char>)
    ensures
        r@ == clean(s@),
{
    let n = s.len();
    let mut out: Vec<char> = Vec::new();
    let mut i: usize = 0;
    while i < n
        invariant
            i <= n,
            n == s.len(),
            out@ == join_space(words(s@.take(i as int))),
            (out@.len() == 0) == (words(s@.take(i as int)).len() == 0),
            i > 0 && !is_ws(s@[i - 1]) ==> words(s@.take(i as int)).len() > 0,
        decreases n - i,
    {
        let c = s[i];
        let ghost t = s@.take(i as int);
        let ghost t2 = s@.take(i + 1);
        proof {
            assert(t2.drop_last() =~= t);
            assert(t2.last() == c);
            if i >= 1 {
                assert(t2[t2.len() - 2] == s@[i - 1]);
            }
        }
        if is_whitespace_char(c) {
        } else if i > 0 && !is_whitespace_char(s[i - 1]) {
            out.push(c);
            proof {
                lemma_join_extend_last(words(t), c);
            }
        } else {
            proof {
                lemma_join_push(words(t), seq![c]);
            }
            if out.len() > 0 {
                out.push(' ');
            }
            out.push(c);
            proof {
                if words(t).len() == 0 {
                    assert(out@ =~= seq![c]);
                } else {
                    assert(out@ =~= join_space(words(t)) + seq![' '] + seq![c]);
                }
            }
        }
        i += 1;
    }
    proof {
        assert(s@.take(n as int) =~= s@);
    }
    out
}

/// `text.split_whitespace().collect::<Vec<_>>().join(" ")`: the words of the
/// text separated by single spaces.
pub fn clean_text(text: &str) -> (r: String)
    ensures
        r@ == clean(text@),
{
    let s = chars_of(text);
    let out = clean_chars(&s);
    string_from_chars(&out)
}

/// The pieces `ws[from..]` joined by single spaces.
pub fn join_space_from(ws: &Vec<Vec<char>>, from: usize) -> (r: Vec<char>)
    requires
        from <= ws.len(),
    ensures
        r@ == join_space(views(ws@).skip(from as int)),
{
    let ghost rest = views(ws@).skip(from as int);
    let mut out: Vec<char> = Vec::new();
    let mut i: usize = from;
    while i < ws.len()
        invariant
            from <= i <= ws.len(),
            rest == views(ws@).skip(from as int),
            out@ == join_space(rest.take(i - from)),
        decreases ws.len() - i,
    {
        let ghost before = rest.take(i - from);
        proof {
            lemma_join_push(before, ws@[i as int]@);
            assert(rest.take(i + 1 - from) =~= before.push(ws@[i as int]@));
        }
        if i > from {
            out.push(' ');
        }
        let w = &ws[i];
        let mut j: usize = 0;
        let ghost pre = out@;
        while j < w.len()
            invariant
                j <= w.len(),
                out@ == pre + w@.take(j as int),
            decreases w.len() - j,
        {
            out.push(w[j]);
            j += 1;
            proof {
                assert(w@.take(j as int) =~= w@.take(j - 1).push(w@[j - 1]));
            }
        }
        proof {
            assert(w@.take(j as int) =~= w@);
            if i > from {
                assert(out@ =~= join_space(before) + seq![' '] + ws@[i as int]@);
            } else {
                assert(before.len() == 0);
                assert(out@ =~= ws@[i as int]@);
            }
        }
        i += 1;
    }
    proof {
        assert(rest.take(ws.len() - from) =~= rest);
    }
    out
}

// ---------------------------------------------------------------------------
// Facts about words
// ---------------------------------------------------------------------------

/// A word: at least one character, none of them whitespace.
pub open spec fn is_word(w: Seq<char>) -> bool {
    &&& w.len() > 0
    &&& forall|j: int| 0 <= j < w.len() ==> !is_ws(#[trigger] w[j])
}

pub open spec fn all_words(ws: Seq<Seq<char>>) -> bool {
    forall|i: int| 0 <= i < ws.len() ==> is_word(#[trigger] ws[i])
}

/// Every piece that `words` yields is a word.
pub proof fn lemma_words_are_words(s: Seq<char>)
    ensures
        all_words(words(s)),
    decreases s.len(),
{
    if s.len() > 0 {
        let t = s.drop_last();
        lemma_words_are_words(t);
        let prev = words(t);
        let c = s.last();
        if is_ws(c) {
        } else if s.len() >= 2 && !is_ws(s[s.len() - 2]) {
            let w = prev.last().push(c);
            assert(is_word(prev[prev.len() - 1]));
            assert forall|j: int| 0 <= j < w.len() implies !is_ws(#[trigger] w[j]) by {
                if j < w.len() - 1 {
                    assert(w[j] == prev.last()[j]);
                }
            }
            let r = prev.drop_last().push(w);
            assert forall|i: int| 0 <= i < r.len() implies is_word(#[trigger] r[i]) by {
                if i < r.len() - 1 {
                    assert(r[i] == prev[i]);
                }
            }
        } else {
            let r = prev.push(seq![c]);
            assert forall|i: int| 0 <= i < r.len() implies is_word(#[trigger] r[i]) by {
                if i < r.len() - 1 {
                    assert(r[i] == prev[i]);
                } else {
                    assert(r[i] == seq![c]);
                }
            }
        }
    }
}

/// A single word splits into itself.
pub proof fn lemma_words_of_word(w: Seq<char>)
    requires
        is_word(w),
    ensures
        words(w) == seq![w],
    decreases w.len(),
{
    let t = w.drop_last();
    if w.len() == 1 {
        assert(t.len() == 0);
        assert(words(t) == Seq::<Seq<char>>::empty());
        assert(!is_ws(w.last()));
        assert(words(w) == words(t).push(seq![w.last()]));
        assert(seq![w.last()] =~= w);
        assert(words(t).push(seq![w.last()]) =~= seq![w]);
    } else {
        assert(is_word(t));
        lemma_words_of_word(t);
        assert(w[w.len() - 2] == t[t.len() - 1]);
        assert(!is_ws(w.last()));
        assert(t.push(w.last()) =~= w);
        assert(words(t).drop_last().push(words(t).last().push(w.last())) =~= seq![w]);
    }
}

/// Splitting distributes over a concatenation whose left part is empty or
/// ends in whitespace.
pub proof fn lemma_words_concat(a: Seq<char>, b: Seq<char>)
    requires
        a.len() == 0 || is_ws(a.last()),
    ensures
        words(a + b) == words(a) + words(b),
    decreases b.len(),
{
    if b.len() == 0 {
        assert(a + b =~= a);
        assert(words(a) + words(b) =~= words(a));
    } else {
        let s = a + b;
        let bp = b.drop_last();
        assert(s.drop_last() =~= a + bp);
        lemma_words_concat(a, bp);
        let c = b.last();
        assert(s.last() == c);
        let wa = words(a);
        let p = words(bp);
        if is_ws(c) {
        } else {
            if b.len() >= 2 {
                assert(s[s.len() - 2] == b[b.len() - 2]);
            } else if a.len() > 0 {
                assert(s[s.len() - 2] == a.last());
            }
            if b.len() >= 2 && !is_ws(b[b.len() - 2]) {
                assert(bp.last() == b[b.len() - 2]);
                lemma_words_nonempty_when_last_is_word(bp);
                assert((wa + p).drop_last() =~= wa + p.drop_last());
                assert((wa + p).last() == p.last());
                assert((wa + p.drop_last()).push(p.last().push(c)) =~= wa + p.drop_last().push(
                    p.last().push(c),
                ));
            } else {
                assert((wa + p).push(seq![c]) =~= wa + p.push(seq![c]));
            }
        }
    }
}

/// Trailing whitespace adds no word.
pub proof fn lemma_words_push_ws(t: Seq<char>, c: char)
    requires
        is_ws(c),
    ensures
        words(t.push(c)) == words(t),
{
    assert(t.push(c).drop_last() =~= t);
}

/// Joined words split back into the same words.
pub proof fn lemma_words_of_join(ws: Seq<Seq<char>>)
    requires
        all_words(ws),
    ensures
        words(join_space(ws)) == ws,
    decreases ws.len(),
{
    if ws.len() == 0 {
    } else if ws.len() == 1 {
        assert(is_word(ws[0]));
        lemma_words_of_word(ws[0]);
        assert(seq![ws[0]] =~= ws);
    } else {
        let wp = ws.drop_last();
        assert forall|i: int| 0 <= i < wp.len() implies is_word(#[trigger] wp[i]) by {
            assert(wp[i] == ws[i]);
        }
        lemma_words_of_join(wp);
        let j = join_space(wp);
        let a = j.push(' ');
        assert(j + seq![' '] =~= a);
        lemma_words_concat(a, ws.last());
        lemma_words_push_ws(j, ' ');
        assert(is_word(ws[ws.len() - 1]));
        lemma_words_of_word(ws.last());
        assert(wp + seq![ws.last()] =~= ws);
    }
}

/// Cleaning keeps the words and is idempotent.
pub proof fn lemma_clean_idempotent(s: Seq<char>)
    ensures
        words(clean(s)) == words(s),
        clean(clean(s)) == clean(s),
{
    lemma_words_are_words(s);
    lemma_words_of_join(words(s));
}

proof fn lemma_words_strip_end(s: Seq<char>)
    ensures
        words(strip_end(s, false)) == words(s),
    decreases s.len(),
{
    if s.len() > 0 && is_ws(s.last()) {
        lemma_words_strip_end(s.drop_last());
        lemma_words_push_ws(s.drop_last(), s.last());
        assert(s.drop_last().push(s.last()) =~= s);
    }
}

proof fn lemma_words_strip_start(s: Seq<char>)
    ensures
        words(strip_start(s, false)) == words(s),
    decreases s.len(),
{
    if s.len() > 0 && is_ws(s[0]) {
        let rest = s.drop_first();
        lemma_words_strip_start(rest);
        let a = seq![s[0]];
        assert(a + rest =~= s);
        lemma_words_concat(a, rest);
        assert(a.drop_last() =~= Seq::<char>::empty());
        assert(a.last() == s[0]);
        assert(words(a) == words(a.drop_last()));
        assert(words(a) == Seq::<Seq<char>>::empty());
        assert(words(a) + words(rest) =~= words(rest));
    }
}

/// Trimming keeps the words.
pub proof fn lemma_words_trim(s: Seq<char>)
    ensures
        words(trim(s)) == words(s),
{
    lemma_words_strip_start(s);
    lemma_words_strip_end(strip_start(s, false));
}

proof fn lemma_strip_start_keeps_last(s: Seq<char>, punct: bool)
    requires
        s.len() > 0,
        !in_class(s.last(), punct),
    ensures
        strip_start(s, punct).len() > 0,
        strip_start(s, punct).last() == s.last(),
    decreases s.len(),
{
    if in_class(s[0], punct) {
        let rest = s.drop_first();
        assert(s.len() >= 2);
        assert(rest.last() == s.last());
        lemma_strip_start_keeps_last(rest, punct);
    }
}

/// A non-empty trimmed text ends in a character of a word.
pub proof fn lemma_trim_last(s: Seq<char>)
    requires
        trim(s).len() > 0,
    ensures
        !is_ws(trim(s).last()),
{
    lemma_strip_end_last(strip_start(s, false), false);
}

proof fn lemma_strip_end_last(s: Seq<char>, punct: bool)
    requires
        strip_end(s, punct).len() > 0,
    ensures
        !in_class(strip_end(s, punct).last(), punct),
    decreases s.len(),
{
    if s.len() > 0 && in_class(s.last(), punct) {
        lemma_strip_end_last(s.drop_last(), punct);
    }
}

/// A text whose trimmed form is empty is empty or ends in whitespace.
pub proof fn lemma_trim_empty(s: Seq<char>)
    requires
        trim(s).len() == 0,
    ensures
        s.len() == 0 || is_ws(s.last()),
        words(s).len() == 0,
{
    lemma_words_trim(s);
    if s.len() > 0 && !is_ws(s.last()) {
        lemma_strip_start_keeps_last(s, false);
        let x = strip_start(s, false);
        assert(!in_class(x.last(), false));
        assert(strip_end(x, false) == x);
    }
}

/// A text with a word in it does not trim to nothing.
pub proof fn lemma_words_nonempty_trim(s: Seq<char>)
    requires
        words(s).len() > 0,
    ensures
        trim(s).len() > 0,
{
    if trim(s).len() == 0 {
        lemma_trim_empty(s);
    }
}

} // verus!
