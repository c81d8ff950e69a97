use vstd::prelude::*;
use crate::text::{
    all_words, is_word, is_ws, lemma_trim_empty, lemma_trim_last, lemma_words_are_words,
    lemma_words_concat, lemma_words_nonempty_trim, lemma_words_nonempty_when_last_is_word,
    lemma_words_of_join, lemma_words_push_ws, ascii_lower, chars_eq_ignore_ascii_case, chars_of, join_space, join_space_from, push_char, push_chars,
    split_words, string_from_chars, clean, clean_chars, clean_text, strip_class, strip_punct, trim, trim_chars, views, words,
};
use crate::whisper::{WhisperOutput, WhisperSegment};

verus! {

/// `str::eq_ignore_ascii_case`.
pub open spec fn eq_ignore_ascii_case(a: Seq<char>, b: Seq<char>) -> bool {
    &&& a.len() == b.len()
    &&& forall|i: int| 0 <= i < a.len() ==> ascii_lower(#[trigger] a[i]) == ascii_lower(b[i])
}

/// Two transcript words are the same word once ASCII punctuation is stripped
/// from their ends and ASCII case is ignored.
pub open spec fn word_matches(a: Seq<char>, b: Seq<char>) -> bool {
    eq_ignore_ascii_case(strip_punct(a), strip_punct(b))
}

/// Two word lists of the same length that match word for word.
pub open spec fn words_match(l: Seq<Seq<char>>, r: Seq<Seq<char>>) -> bool {
    &&& l.len() == r.len()
    &&& forall|i: int| 0 <= i < l.len() ==> word_matches(#[trigger] l[i], r[i])
}

/// The last `k` words of `tw` match the first `k` words of `aw`.
pub open spec fn tail_matches_head(tw: Seq<Seq<char>>, aw: Seq<Seq<char>>, k: int) -> bool {
    words_match(tw.subrange(tw.len() - k, tw.len() as int), aw.take(k))
}

/// The largest `k` in `1..=max` whose tail/head match holds, or 0.
pub open spec fn overlap_from(tw: Seq<Seq<char>>, aw: Seq<Seq<char>>, max: nat) -> nat
    decreases max,
{
    if max == 0 {
        0
    } else if tail_matches_head(tw, aw, max as int) {
        max
    } else {
        overlap_from(tw, aw, (max - 1) as nat)
    }
}

pub open spec fn min_nat(a: nat, b: nat) -> nat {
    if a <= b {
        a
    } else {
        b
    }
}

/// The number of words at the end of `tw` that the start of `aw` repeats:
/// the largest such count, and 0 when there is none.
pub open spec fn overlap(tw: Seq<Seq<char>>, aw: Seq<Seq<char>>) -> nat {
    overlap_from(tw, aw, min_nat(tw.len(), aw.len()))
}

/// What `append_with_overlap` makes of `target` given `addition`.
pub open spec fn appended(target: Seq<char>, addition: Seq<char>) -> Seq<char> {
    let a = trim(addition);
    if a.len() == 0 {
        target
    } else if trim(target).len() == 0 {
        target + a
    } else {
        let tw = words(target);
        let aw = words(a);
        let remaining = join_space(aw.skip(overlap(tw, aw) as int));
        if remaining.len() == 0 {
            target
        } else if target.len() > 0 && target.last() == ' ' {
            target + remaining
        } else {
            target.push(' ') + remaining
        }
    }
}

/// `word.trim_matches(|c| c.is_ascii_punctuation())`.
pub fn normalize_word(word: &str) -> (r: String)
    ensures
        r@ == strip_punct(word@),
{
    let cs = chars_of(word);
    let stripped = strip_class(&cs, true);
    string_from_chars(&stripped)
}

fn eq_ignore_case_chars(a: &Vec<char>, b: &Vec<char>) -> (r: bool)
    ensures
        r == eq_ignore_ascii_case(a@, b@),
{
    if a.len() != b.len() {
        return false;
    }
    let mut i: usize = 0;
    while i < a.len()
        invariant
            a.len() == b.len(),
            i <= a.len(),
            forall|j: int| 0 <= j < i ==> ascii_lower(#[trigger] a@[j]) == ascii_lower(b@[j]),
        decreases a.len() - i,
    {
        if !chars_eq_ignore_ascii_case(a[i], b[i]) {
            return false;
        }
        i += 1;
    }
    true
}

fn word_matches_chars(a: &Vec<char>, b: &Vec<char>) -> (r: bool)
    ensures
        r == word_matches(a@, b@),
{
    let na = strip_class(a, true);
    let nb = strip_class(b, true);
    eq_ignore_case_chars(&na, &nb)
}

/// Whether the last `k` words of `tw` equal the first `k` words of `aw`,
/// word by word once punctuation and case are set aside.
fn words_equal_at(tw: &Vec<Vec<char>>, aw: &Vec<Vec<char>>, k: usize) -> (r: bool)
    requires
        k <= tw.len(),
        k <= aw.len(),
    ensures
        r == tail_matches_head(views(tw@), views(aw@), k as int),
{
    let ghost l = views(tw@).subrange(tw.len() - k, tw.len() as int);
    let ghost rr = views(aw@).take(k as int);
    let base = tw.len() - k;
    let mut i: usize = 0;
    while i < k
        invariant
            i <= k,
            k <= tw.len(),
            k <= aw.len(),
            base == tw.len() - k,
            l == views(tw@).subrange(tw.len() - k, tw.len() as int),
            rr == views(aw@).take(k as int),
            forall|j: int| 0 <= j < i ==> word_matches(#[trigger] l[j], rr[j]),
        decreases k - i,
    {
        if !word_matches_chars(&tw[base + i], &aw[i]) {
            proof {
                assert(l[i as int] == tw@[base + i]@);
                assert(rr[i as int] == aw@[i as int]@);
            }
            return false;
        }
        proof {
            assert(l[i as int] == tw@[base + i]@);
            assert(rr[i as int] == aw@[i as int]@);
        }
        i += 1;
    }
    true
}

/// Append `addition` to `target`, leaving out the words at the start of
/// `addition` that repeat the words at the end of `target`.
pub fn append_with_overlap(target: &mut String, addition: &str)
    ensures
        final(target)@ == appended(old(target)@, addition@),
{
    let add_chars = chars_of(addition);
    let a = trim_chars(&add_chars);
    if a.len() == 0 {
        return;
    }
    let t = chars_of(target.as_str());
    let t_trimmed = trim_chars(&t);
    if t_trimmed.len() == 0 {
        push_chars(target, &a);
        return;
    }
    let tw = split_words(&t);
    let aw = split_words(&a);
    let max = if tw.len() < aw.len() {
        tw.len()
    } else {
        aw.len()
    };
    let ghost vt = views(tw@);
    let ghost va = views(aw@);
    let mut k: usize = max;
    loop
        invariant
            k <= max,
            max <= tw.len(),
            max <= aw.len(),
            vt == views(tw@),
            va == views(aw@),
            max == min_nat(vt.len(), va.len()),
            overlap_from(vt, va, max as nat) == overlap_from(vt, va, k as nat),
        ensures
            overlap_from(vt, va, max as nat) == k,
        decreases k,
    {
        if k == 0 {
            break;
        }
        if words_equal_at(&tw, &aw, k) {
            break;
        }
        k -= 1;
    }
    let remaining = join_space_from(&aw, k);
    if remaining.len() > 0 {
        if !(t.len() > 0 && t[t.len() - 1] == ' ') {
            push_char(target, ' ');
        }
        push_chars(target, &remaining);
    }
}

// ---------------------------------------------------------------------------
// Laws of overlap merging
// ---------------------------------------------------------------------------

proof fn lemma_overlap_from_facts(tw: Seq<Seq<char>>, aw: Seq<Seq<char>>, max: nat)
    ensures
        overlap_from(tw, aw, max) <= max,
        overlap_from(tw, aw, max) > 0 ==> tail_matches_head(
            tw,
            aw,
            overlap_from(tw, aw, max) as int,
        ),
        forall|j: int|
            overlap_from(tw, aw, max) < j <= max ==> !#[trigger] tail_matches_head(tw, aw, j),
    decreases max,
{
    if max > 0 && !tail_matches_head(tw, aw, max as int) {
        lemma_overlap_from_facts(tw, aw, (max - 1) as nat);
    }
}

/// The overlap is the largest count of words at the end of `tw` that the
/// start of `aw` repeats, and 0 when no count from 1 up does.
pub proof fn lemma_overlap_is_largest(tw: Seq<Seq<char>>, aw: Seq<Seq<char>>)
    ensures
        overlap(tw, aw) <= tw.len(),
        overlap(tw, aw) <= aw.len(),
        overlap(tw, aw) > 0 ==> tail_matches_head(tw, aw, overlap(tw, aw) as int),
        forall|j: int|
            overlap(tw, aw) < j <= min_nat(tw.len(), aw.len()) ==> !#[trigger] tail_matches_head(
                tw,
                aw,
                j,
            ),
{
    lemma_overlap_from_facts(tw, aw, min_nat(tw.len(), aw.len()));
}

proof fn lemma_all_words_skip(ws: Seq<Seq<char>>, k: int)
    requires
        all_words(ws),
        0 <= k <= ws.len(),
    ensures
        all_words(ws.skip(k)),
{
    assert forall|i: int| 0 <= i < ws.skip(k).len() implies is_word(#[trigger] ws.skip(k)[i]) by {
        assert(ws.skip(k)[i] == ws[i + k]);
    }
}

/// The words that follow an overlap of `k` words (or none) overlap the
/// addition completely.
proof fn lemma_full_overlap(tw: Seq<Seq<char>>, aw: Seq<Seq<char>>, k: int)
    requires
        0 <= k <= tw.len(),
        k <= aw.len(),
        k > 0 ==> tail_matches_head(tw, aw, k),
    ensures
        overlap(tw + aw.skip(k), aw) == aw.len(),
{
    let tw1 = tw + aw.skip(k);
    let n = aw.len();
    assert(tw1.len() == tw.len() + n - k);
    assert(min_nat(tw1.len(), n) == n);
    if n > 0 {
        let l = tw1.subrange(tw1.len() - n, tw1.len() as int);
        let r = aw.take(n as int);
        assert forall|i: int| 0 <= i < l.len() implies word_matches(#[trigger] l[i], r[i]) by {
            assert(r[i] == aw[i]);
            if i < k {
                let tl = tw.subrange(tw.len() - k, tw.len() as int);
                assert(l[i] == tw[tw.len() - k + i]);
                assert(tl[i] == tw[tw.len() - k + i]);
                assert(aw.take(k)[i] == aw[i]);
                assert(word_matches(tl[i], aw.take(k)[i]));
            } else {
                assert(l[i] == aw[i]);
                let x = strip_punct(aw[i]);
                assert(eq_ignore_ascii_case(x, x));
            }
        }
        assert(tail_matches_head(tw1, aw, n as int));
    }
}

/// The words of the merged text are the words of the target followed by
/// the words of the trimmed addition that do not repeat its end.
pub proof fn lemma_appended_words(target: Seq<char>, addition: Seq<char>)
    ensures
        words(appended(target, addition)) == words(target) + words(trim(addition)).skip(
            overlap(words(target), words(trim(addition))) as int,
        ),
{
    let a = trim(addition);
    let tw = words(target);
    let aw = words(a);
    if a.len() == 0 {
        assert(aw.len() == 0);
        assert(tw + aw.skip(0) =~= tw);
    } else if trim(target).len() == 0 {
        lemma_trim_empty(target);
        lemma_words_concat(target, a);
        assert(tw.len() == 0);
        assert(tw + aw.skip(0) =~= aw);
        assert(Seq::<Seq<char>>::empty() + aw =~= aw);
    } else {
        let k = overlap(tw, aw);
        lemma_overlap_is_largest(tw, aw);
        let rest = aw.skip(k as int);
        let rem = join_space(rest);
        lemma_words_are_words(a);
        lemma_all_words_skip(aw, k as int);
        lemma_words_of_join(rest);
        if rem.len() == 0 {
            assert(rest.len() == 0);
            assert(tw + rest =~= tw);
        } else {
            let t2 = if target.len() > 0 && target.last() == ' ' {
                target
            } else {
                target.push(' ')
            };
            if !(target.len() > 0 && target.last() == ' ') {
                lemma_words_push_ws(target, ' ');
            }
            assert(words(t2) == tw);
            assert(is_ws(t2.last()));
            lemma_words_concat(t2, rem);
        }
    }
}

/// Merging the same addition a second time changes nothing.
pub proof fn lemma_append_idempotent(target: Seq<char>, addition: Seq<char>)
    ensures
        appended(appended(target, addition), addition) == appended(target, addition),
{
    let a = trim(addition);
    let tw = words(target);
    let aw = words(a);
    let t1 = appended(target, addition);
    if a.len() > 0 {
        lemma_trim_last(addition);
        lemma_words_nonempty_when_last_is_word(a);
        lemma_appended_words(target, addition);
        let k = overlap(tw, aw);
        lemma_overlap_is_largest(tw, aw);
        let changed = trim(target).len() == 0 || join_space(aw.skip(k as int)).len() > 0;
        if changed {
            if trim(target).len() == 0 {
                lemma_trim_empty(target);
                assert(tw.len() == 0);
            }
            lemma_full_overlap(tw, aw, k as int);
            assert(aw.skip(k as int).len() > 0);
            let tw1 = words(t1);
            assert(tw1.len() > 0);
            lemma_words_nonempty_trim(t1);
            assert(overlap(tw1, aw) == aw.len());
            assert(aw.skip(aw.len() as int) =~= Seq::<Seq<char>>::empty());
        }
    }
}

// ---------------------------------------------------------------------------
// Committed and partial text of a transcription
// ---------------------------------------------------------------------------

/// A segment counts when it ends after the committed point and after it starts.
pub open spec fn segment_counts(seg: WhisperSegment, window_start_ms: u64, committed_until_ms: u64) -> bool {
    let abs_start = window_start_ms + seg.start_ms;
    let abs_end = window_start_ms + seg.end_ms;
    !(abs_end <= committed_until_ms || abs_end <= abs_start)
}

/// A counting segment is stable when it ends no later than the cutoff.
pub open spec fn segment_stable(seg: WhisperSegment, window_start_ms: u64, stable_cutoff_ms: u64) -> bool {
    window_start_ms + seg.end_ms <= stable_cutoff_ms
}

/// The texts of the stable counting segments, in order.
pub open spec fn committed_texts(segs: Seq<WhisperSegment>, ws: u64, cutoff: u64, cu: u64) -> Seq<Seq<char>>
    decreases segs.len(),
{
    if segs.len() == 0 {
        seq![]
    } else {
        let prev = committed_texts(segs.drop_last(), ws, cutoff, cu);
        let seg = segs.last();
        if segment_counts(seg, ws, cu) && segment_stable(seg, ws, cutoff) {
            prev.push(seg.text@)
        } else {
            prev
        }
    }
}

/// The texts of the counting segments that are not yet stable, in order.
pub open spec fn partial_texts(segs: Seq<WhisperSegment>, ws: u64, cutoff: u64, cu: u64) -> Seq<Seq<char>>
    decreases segs.len(),
{
    if segs.len() == 0 {
        seq![]
    } else {
        let prev = partial_texts(segs.drop_last(), ws, cutoff, cu);
        let seg = segs.last();
        if segment_counts(seg, ws, cu) && !segment_stable(seg, ws, cutoff) {
            prev.push(seg.text@)
        } else {
            prev
        }
    }
}

/// The committed point after the stable counting segments: the latest of
/// their absolute ends and the previous point.
pub open spec fn committed_end(segs: Seq<WhisperSegment>, ws: u64, cutoff: u64, cu: u64) -> int
    decreases segs.len(),
{
    if segs.len() == 0 {
        cu as int
    } else {
        let prev = committed_end(segs.drop_last(), ws, cutoff, cu);
        let seg = segs.last();
        let e = ws + seg.end_ms;
        if segment_counts(seg, ws, cu) && segment_stable(seg, ws, cutoff) && e > prev {
            e
        } else {
            prev
        }
    }
}

/// No absolute segment time overflows a `u64`.
pub open spec fn segment_times_fit(segs: Seq<WhisperSegment>, ws: u64) -> bool {
    forall|i: int|
        0 <= i < segs.len() ==> ws + (#[trigger] segs[i]).start_ms <= u64::MAX && ws
            + segs[i].end_ms <= u64::MAX
}

/// The committed text of a transcription: the stable counting segments'
/// texts, joined and cleaned; nothing when there are no segments.
pub open spec fn split_committed(segs: Seq<WhisperSegment>, ws: u64, cutoff: u64, cu: u64) -> Seq<char> {
    if segs.len() == 0 {
        seq![]
    } else {
        clean(join_space(committed_texts(segs, ws, cutoff, cu)))
    }
}

/// The partial text of a transcription: the other counting segments' texts,
/// joined and cleaned; the cleaned whole text when there are no segments.
pub open spec fn split_partial(
    segs: Seq<WhisperSegment>,
    text: Seq<char>,
    ws: u64,
    cutoff: u64,
    cu: u64,
) -> Seq<char> {
    if segs.len() == 0 {
        clean(text)
    } else {
        clean(join_space(partial_texts(segs, ws, cutoff, cu)))
    }
}

/// The committed point after a transcription.
pub open spec fn split_until(segs: Seq<WhisperSegment>, ws: u64, cutoff: u64, cu: u64) -> int {
    if segs.len() == 0 {
        cu as int
    } else {
        committed_end(segs, ws, cutoff, cu)
    }
}

/// Split a transcription into the text that is stable (its segments end by
/// `stable_cutoff_ms`) and the text that may still change, skipping segments
/// that end by `committed_until_ms` or are empty in time; also return the new
/// committed point. Without segments, all of the text is partial.
pub fn split_committed_and_partial(
    output: &WhisperOutput,
    window_start_ms: u64,
    stable_cutoff_ms: u64,
    committed_until_ms: u64,
) -> (r: (String, String, u64))
    requires
        segment_times_fit(output.segments@, window_start_ms),
    ensures
        r.0@ == split_committed(output.segments@, window_start_ms, stable_cutoff_ms, committed_until_ms),
        r.1@ == split_partial(
            output.segments@,
            output.text@,
            window_start_ms,
            stable_cutoff_ms,
            committed_until_ms,
        ),
        r.2 == split_until(output.segments@, window_start_ms, stable_cutoff_ms, committed_until_ms),
{
    if output.segments.len() == 0 {
        return (String::new(), clean_text(output.text.as_str()), committed_until_ms);
    }
    let ghost segs = output.segments@;
    let ghost ws = window_start_ms;
    let ghost cutoff = stable_cutoff_ms;
    let ghost cu = committed_until_ms;
    let mut committed: Vec<Vec<char>> = Vec::new();
    let mut partial: Vec<Vec<char>> = Vec::new();
    let mut next_committed_until = committed_until_ms;
    let mut i: usize = 0;
    while i < output.segments.len()
        invariant
            i <= segs.len(),
            segs == output.segments@,
            ws == window_start_ms,
            cutoff == stable_cutoff_ms,
            cu == committed_until_ms,
            segment_times_fit(segs, ws),
            views(committed@) == committed_texts(segs.take(i as int), ws, cutoff, cu),
            views(partial@) == partial_texts(segs.take(i as int), ws, cutoff, cu),
            next_committed_until == committed_end(segs.take(i as int), ws, cutoff, cu),
        decreases segs.len() - i,
    {
        let segment = &output.segments[i];
        let ghost t = segs.take(i as int);
        let ghost t2 = segs.take(i + 1);
        proof {
            assert(t2.drop_last() =~= t);
            assert(t2.last() == segs[i as int]);
            assert(segment_times_fit(segs, ws));
            assert(ws + segs[i as int].start_ms <= u64::MAX);
        }
        let abs_start = window_start_ms + segment.start_ms;
        let abs_end = window_start_ms + segment.end_ms;
        if abs_end <= committed_until_ms || abs_end <= abs_start {
        } else if abs_end <= stable_cutoff_ms {
            let text = chars_of(segment.text.as_str());
            committed.push(text);
            if abs_end > next_committed_until {
                next_committed_until = abs_end;
            }
            proof {
                assert(views(committed@) =~= committed_texts(t, ws, cutoff, cu).push(segment.text@));
            }
        } else {
            let text = chars_of(segment.text.as_str());
            partial.push(text);
            proof {
                assert(views(partial@) =~= partial_texts(t, ws, cutoff, cu).push(segment.text@));
            }
        }
        i += 1;
    }
    proof {
        assert(segs.take(segs.len() as int) =~= segs);
    }
    let committed_joined = join_space_from(&committed, 0);
    let partial_joined = join_space_from(&partial, 0);
    proof {
        assert(views(committed@).skip(0) =~= views(committed@));
        assert(views(partial@).skip(0) =~= views(partial@));
    }
    let c = clean_chars(&committed_joined);
    let p = clean_chars(&partial_joined);
    (string_from_chars(&c), string_from_chars(&p), next_committed_until)
}

/// Merging only ever adds text after the target: the target is a prefix of
/// the result.
pub proof fn lemma_appended_extends_target(target: Seq<char>, addition: Seq<char>)
    ensures
        target.is_prefix_of(appended(target, addition)),
{
    let r = appended(target, addition);
    assert(r.len() >= target.len());
    assert forall|i: int| 0 <= i < target.len() implies r[i] == target[i] by {
        if target.len() > 0 && !(target.last() == ' ') {
            assert(target.push(' ')[i] == target[i]);
        }
    }
    assert(r.take(target.len() as int) =~= target);
}

/// Matching words is an equivalence (reflexive, symmetric, transitive), and
/// only words of the same length once punctuation is stripped from their
/// ends can match: a word is never taken for a repeat of a shorter or longer
/// one.
pub proof fn lemma_word_matches_laws(a: Seq<char>, b: Seq<char>, c: Seq<char>)
    ensures
        word_matches(a, a),
        word_matches(a, b) == word_matches(b, a),
        word_matches(a, b) && word_matches(b, c) ==> word_matches(a, c),
        word_matches(a, b) ==> strip_punct(a).len() == strip_punct(b).len(),
{
    if word_matches(a, b) && word_matches(b, c) {
        let (x, y, z) = (strip_punct(a), strip_punct(b), strip_punct(c));
        assert forall|i: int| 0 <= i < x.len() implies ascii_lower(#[trigger] x[i]) == ascii_lower(z[i]) by {
            assert(ascii_lower(x[i]) == ascii_lower(y[i]));
            assert(ascii_lower(y[i]) == ascii_lower(z[i]));
        }
    }
}

/// When no word of the target has the length of the addition's first word
/// (punctuation stripped), nothing repeats: the merged words are all the
/// target's words followed by all the addition's words.
pub proof fn lemma_no_repeat_keeps_all_words(target: Seq<char>, addition: Seq<char>)
    requires
        words(trim(addition)).len() > 0,
        forall|i: int|
            0 <= i < words(target).len() ==> strip_punct(#[trigger] words(target)[i]).len() != strip_punct(
                words(trim(addition))[0],
            ).len(),
    ensures
        words(appended(target, addition)) == words(target) + words(trim(addition)),
{
    let tw = words(target);
    let aw = words(trim(addition));
    lemma_appended_words(target, addition);
    lemma_overlap_is_largest(tw, aw);
    let k = overlap(tw, aw);
    if k > 0 {
        let l = tw.subrange(tw.len() - k, tw.len() as int);
        assert(word_matches(l[0], aw.take(k as int)[0]));
        assert(l[0] == tw[tw.len() - k]);
        assert(aw.take(k as int)[0] == aw[0]);
        lemma_word_matches_laws(tw[tw.len() - k], aw[0], aw[0]);
        assert(false);
    }
    assert(aw.skip(0) =~= aw);
}


} // verus!
