use vstd::prelude::*;
use crate::text::{chars_of, join_space, push_chars, string_from_chars, trim, trim_chars, views};
use crate::types::auto_language;

verus! {

/// One transcribed segment, with its times in milliseconds from the start of
/// the audio window it was transcribed from.
#[derive(Debug, Clone)]
pub struct WhisperSegment {
    pub text: String,
    pub start_ms: u64,
    pub end_ms: u64,
}

/// The result of one transcription: the whole text, its segments, and how
/// long the transcription took.
#[derive(Debug, Clone)]
pub struct WhisperOutput {
    pub text: String,
    pub segments: Vec<WhisperSegment>,
    pub processing_ms: u64,
}

/// The file name of the bundled model.
pub const DEFAULT_MODEL_FILENAME: &'static str = "ggml-base.en-q5_1.bin";

// ---------------------------------------------------------------------------
// Language
// ---------------------------------------------------------------------------

/// What `str::to_lowercase` makes of a string (Unicode lower case, with its
/// multi-character mappings).
pub uninterp spec fn lowercase(s: Seq<char>) -> Seq<char>;

/// `str::to_lowercase`: the result is the Unicode lower case of the argument,
/// named `lowercase` here and not spelled out.
#[verifier::external_body]
fn to_lowercase(s: &str) -> (r: String)
    ensures
        r@ == lowercase(s@),
{
    s.to_lowercase()
}

/// The text before the first `-` or `_`, or all of it.
pub open spec fn primary_subtag(s: Seq<char>) -> Seq<char>
    decreases s.len(),
{
    if s.len() == 0 || s[0] == '-' || s[0] == '_' {
        seq![]
    } else {
        seq![s[0]] + primary_subtag(s.drop_first())
    }
}

pub open spec fn auto_word() -> Seq<char> {
    seq!['a', 'u', 't', 'o']
}

/// The language setting whisper is given: `auto` for an empty or `auto`
/// setting (after trimming and lower-casing), and otherwise the lower-cased
/// primary subtag, so `EN-us` becomes `en`.
pub open spec fn normalized_language(language: Seq<char>) -> Seq<char> {
    let t = lowercase(trim(language));
    if t.len() == 0 || t == auto_word() {
        auto_word()
    } else {
        primary_subtag(t)
    }
}

proof fn lemma_primary_subtag_prefix(s: Seq<char>, i: int)
    requires
        0 <= i <= s.len(),
        forall|j: int| 0 <= j < i ==> s[j] != '-' && s[j] != '_',
        i == s.len() || s[i] == '-' || s[i] == '_',
    ensures
        primary_subtag(s) == s.take(i),
    decreases i,
{
    if i > 0 {
        let rest = s.drop_first();
        assert forall|j: int| 0 <= j < i - 1 implies rest[j] != '-' && rest[j] != '_' by {
            assert(rest[j] == s[j + 1]);
        }
        if i - 1 < rest.len() {
            assert(rest[i - 1] == s[i]);
        }
        lemma_primary_subtag_prefix(rest, i - 1);
        assert(seq![s[0]] + rest.take(i - 1) =~= s.take(i));
    } else {
        assert(s.take(0) =~= Seq::<char>::empty());
    }
}

/// Normalize a language setting for whisper.
pub fn normalize_language(language: &str) -> (r: String)
    ensures
        r@ == normalized_language(language@),
{
    let cs = chars_of(language);
    let trimmed = string_from_chars(&trim_chars(&cs));
    let lower = to_lowercase(trimmed.as_str());
    let t = chars_of(lower.as_str());
    if t.len() == 0 || (t.len() == 4 && t[0] == 'a' && t[1] == 'u' && t[2] == 't' && t[3] == 'o') {
        proof {
            if t.len() == 4 {
                assert(t@ =~= auto_word());
            }
        }
        return auto_language();
    }
    proof {
        if t@ == auto_word() {
            assert(t@[0] == 'a' && t@[1] == 'u' && t@[2] == 't' && t@[3] == 'o');
        }
    }
    let mut i: usize = 0;
    while i < t.len() && t[i] != '-' && t[i] != '_'
        invariant
            i <= t.len(),
            forall|j: int| 0 <= j < i ==> t@[j] != '-' && t@[j] != '_',
        decreases t.len() - i,
    {
        i += 1;
    }
    let mut out: Vec<char> = Vec::new();
    let mut k: usize = 0;
    while k < i
        invariant
            k <= i <= t.len(),
            out@ == t@.take(k as int),
        decreases i - k,
    {
        out.push(t[k]);
        k += 1;
        proof {
            assert(out@ =~= t@.take(k as int));
        }
    }
    proof {
        lemma_primary_subtag_prefix(t@, i as int);
    }
    string_from_chars(&out)
}

// ---------------------------------------------------------------------------
// Threads
// ---------------------------------------------------------------------------

/// `num_cpus::get_physical`: the number of physical cores of this machine.
/// It depends on the machine, so nothing is stated of it.
#[verifier::external_body]
fn physical_cpus() -> (n: usize) {
    num_cpus::get_physical()
}

/// Threads for whisper given `cpus` physical cores: between 2 and 6.
pub fn thread_count_for(cpus: usize) -> (r: i32)
    ensures
        r == (if cpus < 2 {
            2
        } else if cpus > 6 {
            6
        } else {
            cpus as int
        }),
{
    if cpus < 2 {
        2
    } else if cpus > 6 {
        6
    } else {
        cpus as i32
    }
}

/// Threads for whisper on this machine: its physical cores, kept between 2
/// and 6.
pub fn default_thread_count() -> (r: i32)
    ensures
        2 <= r <= 6,
{
    thread_count_for(physical_cpus())
}

// ---------------------------------------------------------------------------
// Transcription input and output
// ---------------------------------------------------------------------------

/// The message for a request to transcribe less than half a second of audio.
pub open spec fn too_short_message() -> Seq<char> {
    "Skipping inference until at least 500ms of audio is buffered."@
}

/// Whisper is only run on at least half a second of audio.
pub fn check_transcribe_input(sample_count: usize) -> (r: Result<(), String>)
    ensures
        r is Ok <==> sample_count >= 8000,
        r matches Err(e) ==> e@ == too_short_message(),
{
    if sample_count < 8000 {
        return Err(
            String::from_str("Skipping inference until at least 500ms of audio is buffered."),
        );
    }
    Ok(())
}

/// A segment as whisper reports it: its text and its start and end in
/// hundredths of a second, possibly negative.
#[derive(Debug, Clone)]
pub struct RawSegment {
    pub text: String,
    pub start_timestamp: i64,
    pub end_timestamp: i64,
}

pub ghost struct SegmentView {
    pub text: Seq<char>,
    pub start_ms: int,
    pub end_ms: int,
}

pub open spec fn segment_views(segs: Seq<WhisperSegment>) -> Seq<SegmentView> {
    segs.map_values(|s: WhisperSegment| SegmentView { text: s.text@, start_ms: s.start_ms as int, end_ms: s.end_ms as int })
}

/// A whisper timestamp in milliseconds; negative ones count as 0.
pub open spec fn timestamp_ms(t: i64) -> int {
    if t < 0 {
        0
    } else {
        t * 10
    }
}

/// The segments kept from whisper's: trimmed, empty ones dropped, times in
/// milliseconds.
pub open spec fn kept_segments(raw: Seq<RawSegment>) -> Seq<SegmentView>
    decreases raw.len(),
{
    if raw.len() == 0 {
        seq![]
    } else {
        let prev = kept_segments(raw.drop_last());
        let s = raw.last();
        if trim(s.text@).len() == 0 {
            prev
        } else {
            prev.push(
                SegmentView {
                    text: trim(s.text@),
                    start_ms: timestamp_ms(s.start_timestamp),
                    end_ms: timestamp_ms(s.end_timestamp),
                },
            )
        }
    }
}

pub open spec fn segment_texts(segs: Seq<SegmentView>) -> Seq<Seq<char>> {
    segs.map_values(|s: SegmentView| s.text)
}

/// Timestamps whose milliseconds fit a `u64`.
pub open spec fn timestamps_fit(raw: Seq<RawSegment>) -> bool {
    forall|i: int|
        0 <= i < raw.len() ==> (#[trigger] raw[i]).start_timestamp * 10 <= u64::MAX
            && raw[i].end_timestamp * 10 <= u64::MAX
}

fn timestamp_to_ms(t: i64) -> (r: u64)
    requires
        t * 10 <= u64::MAX,
    ensures
        r == timestamp_ms(t),
{
    if t < 0 {
        0
    } else {
        (t as u64) * 10
    }
}

/// Turn whisper's segments into a transcription: each segment's text is
/// trimmed, empty segments are dropped, times become milliseconds, and the
/// whole text is the kept texts joined by spaces and trimmed.
pub fn output_from_segments(raw: &Vec<RawSegment>, processing_ms: u64) -> (r: WhisperOutput)
    requires
        timestamps_fit(raw@),
    ensures
        segment_views(r.segments@) == kept_segments(raw@),
        r.text@ == trim(join_space(segment_texts(kept_segments(raw@)))),
        r.processing_ms == processing_ms,
{
    let mut segments: Vec<WhisperSegment> = Vec::new();
    let mut texts: Vec<Vec<char>> = Vec::new();
    let mut i: usize = 0;
    while i < raw.len()
        invariant
            i <= raw.len(),
            timestamps_fit(raw@),
            segment_views(segments@) == kept_segments(raw@.take(i as int)),
            views(texts@) == segment_texts(kept_segments(raw@.take(i as int))),
        decreases raw.len() - i,
    {
        let seg = &raw[i];
        proof {
            assert(raw@.take(i + 1).drop_last() =~= raw@.take(i as int));
            assert(raw@.take(i + 1).last() == raw@[i as int]);
        }
        let cs = chars_of(seg.text.as_str());
        let t = trim_chars(&cs);
        if t.len() > 0 {
            let ws = WhisperSegment {
                text: string_from_chars(&t),
                start_ms: timestamp_to_ms(seg.start_timestamp),
                end_ms: timestamp_to_ms(seg.end_timestamp),
            };
            let ghost before = segments@;
            let ghost before_texts = texts@;
            segments.push(ws);
            texts.push(t);
            proof {
                assert(segment_views(segments@) =~= segment_views(before).push(
                    SegmentView { text: t@, start_ms: ws.start_ms as int, end_ms: ws.end_ms as int },
                ));
                assert(views(texts@) =~= views(before_texts).push(t@));
                assert(segment_texts(kept_segments(raw@.take(i + 1))) =~= segment_texts(
                    kept_segments(raw@.take(i as int)),
                ).push(t@));
            }
        }
        i += 1;
    }
    proof {
        assert(raw@.take(raw@.len() as int) =~= raw@);
        assert(views(texts@).skip(0) =~= views(texts@));
    }
    let joined = crate::text::join_space_from(&texts, 0);
    let text = string_from_chars(&trim_chars(&joined));
    WhisperOutput { text, segments, processing_ms }
}

// ---------------------------------------------------------------------------
// Model files
// ---------------------------------------------------------------------------

pub open spec fn gglm_prefix() -> Seq<char> {
    seq!['g', 'g', 'l', 'm', '-']
}

pub open spec fn ggml_prefix() -> Seq<char> {
    seq!['g', 'g', 'm', 'l', '-']
}

/// The model file name with the common `gglm-` misspelling of its `ggml-`
/// prefix corrected, or `None` when it does not start with `gglm-`.
pub fn corrected_ggml_file_name(file_name: &str) -> (r: Option<String>)
    ensures
        (file_name@.len() >= 5 && file_name@.take(5) == gglm_prefix()) <==> r is Some,
        r matches Some(c) ==> c@ == ggml_prefix() + file_name@.skip(5),
{
    let cs = chars_of(file_name);
    if !(cs.len() >= 5 && cs[0] == 'g' && cs[1] == 'g' && cs[2] == 'l' && cs[3] == 'm' && cs[4]
        == '-') {
        proof {
            if cs@.len() >= 5 && cs@.take(5) == gglm_prefix() {
                assert(cs@.take(5)[2] == 'l');
                assert(cs@[0] == 'g' && cs@[1] == 'g' && cs@[2] == 'l' && cs@[3] == 'm' && cs@[4]
                    == '-');
            }
        }
        return None;
    }
    proof {
        assert(cs@.take(5) =~= gglm_prefix());
    }
    let mut out: Vec<char> = Vec::new();
    out.push('g');
    out.push('g');
    out.push('m');
    out.push('l');
    out.push('-');
    let mut i: usize = 5;
    while i < cs.len()
        invariant
            5 <= i <= cs.len(),
            out@ == ggml_prefix() + cs@.subrange(5, i as int),
        decreases cs.len() - i,
    {
        out.push(cs[i]);
        i += 1;
        proof {
            assert(out@ =~= ggml_prefix() + cs@.subrange(5, i as int));
        }
    }
    proof {
        assert(cs@.subrange(5, cs@.len() as int) =~= cs@.skip(5));
    }
    Some(string_from_chars(&out))
}

/// `Whisper model was not found at {path}.`
pub fn model_not_found_message(path: &str) -> (r: String)
    ensures
        r@ == "Whisper model was not found at "@ + path@ + seq!['.'],
{
    let mut r = String::from_str("Whisper model was not found at ");
    let cs = chars_of(path);
    push_chars(&mut r, &cs);
    crate::text::push_char(&mut r, '.');
    r
}

/// The text of the error when no model is found at `path`.
pub open spec fn not_found_message(path: Seq<char>) -> Seq<char> {
    "Whisper model was not found at "@ + path + seq!['.']
}

/// Where the model that `model_path` asks for is, given what is on disk:
/// the path itself, trimmed, when `trimmed_is_file` says it names a file;
/// otherwise `corrected` (the path whose `gglm-` file name is spelled
/// `ggml-`, with whether that names a file) when there is one and it names a
/// file; otherwise the error that no model was found at the trimmed path.
pub fn resolve_model_path(model_path: &str, trimmed_is_file: bool, corrected: Option<(String, bool)>) -> (r:
    Result<String, String>)
    ensures
        r is Ok <==> (trimmed_is_file || corrected matches Some((_, true))),
        r matches Ok(p) ==> if trimmed_is_file {
            p@ == trim(model_path@)
        } else {
            corrected matches Some((c, _)) && p@ == c@
        },
        r matches Err(e) ==> e@ == not_found_message(trim(model_path@)),
{
    let trimmed = string_from_chars(&trim_chars(&chars_of(model_path)));
    if trimmed_is_file {
        return Ok(trimmed);
    }
    match corrected {
        Some((path, true)) => Ok(path),
        _ => Err(model_not_found_message(trimmed.as_str())),
    }
}

/// The text of the error for a transcription asked for before any model was
/// loaded.
pub open spec fn engine_missing_message() -> Seq<char> {
    "Load a whisper.cpp model before starting dictation."@
}

/// The error of a transcription asked for before any model was loaded.
pub fn engine_missing_error() -> (r: String)
    ensures
        r@ == engine_missing_message(),
{
    String::from_str("Load a whisper.cpp model before starting dictation.")
}

} // verus!
