//! Comparison of a written file with what its plan promised.
use vstd::prelude::*;

use crate::media::{Chapter, ChapterView, MediaInfo, MediaInfoView};
use crate::model::{
    MediaTimestamp, Metadata, MetadataView, StreamTimingView, TimeBase, TimeBaseView,
    TimestampView,
};
use crate::number;
use crate::plan;
use crate::plan::{
    ExpectedCodec, ExpectedCodecView, ExpectedStream, ExpectedStreamKind, ExpectedStreamView,
    JobPlan, JobPlanView, KindView, OperationView, OutputStreamPlan,
};
use crate::stream::{Dispositions, DispositionsView, StreamInfo, StreamInfoView};
use crate::table;
use crate::text;

verus! {

/// The text that the standard library's debug formatting gives for a text: its characters between
/// quotation marks, with escapes.
pub uninterp spec fn quoted(value: Seq<char>) -> Seq<char>;

/// Quotes a text with escapes.
///
/// Calls the `Debug` formatting of `str`. Its result depends on the text alone; which characters
/// it escapes is left to the name.
#[verifier::external_body]
pub(crate) fn quote(value: &str) -> (r: String)
    ensures
        r@ == quoted(value@),
{
    format!("{value:?}")
}

/// The most characters of a value in a mismatch.
pub const MISMATCH_CHARS: usize = 160;

/// A text cut to the length that a mismatch shows, with an ellipsis where something was cut.
pub open spec fn bounded_text(value: Seq<char>) -> Seq<char> {
    if value.len() > MISMATCH_CHARS {
        value.take(MISMATCH_CHARS as int).push('\u{2026}')
    } else {
        value
    }
}

fn bounded(value: String) -> (r: String)
    ensures
        r@ == bounded_text(value@),
{
    let chars = text::chars_of(value.as_str());
    if chars.len() > MISMATCH_CHARS {
        let mut out = text::slice_text(&chars, 0, MISMATCH_CHARS);
        out.push('\u{2026}');
        proof {
            assert(chars@.subrange(0, MISMATCH_CHARS as int) =~= value@.take(
                MISMATCH_CHARS as int,
            ));
        }
        out
    } else {
        value
    }
}

/// One way in which a file differs from what was promised.
#[derive(Debug, PartialEq, Eq)]
pub struct ValidationMismatch {
    location: String,
    expected: String,
    actual: String,
}

/// One way in which a file differs from what was promised.
pub struct MismatchView {
    /// What differs.
    pub location: Seq<char>,
    /// What was promised.
    pub expected: Seq<char>,
    /// What was found.
    pub actual: Seq<char>,
}

impl View for ValidationMismatch {
    type V = MismatchView;

    closed spec fn view(&self) -> MismatchView {
        MismatchView {
            location: self.location@,
            expected: self.expected@,
            actual: self.actual@,
        }
    }
}

impl DeepView for ValidationMismatch {
    type V = MismatchView;

    open spec fn deep_view(&self) -> MismatchView {
        self@
    }
}

impl Clone for ValidationMismatch {
    fn clone(&self) -> (r: Self)
        ensures
            r@ == self@,
    {
        ValidationMismatch {
            location: self.location.clone(),
            expected: self.expected.clone(),
            actual: self.actual.clone(),
        }
    }
}

/// A mismatch with its values cut to the length that is shown.
pub open spec fn mismatch(
    location: Seq<char>,
    expected: Seq<char>,
    actual: Seq<char>,
) -> MismatchView {
    MismatchView { location, expected: bounded_text(expected), actual: bounded_text(actual) }
}

impl ValidationMismatch {
    fn new(location: String, expected: String, actual: String) -> (r: Self)
        ensures
            r@ == mismatch(location@, expected@, actual@),
    {
        ValidationMismatch { location, expected: bounded(expected), actual: bounded(actual) }
    }

    /// What differs.
    pub fn location(&self) -> (r: &str)
        ensures
            r@ == self@.location,
    {
        self.location.as_str()
    }

    /// What was promised.
    pub fn expected(&self) -> (r: &str)
        ensures
            r@ == self@.expected,
    {
        self.expected.as_str()
    }

    /// What was found.
    pub fn actual(&self) -> (r: &str)
        ensures
            r@ == self@.actual,
    {
        self.actual.as_str()
    }
}

/// What was observed while a file was found as promised.
#[derive(Debug, PartialEq, Eq)]
pub struct ValidationReport {
    warnings: Vec<String>,
}

impl View for ValidationReport {
    type V = Seq<Seq<char>>;

    closed spec fn view(&self) -> Seq<Seq<char>> {
        self.warnings.deep_view()
    }
}

impl Default for ValidationReport {
    fn default() -> (r: Self)
        ensures
            r@ == Seq::<Seq<char>>::empty(),
    {
        let r = ValidationReport { warnings: Vec::new() };
        proof {
            assert(r@ =~= Seq::<Seq<char>>::empty());
        }
        r
    }
}

impl Clone for ValidationReport {
    fn clone(&self) -> (r: Self)
        ensures
            r@ == self@,
    {
        ValidationReport { warnings: text::copy_texts(&self.warnings) }
    }
}

impl ValidationReport {
    /// What was observed.
    pub fn warnings(&self) -> (r: &Vec<String>)
        ensures
            r.deep_view() == self@,
    {
        &self.warnings
    }
}

/// The distance between two tick counts, multiplied by both denominators.
pub open spec fn tick_distance(
    left: i64,
    left_base: TimeBaseView,
    right: i64,
    right_base: TimeBaseView,
) -> int {
    let l = left * left_base.numerator * right_base.denominator;
    let r = right * right_base.numerator * left_base.denominator;
    if l >= r {
        l - r
    } else {
        r - l
    }
}

/// Whether two tick counts are the same time.
pub open spec fn same_time(
    left: i64,
    left_base: TimeBaseView,
    right: i64,
    right_base: TimeBaseView,
) -> bool {
    tick_distance(left, left_base, right, right_base) == 0
}

/// Whether two tick counts differ by at most so many ticks of the second.
pub open spec fn ticks_apart(
    expected: i64,
    expected_base: TimeBaseView,
    actual: i64,
    actual_base: TimeBaseView,
    ticks: u32,
) -> bool {
    tick_distance(expected, expected_base, actual, actual_base) <= ticks * actual_base.numerator
        * expected_base.denominator
}

/// Whether two tick counts differ by at most the time of so many samples.
pub open spec fn samples_apart(
    expected: i64,
    expected_base: TimeBaseView,
    actual: i64,
    actual_base: TimeBaseView,
    sample_rate: u32,
    samples: u32,
) -> bool {
    tick_distance(expected, expected_base, actual, actual_base) * sample_rate
        <= expected_base.denominator * actual_base.denominator * samples
}

proof fn lemma_product_bound(ticks: i64, n: u32, d: u32)
    ensures
        -0x8000_0000_0000_0000_0000_0000_0000_0000 < ticks * n * d
            < 0x8000_0000_0000_0000_0000_0000_0000_0000,
        -0x8000_0000_0000_0000_0000_0000 <= ticks * n <= 0x8000_0000_0000_0000_0000_0000,
{
    assert(-0x8000_0000_0000_0000 * 0xffff_ffff <= ticks * n <= 0x8000_0000_0000_0000
        * 0xffff_ffff) by (nonlinear_arith)
        requires
            -0x8000_0000_0000_0000 <= ticks <= 0x7fff_ffff_ffff_ffff,
            0 <= n <= 0xffff_ffff,
    ;
    let p = ticks * n;
    assert(-0x8000_0000_0000_0000 * 0xffff_ffff * 0xffff_ffff <= p * d <= 0x8000_0000_0000_0000
        * 0xffff_ffff * 0xffff_ffff) by (nonlinear_arith)
        requires
            -0x8000_0000_0000_0000 * 0xffff_ffff <= p <= 0x8000_0000_0000_0000 * 0xffff_ffff,
            0 <= d <= 0xffff_ffff,
    ;
}

fn scaled_ticks(ticks: i64, numerator: u32, denominator: u32) -> (r: i128)
    ensures
        r as int == ticks * numerator * denominator,
{
    proof {
        lemma_product_bound(ticks, numerator, denominator);
    }
    (ticks as i128) * (numerator as i128) * (denominator as i128)
}

fn scaled_difference(left: i64, left_base: TimeBase, right: i64, right_base: TimeBase) -> (r: u128)
    ensures
        r as int == tick_distance(left, left_base@, right, right_base@),
{
    let l: i128 = scaled_ticks(left, left_base.numerator(), right_base.denominator());
    let r: i128 = scaled_ticks(right, right_base.numerator(), left_base.denominator());
    proof {
        lemma_product_bound(left, left_base@.numerator, right_base@.denominator);
        lemma_product_bound(right, right_base@.numerator, left_base@.denominator);
    }
    if l >= r {
        if r >= 0 {
            (l - r) as u128
        } else if l >= 0 {
            (l as u128) + ((-r) as u128)
        } else {
            ((-r) as u128) - ((-l) as u128)
        }
    } else {
        if l >= 0 {
            (r - l) as u128
        } else if r >= 0 {
            (r as u128) + ((-l) as u128)
        } else {
            ((-l) as u128) - ((-r) as u128)
        }
    }
}

fn rational_equal(left: i64, left_base: TimeBase, right: i64, right_base: TimeBase) -> (r: bool)
    ensures
        r == same_time(left, left_base@, right, right_base@),
{
    scaled_difference(left, left_base, right, right_base) == 0
}

fn product3(a: u32, b: u32, c: u32) -> (r: u128)
    ensures
        r as int == a * b * c,
{
    proof {
        assert(0 <= a * b <= 0xffff_ffff * 0xffff_ffff) by (nonlinear_arith)
            requires
                0 <= a <= 0xffff_ffff,
                0 <= b <= 0xffff_ffff,
        ;
        let p = a * b;
        assert(0 <= p * c <= 0xffff_ffff * 0xffff_ffff * 0xffff_ffff) by (nonlinear_arith)
            requires
                0 <= p <= 0xffff_ffff * 0xffff_ffff,
                0 <= c <= 0xffff_ffff,
        ;
    }
    (a as u128) * (b as u128) * (c as u128)
}

/// Whether a timestamp differs from the promised one by at most so many of its own ticks.
pub fn within_actual_ticks(expected: MediaTimestamp, actual: MediaTimestamp, ticks: u32) -> (r: bool)
    ensures
        r == ticks_apart(
            expected@.ticks,
            expected@.time_base,
            actual@.ticks,
            actual@.time_base,
            ticks,
        ),
{
    within_duration_ticks(
        expected.ticks(),
        expected.time_base(),
        actual.ticks(),
        actual.time_base(),
        ticks,
    )
}

/// Whether a timestamp differs from the promised one by at most the time of so many samples.
pub fn within_samples(
    expected: MediaTimestamp,
    actual: MediaTimestamp,
    sample_rate: u32,
    samples: u32,
) -> (r: bool)
    ensures
        r == samples_apart(
            expected@.ticks,
            expected@.time_base,
            actual@.ticks,
            actual@.time_base,
            sample_rate,
            samples,
        ),
{
    within_duration_samples(
        expected.ticks(),
        expected.time_base(),
        actual.ticks(),
        actual.time_base(),
        sample_rate,
        samples,
    )
}

fn within_duration_ticks(
    expected: i64,
    expected_base: TimeBase,
    actual: i64,
    actual_base: TimeBase,
    ticks: u32,
) -> (r: bool)
    ensures
        r == ticks_apart(expected, expected_base@, actual, actual_base@, ticks),
{
    let difference: u128 = scaled_difference(expected, expected_base, actual, actual_base);
    let tolerance: u128 = product3(ticks, actual_base.numerator(), expected_base.denominator());
    difference <= tolerance
}

fn within_duration_samples(
    expected: i64,
    expected_base: TimeBase,
    actual: i64,
    actual_base: TimeBase,
    sample_rate: u32,
    samples: u32,
) -> (r: bool)
    ensures
        r == samples_apart(
            expected,
            expected_base@,
            actual,
            actual_base@,
            sample_rate,
            samples,
        ),
{
    let difference: u128 = scaled_difference(expected, expected_base, actual, actual_base);
    let limit: u128 = product3(expected_base.denominator(), actual_base.denominator(), samples);
    if sample_rate == 0 {
        proof {
            assert(difference * sample_rate == 0) by (nonlinear_arith)
                requires
                    sample_rate == 0,
            ;
        }
        return true;
    }
    let most: u128 = limit / (sample_rate as u128);
    proof {
        lemma_scaled_limit(difference as int, limit as int, sample_rate as int);
    }
    difference <= most
}

/// Multiplying by a positive number and dividing by it compare alike.
proof fn lemma_scaled_limit(difference: int, limit: int, rate: int)
    requires
        rate > 0,
        difference >= 0,
        limit >= 0,
    ensures
        difference * rate <= limit <==> difference <= limit / rate,
{
    let q = limit / rate;
    let rest = limit % rate;
    assert(limit == rate * q + rest && 0 <= rest < rate) by (nonlinear_arith)
        requires
            rate > 0,
            q == limit / rate,
            rest == limit % rate,
    ;
    if difference <= q {
        assert(difference * rate <= q * rate) by (nonlinear_arith)
            requires
                difference <= q,
                rate > 0,
        ;
        assert(q * rate == rate * q) by (nonlinear_arith);
    } else {
        assert(difference * rate >= (q + 1) * rate) by (nonlinear_arith)
            requires
                difference >= q + 1,
                rate > 0,
        ;
        assert((q + 1) * rate == rate * q + rate) by (nonlinear_arith);
    }
}

/// The number of samples in a frame of the codec with this label.
pub open spec fn frame_samples(label: Seq<char>) -> u32 {
    if label == "AAC"@ {
        1_024
    } else {
        1_536
    }
}

/// The number of samples in a frame of the codec with this label.
pub fn codec_frame_samples(label: &str) -> (r: u32)
    ensures
        r == frame_samples(label@),
{
    if text::same(label, "AAC") {
        1_024
    } else {
        1_536
    }
}

/// The codec name that a probe reports for the codec with this label.
pub open spec fn probed_codec(label: Seq<char>) -> Option<Seq<char>> {
    if label == "AC-3"@ {
        Some("ac3"@)
    } else if label == "E-AC-3"@ {
        Some("eac3"@)
    } else if label == "AAC"@ {
        Some("aac"@)
    } else {
        None
    }
}

fn encoded_codec_name(label: &str) -> (r: Option<&'static str>)
    ensures
        r.deep_view() == probed_codec(label@),
{
    if text::same(label, "AC-3") {
        Some("ac3")
    } else if text::same(label, "E-AC-3") {
        Some("eac3")
    } else if text::same(label, "AAC") {
        Some("aac")
    } else {
        None
    }
}

/// Whether a codec name is what was promised.
pub open spec fn codec_kept(expected: ExpectedCodecView, actual: Seq<char>) -> bool {
    match expected {
        ExpectedCodecView::Copied(name) => actual == name,
        ExpectedCodecView::Encoded(label) => probed_codec(label) == Some(actual),
    }
}

fn codec_matches(expected: &ExpectedCodec, actual: &str) -> (r: bool)
    ensures
        r == codec_kept(expected@, actual@),
{
    match expected {
        ExpectedCodec::Copied(name) => text::same(actual, name.as_str()),
        ExpectedCodec::Encoded(label) => match encoded_codec_name(label) {
            Some(name) => text::same(actual, name),
            None => false,
        },
    }
}

/// Metadata that a muxer writes anew, so that it need not be kept.
pub open spec fn is_volatile(key: Seq<char>) -> bool {
    let name = text::upper(key);
    ||| name == "DURATION"@
    ||| name == "ENCODER"@
    ||| name == "BPS"@
    ||| name == "NUMBER_OF_FRAMES"@
    ||| name == "NUMBER_OF_BYTES"@
    ||| text::starts_with(name, "_STATISTICS_"@)
}

fn is_volatile_muxer_metadata(key: &str) -> (r: bool)
    ensures
        r == is_volatile(key@),
{
    let upper = text::to_upper(key);
    let name = upper.as_str();
    text::same(name, "DURATION") || text::same(name, "ENCODER") || text::same(name, "BPS")
        || text::same(name, "NUMBER_OF_FRAMES") || text::same(name, "NUMBER_OF_BYTES")
        || text::begins_with(name, "_STATISTICS_")
}

/// The value of the first entry whose key is the same but for ASCII case.
pub open spec fn find_value(pairs: Seq<(Seq<char>, Seq<char>)>, key: Seq<char>) -> Option<Seq<char>>
    decreases pairs.len(),
{
    if pairs.len() == 0 {
        None
    } else if text::lower(pairs[0].0) == text::lower(key) {
        Some(pairs[0].1)
    } else {
        find_value(pairs.drop_first(), key)
    }
}

fn find_entry<'a>(pairs: &Vec<(&'a str, &'a str)>, key: &str) -> (r: Option<&'a str>)
    ensures
        r.deep_view() == find_value(pairs.deep_view(), key@),
{
    let ghost all = pairs.deep_view();
    let mut i: usize = 0;
    proof {
        assert(all.skip(0) =~= all);
    }
    while i < pairs.len()
        invariant
            all == pairs.deep_view(),
            i <= pairs@.len(),
            find_value(all, key@) == find_value(all.skip(i as int), key@),
        decreases pairs@.len() - i,
    {
        let (name, value) = pairs[i];
        proof {
            assert(all[i as int] == (name@, value@));
            assert(all.skip(i as int)[0] == all[i as int]);
            assert(all.skip(i as int).drop_first() =~= all.skip(i + 1));
        }
        if text::same_ignoring_case(name, key) {
            return Some(value);
        }
        i = i + 1;
    }
    None
}

/// What one promised metadata entry is missing.
pub open spec fn entry_mismatch(
    location: Seq<char>,
    pair: (Seq<char>, Seq<char>),
    actual: Seq<(Seq<char>, Seq<char>)>,
) -> Seq<MismatchView> {
    let found = find_value(actual, pair.0);
    if is_volatile(pair.0) || found == Some(pair.1) {
        seq![]
    } else {
        seq![
            mismatch(
                location + "."@ + pair.0,
                pair.1,
                match found {
                    Some(value) => value,
                    None => "<missing>"@,
                },
            ),
        ]
    }
}

/// What promised metadata entries are missing, in their order.
pub open spec fn entries_mismatches(
    location: Seq<char>,
    expected: Seq<(Seq<char>, Seq<char>)>,
    actual: Seq<(Seq<char>, Seq<char>)>,
) -> Seq<MismatchView>
    decreases expected.len(),
{
    if expected.len() == 0 {
        seq![]
    } else {
        entries_mismatches(location, expected.drop_last(), actual) + entry_mismatch(
            location,
            expected.last(),
            actual,
        )
    }
}

/// What promised metadata is missing, in ascending order of the keys.
pub open spec fn metadata_mismatches(
    location: Seq<char>,
    expected: MetadataView,
    actual: MetadataView,
) -> Seq<MismatchView> {
    entries_mismatches(location, table::listing(expected), table::listing(actual))
}

fn add_mismatch(
    list: &mut Vec<ValidationMismatch>,
    location: String,
    expected: String,
    actual: String,
)
    ensures
        final(list).deep_view() == old(list).deep_view() + seq![
            mismatch(location@, expected@, actual@),
        ],
{
    let ghost before = list.deep_view();
    let next = ValidationMismatch::new(location, expected, actual);
    list.push(next);
    proof {
        assert(list.deep_view() =~= before + seq![next@]);
    }
}

fn validate_metadata(
    location: &str,
    expected: &Metadata,
    actual: &Metadata,
    mismatches: &mut Vec<ValidationMismatch>,
)
    ensures
        final(mismatches).deep_view() == old(mismatches).deep_view() + metadata_mismatches(
            location@,
            expected@,
            actual@,
        ),
{
    let wanted = expected.iter();
    let found = actual.iter();
    let ghost all = wanted.deep_view();
    let ghost have = found.deep_view();
    let ghost before = mismatches.deep_view();
    let mut i: usize = 0;
    proof {
        assert(entries_mismatches(location@, all.take(0), have) =~= seq![]);
        assert(before + entries_mismatches(location@, all.take(0), have) =~= before);
    }
    while i < wanted.len()
        invariant
            all == wanted.deep_view(),
            have == found.deep_view(),
            i <= wanted@.len(),
            mismatches.deep_view() == before + entries_mismatches(
                location@,
                all.take(i as int),
                have,
            ),
        decreases wanted@.len() - i,
    {
        let (key, value) = wanted[i];
        let ghost so_far = mismatches.deep_view();
        proof {
            assert(all[i as int] == (key@, value@));
            assert(all.take(i + 1).drop_last() =~= all.take(i as int));
            assert(all.take(i + 1).last() == all[i as int]);
        }
        if !is_volatile_muxer_metadata(key) {
            let actual_value = find_entry(&found, key);
            let kept = match actual_value {
                Some(v) => text::same(v, value),
                None => false,
            };
            if !kept {
                let shown = match actual_value {
                    Some(v) => v.to_owned(),
                    None => "<missing>".to_owned(),
                };
                add_mismatch(
                    mismatches,
                    text::concat3(location, ".", key),
                    value.to_owned(),
                    shown,
                );
            }
        }
        proof {
            let step = entry_mismatch(location@, all[i as int], have);
            assert(mismatches.deep_view() =~= so_far + step);
            assert((before + entries_mismatches(location@, all.take(i as int), have)) + step
                =~= before + (entries_mismatches(location@, all.take(i as int), have) + step));
        }
        i = i + 1;
    }
    proof {
        assert(all.take(i as int) =~= all);
    }
}

/// A chapter's place in a report.
pub open spec fn chapter_prefix(position: int) -> Seq<char> {
    "chapters["@ + number::decimal(position) + "]"@
}

/// A range of ticks for people.
pub open spec fn range_text(start: i64, end: i64) -> Seq<char> {
    number::signed_decimal(start as int) + ".."@ + number::signed_decimal(end as int)
}

/// How one chapter differs.
pub open spec fn chapter_mismatches(
    position: int,
    expected: ChapterView,
    actual: ChapterView,
) -> Seq<MismatchView> {
    let range = if same_time(
        expected.start,
        expected.time_base,
        actual.start,
        actual.time_base,
    ) && same_time(expected.end, expected.time_base, actual.end, actual.time_base) {
        seq![]
    } else {
        seq![
            mismatch(
                chapter_prefix(position) + ".range"@,
                range_text(expected.start, expected.end),
                range_text(actual.start, actual.end),
            ),
        ]
    };
    range + metadata_mismatches(
        chapter_prefix(position) + ".metadata"@,
        expected.metadata,
        actual.metadata,
    )
}

/// How the first `n` chapters differ.
pub open spec fn chapters_up_to(
    expected: Seq<ChapterView>,
    actual: Seq<ChapterView>,
    n: int,
) -> Seq<MismatchView>
    decreases n,
{
    if n <= 0 {
        seq![]
    } else {
        chapters_up_to(expected, actual, n - 1) + chapter_mismatches(
            n - 1,
            expected[n - 1],
            actual[n - 1],
        )
    }
}

/// The smaller of two lengths.
pub open spec fn shorter(a: nat, b: nat) -> int {
    if a < b {
        a as int
    } else {
        b as int
    }
}

/// How the chapters differ: their number, then each pair in order.
pub open spec fn all_chapter_mismatches(
    expected: Seq<ChapterView>,
    actual: Seq<ChapterView>,
) -> Seq<MismatchView> {
    let count = if expected.len() == actual.len() {
        seq![]
    } else {
        seq![
            mismatch(
                "chapters.count"@,
                number::decimal(expected.len() as int),
                number::decimal(actual.len() as int),
            ),
        ]
    };
    count + chapters_up_to(expected, actual, shorter(expected.len(), actual.len()))
}

fn show_range(start: i64, end: i64) -> (r: String)
    ensures
        r@ == range_text(start, end),
{
    text::concat3(number::show_i64(start).as_str(), "..", number::show_i64(end).as_str())
}

fn validate_chapters(
    expected: &Vec<Chapter>,
    actual: &Vec<Chapter>,
    mismatches: &mut Vec<ValidationMismatch>,
)
    ensures
        final(mismatches).deep_view() == old(mismatches).deep_view() + all_chapter_mismatches(
            expected.deep_view(),
            actual.deep_view(),
        ),
{
    let ghost e = expected.deep_view();
    let ghost a = actual.deep_view();
    let ghost start = mismatches.deep_view();
    if expected.len() != actual.len() {
        add_mismatch(
            mismatches,
            "chapters.count".to_owned(),
            number::show_usize(expected.len()),
            number::show_usize(actual.len()),
        );
    }
    let ghost before = mismatches.deep_view();
    let count: usize = if expected.len() < actual.len() {
        expected.len()
    } else {
        actual.len()
    };
    let mut i: usize = 0;
    proof {
        assert(before + chapters_up_to(e, a, 0) =~= before);
    }
    while i < count
        invariant
            e == expected.deep_view(),
            a == actual.deep_view(),
            i <= count,
            count <= expected@.len(),
            count <= actual@.len(),
            mismatches.deep_view() == before + chapters_up_to(e, a, i as int),
        decreases count - i,
    {
        let wanted = &expected[i];
        let found = &actual[i];
        let ghost so_far = mismatches.deep_view();
        proof {
            assert(e[i as int] == wanted@);
            assert(a[i as int] == found@);
        }
        let prefix = text::concat3("chapters[", number::show_usize(i).as_str(), "]");
        if !rational_equal(
            wanted.start(),
            wanted.time_base(),
            found.start(),
            found.time_base(),
        ) || !rational_equal(wanted.end(), wanted.time_base(), found.end(), found.time_base()) {
            add_mismatch(
                mismatches,
                text::concat2(prefix.as_str(), ".range"),
                show_range(wanted.start(), wanted.end()),
                show_range(found.start(), found.end()),
            );
        }
        let place = text::concat2(prefix.as_str(), ".metadata");
        validate_metadata(place.as_str(), wanted.metadata(), found.metadata(), mismatches);
        proof {
            let step = chapter_mismatches(i as int, wanted@, found@);
            assert(mismatches.deep_view() =~= so_far + step);
            assert((before + chapters_up_to(e, a, i as int)) + step =~= before + (chapters_up_to(
                e,
                a,
                i as int,
            ) + step));
        }
        i = i + 1;
    }
    proof {
        let counted = all_chapter_mismatches(e, a);
        assert(e.len() == expected@.len());
        assert(a.len() == actual@.len());
        assert(mismatches.deep_view() =~= start + counted);
    }
}

/// A stream's place in a report.
pub open spec fn stream_prefix(position: int) -> Seq<char> {
    "streams["@ + number::decimal(position) + "]"@
}

/// A kind as a report shows it.
pub open spec fn kind_text(kind: KindView) -> Seq<char> {
    match kind {
        KindView::Video => "Video"@,
        KindView::Audio => "Audio"@,
        KindView::Subtitle => "Subtitle"@,
        KindView::Attachment => "Attachment"@,
        KindView::Data => "Data"@,
        KindView::Unknown(name) => "Unknown("@ + quoted(name) + ")"@,
    }
}

fn show_kind(kind: &ExpectedStreamKind) -> (r: String)
    ensures
        r@ == kind_text(kind@),
{
    match kind {
        ExpectedStreamKind::Video => "Video".to_owned(),
        ExpectedStreamKind::Audio => "Audio".to_owned(),
        ExpectedStreamKind::Subtitle => "Subtitle".to_owned(),
        ExpectedStreamKind::Attachment => "Attachment".to_owned(),
        ExpectedStreamKind::Data => "Data".to_owned(),
        ExpectedStreamKind::Unknown(name) => text::concat3(
            "Unknown(",
            quote(name.as_str()).as_str(),
            ")",
        ),
    }
}

fn same_kind(a: &ExpectedStreamKind, b: &ExpectedStreamKind) -> (r: bool)
    ensures
        r == (a@ == b@),
{
    match (a, b) {
        (ExpectedStreamKind::Video, ExpectedStreamKind::Video) => true,
        (ExpectedStreamKind::Audio, ExpectedStreamKind::Audio) => true,
        (ExpectedStreamKind::Subtitle, ExpectedStreamKind::Subtitle) => true,
        (ExpectedStreamKind::Attachment, ExpectedStreamKind::Attachment) => true,
        (ExpectedStreamKind::Data, ExpectedStreamKind::Data) => true,
        (ExpectedStreamKind::Unknown(x), ExpectedStreamKind::Unknown(y)) => text::same(
            x.as_str(),
            y.as_str(),
        ),
        _ => false,
    }
}

/// A promised codec as a report shows it.
pub open spec fn codec_text(codec: ExpectedCodecView) -> Seq<char> {
    match codec {
        ExpectedCodecView::Copied(name) => "Copied("@ + quoted(name) + ")"@,
        ExpectedCodecView::Encoded(label) => "Encoded("@ + quoted(label) + ")"@,
    }
}

fn show_codec(codec: &ExpectedCodec) -> (r: String)
    ensures
        r@ == codec_text(codec@),
{
    match codec {
        ExpectedCodec::Copied(name) => text::concat3("Copied(", quote(name.as_str()).as_str(), ")"),
        ExpectedCodec::Encoded(label) => text::concat3("Encoded(", quote(label).as_str(), ")"),
    }
}

/// A timestamp as a report shows it.
pub open spec fn timestamp_text(start: Option<TimestampView>) -> Seq<char> {
    match start {
        Some(t) => "Some(MediaTimestamp { ticks: "@ + number::signed_decimal(t.ticks as int)
            + ", time_base: TimeBase { numerator: "@ + number::decimal(
            t.time_base.numerator as int,
        ) + ", denominator: "@ + number::decimal(t.time_base.denominator as int) + " } })"@,
        None => "None"@,
    }
}

fn show_timestamp(start: Option<MediaTimestamp>) -> (r: String)
    ensures
        r@ == timestamp_text(start.deep_view()),
{
    match start {
        Some(t) => {
            let mut out = text::concat3(
                "Some(MediaTimestamp { ticks: ",
                number::show_i64(t.ticks()).as_str(),
                ", time_base: TimeBase { numerator: ",
            );
            text::push_text(
                &mut out,
                number::show_u64(t.time_base().numerator() as u64).as_str(),
            );
            text::push_text(&mut out, ", denominator: ");
            text::push_text(
                &mut out,
                number::show_u64(t.time_base().denominator() as u64).as_str(),
            );
            text::push_text(&mut out, " } })");
            out
        },
        None => "None".to_owned(),
    }
}

/// The names of the flags that are on, in ascending order.
pub open spec fn enabled_in(pairs: Seq<(Seq<char>, bool)>) -> Seq<Seq<char>>
    decreases pairs.len(),
{
    if pairs.len() == 0 {
        seq![]
    } else if pairs.last().1 {
        enabled_in(pairs.drop_last()).push(pairs.last().0)
    } else {
        enabled_in(pairs.drop_last())
    }
}

/// The names of the disposition flags that are on, in ascending order.
pub open spec fn enabled(flags: DispositionsView) -> Seq<Seq<char>> {
    enabled_in(table::listing(flags))
}

/// The names of the disposition flags that are on, in ascending order.
pub fn enabled_dispositions(dispositions: &Dispositions) -> (r: Vec<String>)
    ensures
        r.deep_view() == enabled(dispositions@),
{
    let flags = dispositions.to_flags();
    flags.order();
    let ghost pairs = flags.pairs();
    let mut out: Vec<String> = Vec::new();
    let mut i: usize = 0;
    proof {
        assert(out.deep_view() =~= seq![]);
    }
    while i < flags.len()
        invariant
            pairs == flags.pairs(),
            i <= pairs.len(),
            out.deep_view() == enabled_in(pairs.take(i as int)),
        decreases pairs.len() - i,
    {
        let ghost before = out;
        proof {
            assert(pairs.take(i + 1).drop_last() =~= pairs.take(i as int));
            assert(pairs.take(i + 1).last() == pairs[i as int]);
        }
        if *flags.value_at(i) {
            let name = flags.key_at(i).to_owned();
            out.push(name);
            proof {
                assert(out.deep_view() =~= before.deep_view().push(name@));
            }
        }
        i = i + 1;
    }
    proof {
        assert(pairs.take(i as int) =~= pairs);
    }
    out
}

/// Quoted names.
pub open spec fn quoted_all(names: Seq<Seq<char>>) -> Seq<Seq<char>> {
    Seq::new(names.len(), |i: int| quoted(names[i]))
}

/// A set of names as a report shows it.
pub open spec fn set_text(names: Seq<Seq<char>>) -> Seq<char> {
    "{"@ + text::join(quoted_all(names), ", "@) + "}"@
}

fn show_set(names: &Vec<String>) -> (r: String)
    ensures
        r@ == set_text(names.deep_view()),
{
    let ghost all = quoted_all(names.deep_view());
    let mut parts: Vec<String> = Vec::new();
    let mut i: usize = 0;
    proof {
        assert(parts.deep_view() =~= all.take(0));
    }
    while i < names.len()
        invariant
            all == quoted_all(names.deep_view()),
            i <= names@.len(),
            parts.deep_view() == all.take(i as int),
        decreases names@.len() - i,
    {
        let ghost before = parts;
        let part = quote(names[i].as_str());
        parts.push(part);
        proof {
            assert(names.deep_view()[i as int] == names@[i as int]@);
            assert(parts.deep_view() =~= before.deep_view().push(part@));
            assert(all.take(i + 1) =~= all.take(i as int).push(all[i as int]));
        }
        i = i + 1;
    }
    proof {
        assert(all.take(i as int) =~= all);
    }
    text::concat3("{", text::joined(&parts, ", ").as_str(), "}")
}

fn same_names(a: &Vec<String>, b: &Vec<String>) -> (r: bool)
    ensures
        r == (a.deep_view() == b.deep_view()),
{
    if a.len() != b.len() {
        proof {
            assert(a.deep_view().len() != b.deep_view().len());
        }
        return false;
    }
    let mut i: usize = 0;
    while i < a.len()
        invariant
            a@.len() == b@.len(),
            i <= a@.len(),
            forall|j: int| 0 <= j < i ==> a.deep_view()[j] == b.deep_view()[j],
        decreases a@.len() - i,
    {
        proof {
            assert(a.deep_view()[i as int] == a@[i as int]@);
            assert(b.deep_view()[i as int] == b@[i as int]@);
        }
        if !text::same(a[i].as_str(), b[i].as_str()) {
            return false;
        }
        i = i + 1;
    }
    proof {
        assert(a.deep_view() =~= b.deep_view());
    }
    true
}

/// The sample rate of a stream, where it is audio that has one.
pub open spec fn rate_of(stream: StreamInfoView) -> Option<u32> {
    match stream {
        StreamInfoView::Audio(audio) => audio.sample_rate,
        _ => None,
    }
}

/// Whether a start is close enough to the promised one: within a frame of encoded audio, and
/// within a tick of a copied stream.
pub open spec fn start_kept(
    codec: ExpectedCodecView,
    expected: TimestampView,
    actual: Option<TimestampView>,
    rate: Option<u32>,
) -> bool {
    match actual {
        Some(found) => match codec {
            ExpectedCodecView::Encoded(label) => match rate {
                Some(per_second) => samples_apart(
                    expected.ticks,
                    expected.time_base,
                    found.ticks,
                    found.time_base,
                    per_second,
                    frame_samples(label),
                ),
                None => false,
            },
            ExpectedCodecView::Copied(_) => ticks_apart(
                expected.ticks,
                expected.time_base,
                found.ticks,
                found.time_base,
                1,
            ),
        },
        None => false,
    }
}

/// Whether a duration is close enough to the promised one: within a frame of encoded audio, and
/// within a tick of a copied stream.
pub open spec fn duration_kept(
    codec: ExpectedCodecView,
    expected: i64,
    expected_base: TimeBaseView,
    actual: i64,
    actual_base: TimeBaseView,
    rate: Option<u32>,
) -> bool {
    match codec {
        ExpectedCodecView::Encoded(label) => match rate {
            Some(per_second) => samples_apart(
                expected,
                expected_base,
                actual,
                actual_base,
                per_second,
                frame_samples(label),
            ),
            None => false,
        },
        ExpectedCodecView::Copied(_) => ticks_apart(
            expected,
            expected_base,
            actual,
            actual_base,
            1,
        ),
    }
}

/// How the start of a stream differs.
pub open spec fn start_mismatches(
    prefix: Seq<char>,
    codec: ExpectedCodecView,
    expected: StreamTimingView,
    actual: StreamTimingView,
    rate: Option<u32>,
) -> Seq<MismatchView> {
    match expected.start {
        Some(start) => if start_kept(codec, start, actual.start, rate) {
            seq![]
        } else {
            seq![
                mismatch(
                    prefix + ".start"@,
                    timestamp_text(expected.start),
                    timestamp_text(actual.start),
                ),
            ]
        },
        None => seq![],
    }
}

/// How the duration of a stream differs; it is compared where both files give start and duration.
pub open spec fn duration_mismatches(
    prefix: Seq<char>,
    codec: ExpectedCodecView,
    expected: StreamTimingView,
    actual: StreamTimingView,
    rate: Option<u32>,
) -> Seq<MismatchView> {
    match (expected.duration_ticks, actual.duration_ticks, expected.start, actual.start) {
        (Some(wanted), Some(found), Some(wanted_start), Some(found_start)) => if duration_kept(
            codec,
            wanted,
            wanted_start.time_base,
            found,
            found_start.time_base,
            rate,
        ) {
            seq![]
        } else {
            seq![
                mismatch(
                    prefix + ".duration"@,
                    number::signed_decimal(wanted as int),
                    number::signed_decimal(found as int),
                ),
            ]
        },
        _ => seq![],
    }
}

fn sample_rate_of(stream: &StreamInfo) -> (r: Option<u32>)
    ensures
        r == rate_of(stream@),
{
    match stream.as_audio() {
        Some(audio) => match audio.sample_rate() {
            Some(rate) => Some(rate.get()),
            None => None,
        },
        None => None,
    }
}

fn validate_timing(
    prefix: &str,
    expected: &ExpectedStream,
    actual: &StreamInfo,
    mismatches: &mut Vec<ValidationMismatch>,
)
    ensures
        final(mismatches).deep_view() == old(mismatches).deep_view() + start_mismatches(
            prefix@,
            expected@.codec,
            expected@.timing,
            actual@.common().timing,
            rate_of(actual@),
        ) + duration_mismatches(
            prefix@,
            expected@.codec,
            expected@.timing,
            actual@.common().timing,
            rate_of(actual@),
        ),
{
    let expected_timing = expected.timing();
    let actual_timing = actual.common().timing();
    let rate = sample_rate_of(actual);
    let ghost before = mismatches.deep_view();
    match expected_timing.start() {
        Some(wanted) => {
            let close = match actual_timing.start() {
                Some(found) => match expected.codec() {
                    ExpectedCodec::Encoded(label) => match rate {
                        Some(per_second) => within_samples(
                            wanted,
                            found,
                            per_second,
                            codec_frame_samples(label),
                        ),
                        None => false,
                    },
                    ExpectedCodec::Copied(_) => within_actual_ticks(wanted, found, 1),
                },
                None => false,
            };
            if !close {
                add_mismatch(
                    mismatches,
                    text::concat2(prefix, ".start"),
                    show_timestamp(expected_timing.start()),
                    show_timestamp(actual_timing.start()),
                );
            }
        },
        None => {},
    }
    let ghost middle = mismatches.deep_view();
    proof {
        assert(middle =~= before + start_mismatches(
            prefix@,
            expected@.codec,
            expected@.timing,
            actual@.common().timing,
            rate_of(actual@),
        ));
    }
    match (
        expected_timing.duration_ticks(),
        actual_timing.duration_ticks(),
        expected_timing.start(),
        actual_timing.start(),
    ) {
        (Some(wanted), Some(found), Some(wanted_start), Some(found_start)) => {
            let close = match expected.codec() {
                ExpectedCodec::Encoded(label) => match rate {
                    Some(per_second) => within_duration_samples(
                        wanted,
                        wanted_start.time_base(),
                        found,
                        found_start.time_base(),
                        per_second,
                        codec_frame_samples(label),
                    ),
                    None => false,
                },
                ExpectedCodec::Copied(_) => within_duration_ticks(
                    wanted,
                    wanted_start.time_base(),
                    found,
                    found_start.time_base(),
                    1,
                ),
            };
            if !close {
                add_mismatch(
                    mismatches,
                    text::concat2(prefix, ".duration"),
                    number::show_i64(wanted),
                    number::show_i64(found),
                );
            }
        },
        _ => {},
    }
    proof {
        assert(mismatches.deep_view() =~= middle + duration_mismatches(
            prefix@,
            expected@.codec,
            expected@.timing,
            actual@.common().timing,
            rate_of(actual@),
        ));
    }
}

/// How the number of channels of an encoded stream differs.
pub open spec fn channel_mismatches(
    prefix: Seq<char>,
    operation: OperationView,
    actual: StreamInfoView,
) -> Seq<MismatchView> {
    match operation {
        OperationView::EncodeAudio { output_channels, .. } => match actual {
            StreamInfoView::Audio(audio) => if audio.channels.count == output_channels {
                seq![]
            } else {
                seq![
                    mismatch(
                        prefix + ".channels"@,
                        number::decimal(output_channels as int),
                        number::decimal(audio.channels.count as int),
                    ),
                ]
            },
            _ => seq![
                mismatch(
                    prefix + ".channels"@,
                    number::decimal(output_channels as int),
                    "<missing>"@,
                ),
            ],
        },
        OperationView::Copy { .. } => seq![],
    }
}

/// How the kind of a stream differs.
pub open spec fn kind_mismatches(
    prefix: Seq<char>,
    expected: KindView,
    actual: StreamInfoView,
) -> Seq<MismatchView> {
    if expected == plan::kind_of(actual) {
        seq![]
    } else {
        seq![
            mismatch(prefix + ".kind"@, kind_text(expected), kind_text(plan::kind_of(actual))),
        ]
    }
}

/// How the codec of a stream differs.
pub open spec fn codec_mismatches(
    prefix: Seq<char>,
    expected: ExpectedCodecView,
    actual: Seq<char>,
) -> Seq<MismatchView> {
    if codec_kept(expected, actual) {
        seq![]
    } else {
        seq![mismatch(prefix + ".codec"@, codec_text(expected), actual)]
    }
}

/// How the disposition flags of a stream differ.
pub open spec fn disposition_mismatches(
    prefix: Seq<char>,
    expected: DispositionsView,
    actual: DispositionsView,
) -> Seq<MismatchView> {
    if enabled(expected) == enabled(actual) {
        seq![]
    } else {
        seq![
            mismatch(
                prefix + ".dispositions"@,
                set_text(enabled(expected)),
                set_text(enabled(actual)),
            ),
        ]
    }
}

/// How one stream differs: kind, codec, channels, metadata, dispositions, start and duration.
pub open spec fn stream_mismatches(
    position: int,
    expected: ExpectedStreamView,
    operation: OperationView,
    actual: StreamInfoView,
) -> Seq<MismatchView> {
    let prefix = stream_prefix(position);
    let common = actual.common();
    kind_mismatches(prefix, expected.kind, actual) + codec_mismatches(
        prefix,
        expected.codec,
        common.codec_name,
    ) + channel_mismatches(prefix, operation, actual) + metadata_mismatches(
        prefix + ".metadata"@,
        expected.metadata,
        common.metadata,
    ) + disposition_mismatches(prefix, expected.dispositions, common.dispositions)
        + start_mismatches(
        prefix,
        expected.codec,
        expected.timing,
        common.timing,
        rate_of(actual),
    ) + duration_mismatches(
        prefix,
        expected.codec,
        expected.timing,
        common.timing,
        rate_of(actual),
    )
}

proof fn lemma_regroup(
    s: Seq<MismatchView>,
    m1: Seq<MismatchView>,
    m2: Seq<MismatchView>,
    m3: Seq<MismatchView>,
    m4: Seq<MismatchView>,
    m5: Seq<MismatchView>,
    m6: Seq<MismatchView>,
    m7: Seq<MismatchView>,
)
    ensures
        s + m1 + m2 + m3 + m4 + m5 + m6 + m7 == s + (m1 + m2 + m3 + m4 + m5 + m6 + m7),
{
    assert(s + m1 + m2 + m3 + m4 + m5 + m6 + m7 =~= s + (m1 + m2 + m3 + m4 + m5 + m6 + m7));
}

#[verifier::rlimit(40)]
#[verifier::spinoff_prover]
fn validate_stream(
    position: usize,
    expected: &ExpectedStream,
    operation: &OutputStreamPlan,
    actual: &StreamInfo,
    mismatches: &mut Vec<ValidationMismatch>,
)
    ensures
        final(mismatches).deep_view() == old(mismatches).deep_view() + stream_mismatches(
            position as int,
            expected@,
            operation@,
            actual@,
        ),
{
    let text_prefix = text::concat3("streams[", number::show_usize(position).as_str(), "]");
    let prefix = text_prefix.as_str();
    let ghost s0 = mismatches.deep_view();
    let ghost m1 = kind_mismatches(prefix@, expected@.kind, actual@);
    let ghost m2 = codec_mismatches(prefix@, expected@.codec, actual@.common().codec_name);
    let ghost m3 = channel_mismatches(prefix@, operation@, actual@);
    let ghost m4 = metadata_mismatches(
        prefix@ + ".metadata"@,
        expected@.metadata,
        actual@.common().metadata,
    );
    let ghost m5 = disposition_mismatches(
        prefix@,
        expected@.dispositions,
        actual@.common().dispositions,
    );
    let actual_kind = plan::stream_kind(actual);
    if !same_kind(expected.kind(), &actual_kind) {
        add_mismatch(
            mismatches,
            text::concat2(prefix, ".kind"),
            show_kind(expected.kind()),
            show_kind(&actual_kind),
        );
    }
    proof {
        assert(mismatches.deep_view() =~= s0 + m1);
    }
    if !codec_matches(expected.codec(), actual.common().codec_name()) {
        add_mismatch(
            mismatches,
            text::concat2(prefix, ".codec"),
            show_codec(expected.codec()),
            actual.common().codec_name().to_owned(),
        );
    }
    proof {
        assert(mismatches.deep_view() =~= s0 + m1 + m2);
    }
    match operation {
        OutputStreamPlan::EncodeAudio { output_channels, .. } => {
            let shown = match actual.as_audio() {
                Some(audio) => if audio.channels().count().get() == output_channels.get() {
                    None
                } else {
                    Some(audio.channels().count().show())
                },
                None => Some("<missing>".to_owned()),
            };
            match shown {
                Some(value) => {
                    add_mismatch(
                        mismatches,
                        text::concat2(prefix, ".channels"),
                        output_channels.show(),
                        value,
                    );
                },
                None => {},
            }
        },
        OutputStreamPlan::Copy { .. } => {},
    }
    proof {
        assert(mismatches.deep_view() =~= s0 + m1 + m2 + m3);
    }
    let place = text::concat2(prefix, ".metadata");
    validate_metadata(
        place.as_str(),
        expected.metadata(),
        actual.common().metadata(),
        mismatches,
    );
    let expected_flags = enabled_dispositions(expected.dispositions());
    let actual_flags = enabled_dispositions(actual.common().dispositions());
    if !same_names(&expected_flags, &actual_flags) {
        add_mismatch(
            mismatches,
            text::concat2(prefix, ".dispositions"),
            show_set(&expected_flags),
            show_set(&actual_flags),
        );
    }
    proof {
        assert(mismatches.deep_view() =~= s0 + m1 + m2 + m3 + m4 + m5);
    }
    validate_timing(prefix, expected, actual, mismatches);
    proof {
        let m6 = start_mismatches(
            prefix@,
            expected@.codec,
            expected@.timing,
            actual@.common().timing,
            rate_of(actual@),
        );
        let m7 = duration_mismatches(
            prefix@,
            expected@.codec,
            expected@.timing,
            actual@.common().timing,
            rate_of(actual@),
        );
        lemma_regroup(s0, m1, m2, m3, m4, m5, m6, m7);
    }
}

/// How the first `n` streams differ.
pub open spec fn streams_up_to(
    expected: Seq<ExpectedStreamView>,
    operations: Seq<OperationView>,
    actual: Seq<StreamInfoView>,
    n: int,
) -> Seq<MismatchView>
    decreases n,
{
    if n <= 0 {
        seq![]
    } else {
        streams_up_to(expected, operations, actual, n - 1) + stream_mismatches(
            n - 1,
            expected[n - 1],
            operations[n - 1],
            actual[n - 1],
        )
    }
}

/// Everything in which a file differs from what its plan promised, in order: container, number of
/// streams, each stream, global metadata, chapters.
pub open spec fn all_mismatches(job: JobPlanView, actual: MediaInfoView) -> Seq<MismatchView> {
    let expected = job.expected;
    let container = if actual.format.is_matroska() {
        seq![]
    } else {
        seq![
            mismatch("format.container"@, "matroska"@, text::join(actual.format.names, ","@)),
        ]
    };
    let count = if expected.streams.len() == actual.streams.len() {
        seq![]
    } else {
        seq![
            mismatch(
                "streams.count"@,
                number::decimal(expected.streams.len() as int),
                number::decimal(actual.streams.len() as int),
            ),
        ]
    };
    let pairs = shorter(
        shorter(expected.streams.len(), job.streams.len()) as nat,
        actual.streams.len(),
    );
    container + count + streams_up_to(expected.streams, job.streams, actual.streams, pairs)
        + metadata_mismatches(
        "format.metadata"@,
        expected.global_metadata,
        actual.format.metadata,
    ) + all_chapter_mismatches(expected.chapters, actual.chapters)
}

/// Compares a probed file with what its plan promised. The error holds every difference in order;
/// there is none exactly where the file is as promised.
pub fn compare_output(plan: &JobPlan, actual: &MediaInfo) -> (r: Result<
    ValidationReport,
    Vec<ValidationMismatch>,
>)
    ensures
        match r {
            Ok(report) => all_mismatches(plan@, actual@).len() == 0 && report@.len() == 0,
            Err(list) => all_mismatches(plan@, actual@).len() > 0 && list.deep_view()
                == all_mismatches(plan@, actual@),
        },
{
    let expected = plan.expected();
    let mut mismatches: Vec<ValidationMismatch> = Vec::new();
    let ghost m0 = mismatches.deep_view();
    proof {
        assert(m0 =~= seq![]);
    }
    if !actual.format().is_matroska() {
        add_mismatch(
            &mut mismatches,
            "format.container".to_owned(),
            "matroska".to_owned(),
            text::joined(actual.format().names(), ","),
        );
    }
    let wanted = expected.streams();
    let operations = plan.streams();
    let found = actual.streams();
    if wanted.len() != found.len() {
        add_mismatch(
            &mut mismatches,
            "streams.count".to_owned(),
            number::show_usize(wanted.len()),
            number::show_usize(found.len()),
        );
    }
    let ghost before = mismatches.deep_view();
    let ghost e = wanted.deep_view();
    let ghost o = operations.deep_view();
    let ghost a = found.deep_view();
    let mut count: usize = wanted.len();
    if operations.len() < count {
        count = operations.len();
    }
    if found.len() < count {
        count = found.len();
    }
    let mut i: usize = 0;
    proof {
        assert(before + streams_up_to(e, o, a, 0) =~= before);
    }
    while i < count
        invariant
            e == wanted.deep_view(),
            o == operations.deep_view(),
            a == found.deep_view(),
            i <= count,
            count <= wanted@.len(),
            count <= operations@.len(),
            count <= found@.len(),
            mismatches.deep_view() == before + streams_up_to(e, o, a, i as int),
        decreases count - i,
    {
        proof {
            assert(e[i as int] == wanted@[i as int]@);
            assert(o[i as int] == operations@[i as int]@);
            assert(a[i as int] == found@[i as int]@);
        }
        validate_stream(i, &wanted[i], &operations[i], &found[i], &mut mismatches);
        proof {
            let done = streams_up_to(e, o, a, i as int);
            let step = stream_mismatches(i as int, e[i as int], o[i as int], a[i as int]);
            assert((before + done) + step =~= before + (done + step));
        }
        i = i + 1;
    }
    validate_metadata(
        "format.metadata",
        expected.global_metadata(),
        actual.format().metadata(),
        &mut mismatches,
    );
    validate_chapters(expected.chapters(), actual.chapters(), &mut mismatches);
    proof {
        assert(e.len() == wanted@.len());
        assert(o.len() == operations@.len());
        assert(a.len() == found@.len());
        assert(mismatches.deep_view() =~= all_mismatches(plan@, actual@));
        assert(mismatches.deep_view().len() == mismatches@.len());
    }
    if mismatches.is_empty() {
        Ok(ValidationReport::default())
    } else {
        Err(mismatches)
    }
}

} // verus!
