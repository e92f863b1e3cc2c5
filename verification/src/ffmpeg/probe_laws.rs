//! What holds of the media that a probed document describes.
use vstd::prelude::*;

use crate::ffmpeg::command::ArgumentView;
use crate::ffmpeg::probe;
use crate::ffmpeg::probe::{
    JsonView, ProbeErrorView, RawChapterView, RawDocumentView, RawFormatView, RawStreamView,
};
use crate::media;
use crate::media::ProbeWarningView;
use crate::model::TimeBaseView;
use crate::number;
use crate::stream;
use crate::stream::StreamInfoView;
use crate::table;
use crate::text;

verus! {

/// Whether a value is a number, as such or as text, and which.
pub open spec fn spells_number(value: Option<JsonView>, n: int) -> bool {
    match value {
        Some(JsonView::Number(t)) => number::read_signed(t, i64::MIN as int, i64::MAX as int)
            == Some(n),
        Some(JsonView::Text(t)) => number::read_signed(t, i64::MIN as int, i64::MAX as int) == Some(
            n,
        ),
        _ => false,
    }
}

/// Whether a value is a number without sign, as such or as text, and which.
pub open spec fn spells_count(value: Option<JsonView>, n: int) -> bool {
    match value {
        Some(JsonView::Number(t)) => number::read_unsigned(t, u64::MAX as int) == Some(n),
        Some(JsonView::Text(t)) => number::read_unsigned(t, u64::MAX as int) == Some(n),
        _ => false,
    }
}

/// A stream is of the kind that the document names; kinds without a name of their own are kept.
pub proof fn law_stream_kinds(raw: RawStreamView)
    requires
        probe::stream_fault(raw) is None,
    ensures
        ({
            let s = probe::stream_of(raw);
            let kind = raw.codec_type->0;
            &&& raw.codec_type is Some
            &&& s is Video <==> kind == "video"@
            &&& s is Audio <==> kind == "audio"@
            &&& s is Subtitle <==> kind == "subtitle"@
            &&& s is Attachment <==> kind == "attachment"@
            &&& s is Data <==> kind == "data"@
            &&& s matches StreamInfoView::Unknown(u) ==> u.kind == kind
        }),
{
    reveal_strlit("video");
    reveal_strlit("audio");
    reveal_strlit("subtitle");
    reveal_strlit("attachment");
    reveal_strlit("data");
    assert("video"@.len() == 5 && "video"@[0] == 'v');
    assert("audio"@.len() == 5 && "audio"@[0] == 'a');
    assert("subtitle"@.len() == 8 && "attachment"@.len() == 10 && "data"@.len() == 4);
}

proof fn lemma_count_range(value: Option<JsonView>, n: int)
    requires
        spells_count(value, n),
    ensures
        0 <= n <= u64::MAX,
{
    let t = match value {
        Some(JsonView::Number(t)) => t,
        Some(JsonView::Text(t)) => t,
        _ => seq![],
    };
    let digits = if t.len() > 0 && t[0] == '+' {
        t.drop_first()
    } else {
        t
    };
    number::lemma_number_nonnegative(digits);
}

proof fn lemma_number_range(value: Option<JsonView>, n: int)
    requires
        spells_number(value, n),
    ensures
        i64::MIN <= n <= i64::MAX,
{
    let t = match value {
        Some(JsonView::Number(t)) => t,
        Some(JsonView::Text(t)) => t,
        _ => seq![],
    };
    number::lemma_read_signed_range(t, i64::MIN as int, i64::MAX as int);
}

/// What every stream tells: its index, its codec name or `unknown`, its profile, its bitrate where
/// that is a number above zero, its first tick where tick and time base are told, and its number of
/// ticks.
pub proof fn law_stream_facts(raw: RawStreamView)
    requires
        probe::stream_fault(raw) is None,
    ensures
        ({
            let c = probe::stream_of(raw).common();
            let named = raw.codec_name is Some && text::trim(raw.codec_name->0).len() > 0;
            &&& raw.index == Some(c.index)
            &&& probe::stream_of(raw).index() == c.index
            &&& named ==> Some(c.codec_name) == raw.codec_name
            &&& !named ==> c.codec_name == "unknown"@
            &&& c.codec_profile == raw.profile
            &&& forall|n: u64| #[trigger]
                spells_count(raw.bit_rate, n as int) && n > 0 ==> c.bitrate == Some(n)
            &&& c.bitrate is Some ==> spells_count(raw.bit_rate, c.bitrate->0 as int)
                && c.bitrate->0 > 0
            &&& c.timing.start is Some ==> spells_number(
                raw.start_pts,
                c.timing.start->0.ticks as int,
            ) && raw.time_base is Some
            &&& raw.time_base is Some ==> forall|n: i64| #[trigger]
                spells_number(raw.start_pts, n as int) ==> c.timing.start is Some
                    && c.timing.start->0.ticks == n
            &&& forall|n: i64| #[trigger]
                spells_number(raw.duration_ts, n as int) ==> c.timing.duration_ticks == Some(n)
            &&& c.timing.duration_ticks is Some ==> spells_number(
                raw.duration_ts,
                c.timing.duration_ticks->0 as int,
            )
        }),
{
    let c = probe::common_of(raw);
    assert(probe::stream_of(raw).common() == c);
    if c.bitrate is Some {
        let n = probe::json_unsigned(raw.bit_rate->0)->0;
        lemma_count_range(raw.bit_rate, n);
    }
    if raw.start_pts is Some && probe::json_signed(raw.start_pts->0) is Some {
        lemma_number_range(raw.start_pts, probe::json_signed(raw.start_pts->0)->0);
    }
    if raw.duration_ts is Some && probe::json_signed(raw.duration_ts->0) is Some {
        lemma_number_range(raw.duration_ts, probe::json_signed(raw.duration_ts->0)->0);
    }
}

/// Audio has the number of channels that the document gives, from 1 to 65535, its layout, its sample
/// rate where that is a number above zero, and the codec that its name and profile stand for.
pub proof fn law_audio_facts(raw: RawStreamView)
    requires
        probe::stream_fault(raw) is None,
        raw.codec_type == Some("audio"@),
    ensures
        ({
            let a = probe::stream_of(raw)->Audio_0;
            &&& probe::stream_of(raw) is Audio
            &&& spells_count(raw.channels, a.channels.count as int)
            &&& a.channels.count > 0
            &&& a.channels.layout_name == raw.channel_layout
            &&& a.codec == stream::codec_of(a.common.codec_name, raw.profile)
            &&& a.sample_rate is Some ==> spells_count(raw.sample_rate, a.sample_rate->0 as int)
                && a.sample_rate->0 > 0
            &&& forall|n: u32| #[trigger]
                spells_count(raw.sample_rate, n as int) && n > 0 ==> a.sample_rate == Some(n)
        }),
{
    law_stream_kinds(raw);
    let n = probe::json_unsigned(raw.channels->0)->0;
    lemma_count_range(raw.channels, n);
    if raw.sample_rate is Some && probe::json_unsigned(raw.sample_rate->0) is Some {
        lemma_count_range(raw.sample_rate, probe::json_unsigned(raw.sample_rate->0)->0);
    }
}

/// Audio without channels, with a number of channels that is none or zero or too large, or with a
/// sample rate that is too large makes the document invalid; other streams need no channels.
pub proof fn law_channels_are_needed(raw: RawStreamView)
    requires
        raw.index is Some,
        raw.codec_type is Some,
        probe::stream_fault(RawStreamView { codec_type: Some("video"@), ..raw }) is None,
    ensures
        ({
            let few = exists|n: int| #[trigger] spells_count(raw.channels, n) && 0 < n <= 65_535;
            let slow = forall|n: int| #[trigger]
                spells_count(raw.sample_rate, n) ==> n <= 0xffff_ffff;
            &&& raw.codec_type->0 != "audio"@ ==> probe::stream_fault(raw) is None
            &&& raw.codec_type->0 == "audio"@ ==> (probe::stream_fault(raw) is None <==> few
                && slow)
        }),
{
    if probe::audio_fault(raw) is None {
        let n = probe::json_unsigned(raw.channels->0)->0;
        lemma_count_range(raw.channels, n);
        assert(spells_count(raw.channels, n) && 0 < n <= 65_535);
    }
    if exists|n: int| #[trigger] spells_count(raw.channels, n) && 0 < n <= 65_535 {
        let n = choose|n: int| #[trigger] spells_count(raw.channels, n) && 0 < n <= 65_535;
        assert(probe::json_unsigned(raw.channels->0) == Some(n));
    }
    if raw.sample_rate is Some && probe::json_unsigned(raw.sample_rate->0) is Some {
        let n = probe::json_unsigned(raw.sample_rate->0)->0;
        assert(spells_count(raw.sample_rate, n));
        lemma_count_range(raw.sample_rate, n);
    }
}

/// A stream without index, without kind, with a time base that is none or with metadata that is not
/// sound makes the document invalid.
pub proof fn law_valid_streams(raw: RawStreamView)
    requires
        probe::stream_fault(raw) is None,
    ensures
        raw.index is Some,
        raw.codec_type is Some,
        raw.time_base is Some ==> probe::time_base_of(
            raw.time_base->0,
            "streams[].time_base"@,
            raw.index,
        ) is Ok,
        raw.time_base is Some && probe::stream_of(raw).common().timing.start is Some
            ==> probe::stream_of(raw).common().timing.start->0.time_base == probe::time_base_of(
            raw.time_base->0,
            "streams[].time_base"@,
            raw.index,
        )->Ok_0,
        !probe::stream_of(raw).common().codec_name.contains('\0'),
{
}

/// A time base is a numerator, a slash and a denominator, both above zero and in range.
pub proof fn law_time_bases(
    a: Seq<char>,
    b: Seq<char>,
    field: Seq<char>,
    at: Option<u32>,
)
    requires
        a.len() > 0,
        b.len() > 0,
        text::all_digits(a),
        text::all_digits(b),
    ensures
        ({
            let r = probe::time_base_of(a.push('/') + b, field, at);
            let n = number::number(a);
            let d = number::number(b);
            &&& 0 < n <= 0xffff_ffff && 0 < d <= 0xffff_ffff <==> r is Ok
            &&& r is Ok ==> r->Ok_0.numerator == n && r->Ok_0.denominator == d
        }),
{
    let s = a.push('/') + b;
    number::lemma_number_nonnegative(a);
    number::lemma_number_nonnegative(b);
    assert(s[a.len() as int] == '/');
    assert forall|i: int| 0 <= i < a.len() implies s[i] != '/' by {
        assert(text::is_digit(a[i]));
        assert(s[i] == a[i]);
    }
    text::lemma_find_unique(s, '/', a.len() as int);
    assert(s.subrange(0, a.len() as int) =~= a);
    assert(s.subrange(a.len() as int + 1, s.len() as int) =~= b);
    assert(text::is_digit(a[0]));
    assert(text::is_digit(b[0]));
}

/// A text without a slash is no time base.
pub proof fn law_time_bases_have_a_slash(value: Seq<char>, field: Seq<char>, at: Option<u32>)
    requires
        !value.contains('/'),
    ensures
        probe::time_base_of(value, field, at) is Err,
{
}

/// Whether a tag has a text, and which: a text as it is, a number as it is written, a truth value by
/// its name.
pub open spec fn tag_text(value: JsonView, t: Seq<char>) -> bool {
    match value {
        JsonView::Text(v) => v == t,
        JsonView::Number(v) => v == t,
        JsonView::Bool(b) => if b {
            t == "true"@
        } else {
            t == "false"@
        },
        _ => false,
    }
}

proof fn lemma_text_entries(pairs: Seq<(Seq<char>, JsonView)>)
    requires
        table::ascending(pairs),
    ensures
        forall|i: int|
            0 <= i < pairs.len() ==> (probe::text_entries(pairs).dom().contains(
                (#[trigger] pairs[i]).0,
            ) <==> pairs[i].1 is Text || pairs[i].1 is Number || pairs[i].1 is Bool),
        forall|i: int|
            0 <= i < pairs.len() && probe::text_entries(pairs).dom().contains(
                (#[trigger] pairs[i]).0,
            ) ==> tag_text(pairs[i].1, probe::text_entries(pairs)[pairs[i].0]),
        forall|k: Seq<char>| #[trigger]
            probe::text_entries(pairs).dom().contains(k) ==> table::has_key(pairs, k),
    decreases pairs.len(),
{
    if pairs.len() > 0 {
        let rest = pairs.drop_last();
        let last = pairs.len() - 1;
        let all = probe::text_entries(pairs);
        let fewer = probe::text_entries(rest);
        assert forall|i: int, j: int| 0 <= i < j < rest.len() implies table::precedes(
            #[trigger] rest[i].0,
            #[trigger] rest[j].0,
        ) by {
            assert(table::precedes(pairs[i].0, pairs[j].0));
        }
        lemma_text_entries(rest);
        assert(!fewer.dom().contains(pairs[last].0)) by {
            if fewer.dom().contains(pairs[last].0) {
                let j = table::key_index(rest, pairs[last].0);
                assert(rest[j] == pairs[j]);
                assert(table::precedes(pairs[j].0, pairs[last].0));
                table::lemma_precedes_irreflexive(pairs[last].0);
            }
        }
        assert forall|i: int| 0 <= i < pairs.len() implies (all.dom().contains(
            (#[trigger] pairs[i]).0,
        ) <==> pairs[i].1 is Text || pairs[i].1 is Number || pairs[i].1 is Bool) && (
        all.dom().contains(pairs[i].0) ==> tag_text(pairs[i].1, all[pairs[i].0])) by {
            if i < last {
                assert(rest[i] == pairs[i]);
                assert(table::precedes(pairs[i].0, pairs[last].0));
                table::lemma_precedes_irreflexive(pairs[i].0);
            }
        }
        assert forall|k: Seq<char>| #[trigger] all.dom().contains(k) implies table::has_key(
            pairs,
            k,
        ) by {
            if fewer.dom().contains(k) {
                let j = table::key_index(rest, k);
                assert(pairs[j].0 == k);
            } else {
                assert(pairs[last].0 == k);
            }
        }
    }
}

/// Metadata holds every tag that is a text, a number or a truth value, by its text, and no other.
pub proof fn law_probed_metadata(tags: Map<Seq<char>, JsonView>, key: Seq<char>)
    requires
        table::is_listed(tags),
    ensures
        ({
            let m = probe::metadata_of(tags);
            &&& m.dom().contains(key) <==> tags.dom().contains(key) && (tags[key] is Text
                || tags[key] is Number || tags[key] is Bool)
            &&& m.dom().contains(key) ==> tag_text(tags[key], m[key])
        }),
{
    let pairs = table::listing(tags);
    lemma_text_entries(pairs);
    if tags.dom().contains(key) {
        let i = table::key_index(pairs, key);
        assert(pairs[i].0 == key);
        table::lemma_key_index(pairs, i);
    }
    if probe::metadata_of(tags).dom().contains(key) {
        assert(table::has_key(pairs, key));
    }
}

/// Whether a flag of a document is on: a truth value that holds, or a number other than zero.
pub open spec fn flag_on(value: JsonView) -> bool {
    match value {
        JsonView::Bool(b) => b,
        _ => exists|n: int| #[trigger] spells_number(Some(value), n) && n != 0,
    }
}

proof fn lemma_flags(pairs: Seq<(Seq<char>, JsonView)>)
    requires
        table::ascending(pairs),
    ensures
        forall|i: int|
            0 <= i < pairs.len() ==> probe::flags_of(pairs).dom().contains(
                (#[trigger] pairs[i]).0,
            ) && (probe::flags_of(pairs)[pairs[i].0] <==> flag_on(pairs[i].1)),
        forall|k: Seq<char>| #[trigger]
            probe::flags_of(pairs).dom().contains(k) ==> table::has_key(pairs, k),
    decreases pairs.len(),
{
    if pairs.len() > 0 {
        let rest = pairs.drop_last();
        let last = pairs.len() - 1;
        let all = probe::flags_of(pairs);
        assert forall|i: int, j: int| 0 <= i < j < rest.len() implies table::precedes(
            #[trigger] rest[i].0,
            #[trigger] rest[j].0,
        ) by {
            assert(table::precedes(pairs[i].0, pairs[j].0));
        }
        lemma_flags(rest);
        lemma_flag_on(pairs[last].1);
        assert forall|i: int| 0 <= i < pairs.len() implies all.dom().contains(
            (#[trigger] pairs[i]).0,
        ) && (all[pairs[i].0] <==> flag_on(pairs[i].1)) by {
            if i < last {
                assert(rest[i] == pairs[i]);
                assert(table::precedes(pairs[i].0, pairs[last].0));
                table::lemma_precedes_irreflexive(pairs[i].0);
            }
        }
        assert forall|k: Seq<char>| #[trigger] all.dom().contains(k) implies table::has_key(
            pairs,
            k,
        ) by {
            if k == pairs[last].0 {
                assert(pairs[last].0 == k);
            } else {
                assert(probe::flags_of(rest).dom().contains(k));
                let j = table::key_index(rest, k);
                assert(pairs[j].0 == k);
            }
        }
    }
}

proof fn lemma_flag_on(value: JsonView)
    ensures
        probe::json_enabled(value) <==> flag_on(value),
{
    if probe::json_enabled(value) && !(value is Bool) {
        let n = probe::json_signed(value)->0;
        assert(spells_number(Some(value), n) && n != 0);
    }
}

/// A stream has the flags of the document, on where the document says so; those that every stream
/// has and the document does not tell are off.
pub proof fn law_probed_flags(raw: RawStreamView, name: Seq<char>)
    requires
        table::is_listed(raw.disposition),
    ensures
        ({
            let flags = probe::stream_of(raw).common().dispositions;
            &&& flags.dom().contains(name) && flags[name] <==> raw.disposition.dom().contains(name)
                && flag_on(raw.disposition[name])
            &&& raw.disposition.dom().contains(name) ==> flags.dom().contains(name)
            &&& name == "default"@ || name == "forced"@ || name == "hearing_impaired"@ || name
                == "original"@ || name == "dub"@ || name == "comment"@ || name == "lyrics"@ || name
                == "karaoke"@ || name == "visual_impaired"@ || name == "clean_effects"@ || name
                == "attached_pic"@ || name == "timed_thumbnails"@ || name == "captions"@ || name
                == "descriptions"@ || name == "metadata"@ || name == "dependent"@ || name
                == "still_image"@ ==> flags.dom().contains(name)
        }),
{
    let pairs = table::listing(raw.disposition);
    lemma_flags(pairs);
    assert(probe::stream_of(raw).common() == probe::common_of(raw));
    if raw.disposition.dom().contains(name) {
        let i = table::key_index(pairs, name);
        assert(pairs[i].0 == name);
        table::lemma_key_index(pairs, i);
    }
    if probe::flags_of(pairs).dom().contains(name) {
        assert(table::has_key(pairs, name));
    }
    let known = stream::known_dispositions();
    assert(known[0] == "default"@ && known[1] == "dub"@ && known[2] == "original"@ && known[3]
        == "comment"@ && known[4] == "lyrics"@ && known[5] == "karaoke"@ && known[6] == "forced"@
        && known[7] == "hearing_impaired"@ && known[8] == "visual_impaired"@ && known[9]
        == "clean_effects"@ && known[10] == "attached_pic"@ && known[11] == "timed_thumbnails"@
        && known[12] == "captions"@ && known[13] == "descriptions"@ && known[14] == "metadata"@
        && known[15] == "dependent"@ && known[16] == "still_image"@);
}

/// Digits behind digits weigh less by a power of ten.
pub proof fn lemma_number_append(a: Seq<char>, b: Seq<char>)
    ensures
        number::number(a + b) == number::number(a) * number::pow10(b.len()) + number::number(b),
    decreases b.len(),
{
    if b.len() == 0 {
        assert(a + b =~= a);
        assert(number::pow10(b.len()) == 1);
        assert(number::number(a) * 1 == number::number(a));
    } else {
        let c = b.drop_last();
        lemma_number_append(a, c);
        assert((a + b).drop_last() =~= a + c);
        assert((a + b).last() == b.last());
        let x = number::number(a);
        let y = number::number(c);
        let p = number::pow10(c.len()) as int;
        assert(c.len() == b.len() - 1);
        assert(number::pow10(b.len()) == 10 * p);
        let q = number::pow10(b.len()) as int;
        let d = number::digit_value(b.last());
        assert(number::number(a + b) == number::number(a + c) * 10 + d);
        assert(number::number(b) == y * 10 + d);
        assert((x * p + y) * 10 + d == x * q + (y * 10 + d)) by (nonlinear_arith)
            requires
                q == 10 * p,
        ;
    }
}

proof fn lemma_zeros(n: nat)
    ensures
        number::number(Seq::new(n, |i: int| '0')) == 0,
        text::all_digits(Seq::new(n, |i: int| '0')),
    decreases n,
{
    let z = Seq::new(n, |i: int| '0');
    if n > 0 {
        lemma_zeros((n - 1) as nat);
        assert(z.drop_last() =~= Seq::new((n - 1) as nat, |i: int| '0'));
    }
}

/// Powers of ten multiply by adding their exponents.
pub proof fn lemma_pow10_add(a: nat, b: nat)
    ensures
        number::pow10(a + b) == number::pow10(a) * number::pow10(b),
        number::pow10(a) > 0,
    decreases a,
{
    if a > 0 {
        lemma_pow10_add((a - 1) as nat, b);
        let p = number::pow10((a - 1) as nat);
        let q = number::pow10(b);
        assert((a - 1) as nat + b == (a + b - 1) as nat);
        assert(number::pow10(a + b) == 10 * number::pow10((a + b - 1) as nat));
        assert(10 * (p * q) == (10 * p) * q) by (nonlinear_arith);
    } else {
        assert(1 * number::pow10(b) == number::pow10(b));
    }
}

/// The first six digits of a fraction are millionths of it, rounded down.
proof fn lemma_millionths(fraction: Seq<char>)
    requires
        text::all_digits(fraction),
    ensures
        text::all_digits(probe::six_digits(fraction)),
        probe::six_digits(fraction).len() == 6,
        ({
            let m = number::number(probe::six_digits(fraction));
            let p = number::pow10(fraction.len());
            &&& 0 <= m < 1_000_000
            &&& p > 0
            &&& m * p <= number::number(fraction) * 1_000_000 < (m + 1) * p
        }),
{
    let six = probe::six_digits(fraction);
    let f = number::number(fraction);
    let p = number::pow10(fraction.len());
    reveal_with_fuel(number::pow10, 7);
    assert(number::pow10(6) == 1_000_000);
    lemma_pow10_add(fraction.len(), 0);
    if fraction.len() < 6 {
        let n = (6 - fraction.len()) as nat;
        lemma_zeros(n);
        let zeros = Seq::new(n, |i: int| '0');
        assert(six =~= fraction + zeros);
        lemma_number_append(fraction, zeros);
        assert forall|i: int| 0 <= i < six.len() implies text::is_digit(#[trigger] six[i]) by {
            if i < fraction.len() {
                assert(text::is_digit(fraction[i]));
            }
        }
        lemma_pow10_add(fraction.len(), n);
        let q = number::pow10(n);
        let m = number::number(six);
        assert(m * p == f * 1_000_000) by (nonlinear_arith)
            requires
                m == f * q,
                p * q == 1_000_000,
        ;
        assert((m + 1) * p == m * p + p) by (nonlinear_arith);
    } else {
        let tail = fraction.skip(6);
        assert(fraction =~= six + tail);
        assert forall|i: int| 0 <= i < six.len() implies text::is_digit(#[trigger] six[i]) by {
            assert(text::is_digit(fraction[i]));
        }
        assert forall|i: int| 0 <= i < tail.len() implies text::is_digit(#[trigger] tail[i]) by {
            assert(text::is_digit(fraction[i + 6]));
        }
        lemma_number_append(six, tail);
        number::lemma_number_bound(tail);
        lemma_pow10_add(6, tail.len());
        let m = number::number(six);
        let q = number::pow10(tail.len());
        let t = number::number(tail);
        assert(fraction.len() == 6 + tail.len());
        assert(p == 1_000_000 * q);
        assert(m * p <= f * 1_000_000 < (m + 1) * p) by (nonlinear_arith)
            requires
                f == m * q + t,
                0 <= t < q,
                p == 1_000_000 * q,
        ;
    }
    number::lemma_number_bound(six);
}

/// A decimal number of seconds is read as microseconds, rounded down to a whole one. A minus in front
/// gives the negative of it where a sign may be, and else is refused.
pub proof fn law_seconds(whole: Seq<char>, fraction: Seq<char>, signed: bool)
    requires
        whole.len() > 0,
        text::all_digits(whole),
        text::all_digits(fraction),
        number::number(whole) * 1_000_000 + 999_999 <= i64::MAX,
    ensures
        ({
            let s = whole.push('.') + fraction;
            let r = probe::decimal_micros(s, signed);
            let scale = number::pow10(fraction.len());
            let exact = number::number(whole) * scale + number::number(fraction);
            &&& r is Some
            &&& r->0 * scale <= exact * 1_000_000 < (r->0 + 1) * scale
            &&& probe::decimal_micros(whole, signed) == Some(number::number(whole) * 1_000_000)
            &&& probe::decimal_micros(seq!['-'] + s, true) == Some(-r->0)
            &&& probe::decimal_micros(seq!['-'] + s, false) is None
            &&& probe::decimal_micros(seq!['+'] + s, signed) == r
        }),
{
    let s = whole.push('.') + fraction;
    let w = number::number(whole);
    number::lemma_number_nonnegative(whole);
    lemma_millionths(fraction);
    lemma_seconds(s, whole, fraction, signed);
    lemma_seconds(seq!['-'] + s, whole, fraction, true);
    lemma_seconds(seq!['-'] + s, whole, fraction, false);
    lemma_seconds(seq!['+'] + s, whole, fraction, signed);
    let m = number::number(probe::six_digits(fraction));
    let p = number::pow10(fraction.len()) as int;
    let f = number::number(fraction);
    let r = w * 1_000_000 + m;
    assert(r * p <= (w * p + f) * 1_000_000 < (r + 1) * p) by (nonlinear_arith)
        requires
            r == w * 1_000_000 + m,
            m * p <= f * 1_000_000 < (m + 1) * p,
    ;
    assert(text::is_digit(whole[0]) && text::is_digit(whole[whole.len() - 1]));
    assert(text::trim(whole) == whole);
    assert(!whole.contains('.')) by {
        if whole.contains('.') {
            let i = choose|i: int| 0 <= i < whole.len() && whole[i] == '.';
            assert(text::is_digit(whole[i]));
        }
    }
    let none = Seq::<char>::empty();
    lemma_millionths(none);
    assert(probe::six_digits(none) =~= Seq::new(6, |i: int| '0'));
    lemma_zeros(6);
    assert(text::is_digit(probe::six_digits(none)[0]));
}

proof fn lemma_seconds(s: Seq<char>, whole: Seq<char>, fraction: Seq<char>, signed: bool)
    requires
        whole.len() > 0,
        text::all_digits(whole),
        text::all_digits(fraction),
        0 <= number::number(whole) * 1_000_000 <= i64::MAX - 999_999,
        s == whole.push('.') + fraction || s == seq!['-'] + (whole.push('.') + fraction) || s
            == seq!['+'] + (whole.push('.') + fraction),
    ensures
        ({
            let n = number::number(whole) * 1_000_000 + number::number(
                probe::six_digits(fraction),
            );
            probe::decimal_micros(s, signed) == if s[0] == '-' {
                if signed {
                    Some(-n)
                } else {
                    None
                }
            } else {
                Some(n)
            }
        }),
{
    let plain = whole.push('.') + fraction;
    lemma_millionths(fraction);
    assert(text::is_digit(whole[0]));
    assert(text::is_digit(probe::six_digits(fraction)[0]));
    assert(!text::is_space(s[0]));
    if fraction.len() > 0 {
        assert(text::is_digit(fraction[fraction.len() - 1]));
        assert(s.last() == fraction.last());
    } else {
        assert(s.last() == '.');
    }
    assert(text::trim(s) == s);
    assert(plain[0] == whole[0]);
    assert(probe::without_sign(s) =~= plain);
    assert(plain[whole.len() as int] == '.');
    assert forall|i: int| 0 <= i < whole.len() implies plain[i] != '.' by {
        assert(text::is_digit(whole[i]));
        assert(plain[i] == whole[i]);
    }
    text::lemma_find_unique(plain, '.', whole.len() as int);
    assert(plain.subrange(0, whole.len() as int) =~= whole);
    assert(plain.subrange(whole.len() as int + 1, plain.len() as int) =~= fraction);
}

proof fn lemma_format_names(pieces: Seq<Seq<char>>, name: Seq<char>)
    ensures
        media::format_names(pieces).contains(name) <==> name.len() > 0 && exists|i: int|
            0 <= i < pieces.len() && text::lower(text::trim(#[trigger] pieces[i])) == name,
    decreases pieces.len(),
{
    if pieces.len() > 0 {
        let rest = pieces.drop_last();
        let last = pieces.len() - 1;
        let all = media::format_names(pieces);
        let fewer = media::format_names(rest);
        lemma_format_names(rest, name);
        assert(pieces[last] == pieces.last());
        if all.contains(name) {
            let k = choose|k: int| 0 <= k < all.len() && all[k] == name;
            if k < fewer.len() {
                assert(fewer[k] == name);
                assert(fewer.contains(name));
                let i = choose|i: int|
                    0 <= i < rest.len() && text::lower(text::trim(#[trigger] rest[i])) == name;
                assert(pieces[i] == rest[i]);
            } else {
                assert(text::lower(text::trim(pieces[last])) == name);
            }
        }
        if name.len() > 0 && exists|i: int|
            0 <= i < pieces.len() && text::lower(text::trim(#[trigger] pieces[i])) == name {
            let i = choose|i: int|
                0 <= i < pieces.len() && text::lower(text::trim(#[trigger] pieces[i])) == name;
            if i < last {
                assert(rest[i] == pieces[i]);
                assert(fewer.contains(name));
                let k = choose|k: int| 0 <= k < fewer.len() && fewer[k] == name;
                assert(all[k] == name);
            } else {
                assert(all[all.len() - 1] == name);
            }
        }
    }
}

/// The names of the container are the pieces of its name between commas, without white space around
/// them and in lowercase; blank pieces are none. Its bitrate is told where it is a number above
/// zero.
pub proof fn law_container_names(raw: RawFormatView, name: Seq<char>)
    requires
        probe::format_fault(Some(raw)) is None,
    ensures
        ({
            let f = probe::format_of(raw);
            &&& f.names.len() > 0
            &&& f.names.contains(name) <==> name.len() > 0 && exists|i: int|
                0 <= i < text::split(raw.format_name->0, ',').len() && text::lower(
                    text::trim(#[trigger] text::split(raw.format_name->0, ',')[i]),
                ) == name
            &&& f.metadata == probe::metadata_of(raw.tags)
            &&& forall|n: u64| #[trigger]
                spells_count(raw.bit_rate, n as int) && n > 0 ==> f.bitrate == Some(n)
            &&& f.bitrate is Some ==> spells_count(raw.bit_rate, f.bitrate->0 as int)
                && f.bitrate->0 > 0
        }),
{
    lemma_format_names(text::split(raw.format_name->0, ','), name);
    if probe::format_of(raw).bitrate is Some {
        lemma_count_range(raw.bit_rate, probe::json_unsigned(raw.bit_rate->0)->0);
    }
}

/// The text of a value that may be a number of seconds, where it is not told as unknown.
pub open spec fn seconds_text(value: Option<JsonView>) -> Option<Seq<char>> {
    match value {
        Some(JsonView::Number(t)) => Some(t),
        Some(JsonView::Text(t)) => if t.len() == 0 || (t.len() == 3 && (t[0] == 'n' || t[0] == 'N')
            && t[1] == '/' && (t[2] == 'a' || t[2] == 'A')) {
            None
        } else {
            Some(t)
        },
        _ => None,
    }
}

proof fn lemma_not_available(t: Seq<char>)
    ensures
        text::lower(t) == "n/a"@ <==> t.len() == 3 && (t[0] == 'n' || t[0] == 'N') && t[1] == '/'
            && (t[2] == 'a' || t[2] == 'A'),
{
    reveal_strlit("n/a");
    let low = text::lower(t);
    if low == "n/a"@ {
        assert(low.len() == 3);
        assert(low[0] == 'n' && low[1] == '/' && low[2] == 'a');
    }
    if t.len() == 3 && (t[0] == 'n' || t[0] == 'N') && t[1] == '/' && (t[2] == 'a' || t[2]
        == 'A') {
        assert(low =~= "n/a"@);
    }
}

/// The duration and the start of the container are the microseconds of their decimal seconds; they
/// are absent where the document does not tell them, and text that is no number of seconds makes the
/// document invalid.
pub proof fn law_container_times(raw: RawFormatView)
    requires
        probe::format_fault(Some(raw)) is None,
    ensures
        ({
            let f = probe::format_of(raw);
            &&& seconds_text(raw.duration) is None <==> f.duration is None
            &&& seconds_text(raw.duration) matches Some(t) ==> (probe::decimal_micros(t, false)
                matches Some(n) && (n >= 0 ==> f.duration->0 == n))
            &&& seconds_text(raw.start_time) is None <==> f.start_time is None
            &&& seconds_text(raw.start_time) matches Some(t) ==> (probe::decimal_micros(t, true)
                matches Some(n) && f.start_time->0 == n)
        }),
{
    if raw.duration is Some && raw.duration->0 is Text {
        lemma_not_available(raw.duration->0->Text_0);
    }
    if raw.start_time is Some && raw.start_time->0 is Text {
        lemma_not_available(raw.start_time->0->Text_0);
    }
    if seconds_text(raw.duration) is Some {
        probe::lemma_decimal_in_range(seconds_text(raw.duration)->0, false);
    }
    if seconds_text(raw.start_time) is Some {
        probe::lemma_decimal_in_range(seconds_text(raw.start_time)->0, true);
    }
}

/// A chapter has the number, the range of ticks and the time base that the document gives, and never
/// ends before it starts.
pub proof fn law_chapter_facts(raw: RawChapterView)
    requires
        probe::chapter_fault(raw) is None,
    ensures
        ({
            let c = probe::chapter_of(raw);
            &&& spells_number(raw.id, c.id as int)
            &&& spells_number(raw.start, c.start as int)
            &&& spells_number(raw.end, c.end as int)
            &&& c.start <= c.end
            &&& raw.time_base is Some
            &&& probe::time_base_of(raw.time_base->0, "chapters[].time_base"@, None)
                == Ok::<TimeBaseView, ProbeErrorView>(c.time_base)
            &&& c.metadata == probe::metadata_of(raw.tags)
        }),
{
    lemma_number_range(raw.id, probe::json_signed(raw.id->0)->0);
    lemma_number_range(raw.start, probe::json_signed(raw.start->0)->0);
    lemma_number_range(raw.end, probe::json_signed(raw.end->0)->0);
}

proof fn lemma_streams_valid(raw: Seq<RawStreamView>)
    ensures
        probe::streams_fault(raw) is None <==> forall|i: int|
            0 <= i < raw.len() ==> probe::stream_fault(#[trigger] raw[i]) is None,
    decreases raw.len(),
{
    if raw.len() > 0 {
        let rest = raw.drop_last();
        lemma_streams_valid(rest);
        assert(raw[raw.len() - 1] == raw.last());
        if probe::streams_fault(raw) is None {
            assert forall|i: int| 0 <= i < raw.len() implies probe::stream_fault(
                #[trigger] raw[i],
            ) is None by {
                if i < rest.len() {
                    assert(rest[i] == raw[i]);
                }
            }
        } else if probe::streams_fault(rest) is Some {
            let i = choose|i: int|
                0 <= i < rest.len() && probe::stream_fault(#[trigger] rest[i]) is Some;
            assert(raw[i] == rest[i]);
        }
    }
}

proof fn lemma_chapters_valid(raw: Seq<RawChapterView>)
    ensures
        probe::chapters_fault(raw) is None <==> forall|i: int|
            0 <= i < raw.len() ==> probe::chapter_fault(#[trigger] raw[i]) is None,
    decreases raw.len(),
{
    if raw.len() > 0 {
        let rest = raw.drop_last();
        lemma_chapters_valid(rest);
        assert(raw[raw.len() - 1] == raw.last());
        if probe::chapters_fault(raw) is None {
            assert forall|i: int| 0 <= i < raw.len() implies probe::chapter_fault(
                #[trigger] raw[i],
            ) is None by {
                if i < rest.len() {
                    assert(rest[i] == raw[i]);
                }
            }
        } else if probe::chapters_fault(rest) is Some {
            let i = choose|i: int|
                0 <= i < rest.len() && probe::chapter_fault(#[trigger] rest[i]) is Some;
            assert(raw[i] == rest[i]);
        }
    }
}

/// A document describes media exactly where its container, every stream and every chapter are valid,
/// there is a stream, and no two streams have one index.
pub proof fn law_valid_documents(document: RawDocumentView)
    ensures
        probe::document_fault(document) is None <==> {
            &&& probe::format_fault(document.format) is None
            &&& document.streams.len() > 0
            &&& forall|i: int|
                0 <= i < document.streams.len() ==> probe::stream_fault(
                    #[trigger] document.streams[i],
                ) is None
            &&& forall|i: int|
                0 <= i < document.chapters.len() ==> probe::chapter_fault(
                    #[trigger] document.chapters[i],
                ) is None
            &&& forall|i: int, j: int|
                0 <= i < j < document.streams.len() ==> (#[trigger] document.streams[i]).index
                    != (#[trigger] document.streams[j]).index
        },
{
    lemma_streams_valid(document.streams);
    lemma_chapters_valid(document.chapters);
    let all = probe::streams_of(document.streams);
    media::lemma_first_repeat(all);
    if probe::streams_fault(document.streams) is None {
        assert forall|i: int| 0 <= i < all.len() implies Some((#[trigger] all[i]).index())
            == document.streams[i].index by {
            assert(probe::stream_fault(document.streams[i]) is None);
            assert(all[i] == probe::stream_of(document.streams[i]));
            assert(all[i].common() == probe::common_of(document.streams[i]));
        }
        if media::indices_distinct(all) {
            assert forall|i: int, j: int| 0 <= i < j < document.streams.len() implies (
            #[trigger] document.streams[i]).index != (#[trigger] document.streams[j]).index by {
                assert(all[i].index() != all[j].index());
            }
        } else {
            let (i, j) = choose|i: int, j: int|
                0 <= i < j < all.len() && #[trigger] all[i].index() == #[trigger] all[j].index();
            assert(document.streams[i].index == document.streams[j].index);
        }
    }
}

/// The media of a document has the path of the file and the streams and the chapters of the document,
/// all of them, in their order.
pub proof fn law_document_in_order(path: Seq<u8>, document: RawDocumentView)
    ensures
        ({
            let m = probe::media_of(path, document);
            &&& m.path == path
            &&& m.format == probe::format_of(document.format->0)
            &&& m.streams.len() == document.streams.len()
            &&& forall|i: int|
                0 <= i < m.streams.len() ==> #[trigger] m.streams[i] == probe::stream_of(
                    document.streams[i],
                )
            &&& m.chapters.len() == document.chapters.len()
            &&& forall|i: int|
                0 <= i < m.chapters.len() ==> #[trigger] m.chapters[i] == probe::chapter_of(
                    document.chapters[i],
                )
        }),
{
}

/// A stream without codec name, and a bitrate, first tick, number of ticks or sample rate that is
/// there and cannot be used, is told as a warning.
pub proof fn law_stream_warnings(raw: RawStreamView)
    requires
        raw.index is Some,
    ensures
        ({
            let w = probe::stream_warnings(raw);
            let named = raw.codec_name is Some && text::trim(raw.codec_name->0).len() > 0;
            let usable = |value: Option<JsonView>| exists|n: int| #[trigger]
                spells_count(value, n) && n > 0;
            let whole = |value: Option<JsonView>| exists|n: int| #[trigger] spells_number(value, n);
            &&& !named ==> w.contains(
                ProbeWarningView::MissingCodecName { stream: raw.index->0 },
            )
            &&& raw.bit_rate is Some && !usable(raw.bit_rate) ==> w.contains(
                ProbeWarningView::InvalidOptionalNumber {
                    field: "streams[].bit_rate"@,
                    stream: raw.index,
                },
            )
            &&& raw.start_pts is Some && !whole(raw.start_pts) ==> w.contains(
                ProbeWarningView::InvalidOptionalNumber {
                    field: "streams[].start_pts"@,
                    stream: raw.index,
                },
            )
            &&& raw.duration_ts is Some && !whole(raw.duration_ts) ==> w.contains(
                ProbeWarningView::InvalidOptionalNumber {
                    field: "streams[].duration_ts"@,
                    stream: raw.index,
                },
            )
            &&& raw.codec_type == Some("audio"@) && raw.sample_rate is Some && !usable(
                raw.sample_rate,
            ) ==> w.contains(
                ProbeWarningView::InvalidOptionalNumber {
                    field: "streams[].sample_rate"@,
                    stream: raw.index,
                },
            )
            &&& named && (raw.bit_rate is None || usable(raw.bit_rate)) && (raw.start_pts is None
                || whole(raw.start_pts)) && (raw.duration_ts is None || whole(raw.duration_ts)) && (
            raw.sample_rate is None || usable(raw.sample_rate)) ==> w == probe::metadata_warnings(
                raw.tags,
                raw.index,
            )
        }),
{
    let w = probe::stream_warnings(raw);
    let a = probe::codec_warnings(raw);
    let b = probe::signed_reading(raw.start_pts).warning("streams[].start_pts"@, raw.index);
    let c = probe::signed_reading(raw.duration_ts).warning("streams[].duration_ts"@, raw.index);
    let d = probe::metadata_warnings(raw.tags, raw.index);
    let e = if raw.codec_type == Some("audio"@) {
        probe::unsigned_reading(raw.sample_rate).warning("streams[].sample_rate"@, raw.index)
    } else {
        seq![]
    };
    assert(w == a + b + c + d + e);
    lemma_readings(raw.bit_rate);
    lemma_readings(raw.sample_rate);
    lemma_readings(raw.start_pts);
    lemma_readings(raw.duration_ts);
    if a.len() > 0 {
        assert(w[0] == a[0]);
        assert(w[a.len() - 1] == a[a.len() - 1]);
    }
    if b.len() > 0 {
        assert(w[a.len() as int] == b[0]);
    }
    if c.len() > 0 {
        assert(w[(a.len() + b.len()) as int] == c[0]);
    }
    if e.len() > 0 {
        assert(w[w.len() - 1] == e[0]);
    }
    if a.len() == 0 && b.len() == 0 && c.len() == 0 && e.len() == 0 {
        assert(w =~= d);
    }
}

proof fn lemma_readings(value: Option<JsonView>)
    ensures
        probe::unsigned_reading(value) is Unusable <==> value is Some && !(exists|n: int| #[trigger]
            spells_count(value, n) && n > 0),
        probe::signed_reading(value) is Unusable <==> value is Some && !(exists|n: int| #[trigger]
            spells_number(value, n)),
{
    if value is Some {
        if probe::json_unsigned(value->0) is Some {
            let n = probe::json_unsigned(value->0)->0;
            assert(spells_count(value, n));
            lemma_count_range(value, n);
        }
        if probe::json_signed(value->0) is Some {
            assert(spells_number(value, probe::json_signed(value->0)->0));
        }
    }
}

/// A file is inspected for its streams, its container and its chapters, as JSON; only errors are
/// told, and the file is the last argument.
pub proof fn law_inspection_arguments(path: Seq<u8>)
    ensures
        ({
            let a = probe::inspection_arguments(path);
            &&& a.last() == ArgumentView::Path(path)
            &&& a.contains(ArgumentView::Text("-show_streams"@))
            &&& a.contains(ArgumentView::Text("-show_format"@))
            &&& a.contains(ArgumentView::Text("-show_chapters"@))
            &&& exists|i: int|
                0 <= i < a.len() - 2 && #[trigger] a[i] == ArgumentView::Text("-of"@) && a[i + 1]
                    == ArgumentView::Text("json"@)
            &&& exists|i: int|
                0 <= i < a.len() - 2 && #[trigger] a[i] == ArgumentView::Text("-v"@) && a[i + 1]
                    == ArgumentView::Text("error"@)
            &&& a.len() == 8
        }),
{
    let a = probe::inspection_arguments(path);
    assert(a[0] == ArgumentView::Text("-v"@));
    assert(a[2] == ArgumentView::Text("-of"@));
    assert(a[4] == ArgumentView::Text("-show_streams"@));
    assert(a[5] == ArgumentView::Text("-show_format"@));
    assert(a[6] == ArgumentView::Text("-show_chapters"@));
}

} // verus!
