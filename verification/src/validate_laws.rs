//! What holds of an output in which no mismatch was found.
use vstd::prelude::*;

use crate::media;
use crate::media::{ChapterView, MediaInfoView};
use crate::model::{MetadataView, StreamTimingView, TimeBaseView};
use crate::plan::{
    ExpectedCodecView, ExpectedStreamView, JobPlanView, KindView, OperationView, PlanningView,
};
use crate::plan_laws;
use crate::stream::{DispositionsView, StreamInfoView};
use crate::table;
use crate::text;
use crate::validate;

verus! {

/// Whether two characters are the same but for ASCII case.
pub open spec fn same_letter(a: char, b: char) -> bool {
    ||| a == b
    ||| 'A' <= a <= 'Z' && b as int == a as int + 32
    ||| 'A' <= b <= 'Z' && a as int == b as int + 32
}

/// Whether two texts are the same but for ASCII case.
pub open spec fn same_word(a: Seq<char>, b: Seq<char>) -> bool {
    a.len() == b.len() && forall|i: int|
        0 <= i < a.len() ==> same_letter(#[trigger] a[i], #[trigger] b[i])
}

/// Texts are the same but for ASCII case exactly where they are the same in lowercase.
pub proof fn lemma_same_word(a: Seq<char>, b: Seq<char>)
    ensures
        same_word(a, b) <==> text::lower(a) == text::lower(b),
{
    if same_word(a, b) {
        assert forall|i: int| 0 <= i < a.len() implies text::lower(a)[i] == text::lower(b)[i] by {
            assert(same_letter(a[i], b[i]));
        }
        assert(text::lower(a) =~= text::lower(b));
    }
    if text::lower(a) == text::lower(b) {
        assert(text::lower(a).len() == text::lower(b).len());
        assert forall|i: int| 0 <= i < a.len() implies same_letter(
            #[trigger] a[i],
            #[trigger] b[i],
        ) by {
            assert(text::lower(a)[i] == text::lower(b)[i]);
        }
    }
}

/// Texts are the same but for ASCII case exactly where they are the same in capitals.
proof fn lemma_same_capitals(a: Seq<char>, b: Seq<char>)
    requires
        forall|i: int| 0 <= i < b.len() ==> !('a' <= #[trigger] b[i] <= 'z'),
    ensures
        same_word(a, b) <==> text::upper(a) == b,
{
    if same_word(a, b) {
        assert forall|i: int| 0 <= i < a.len() implies text::upper(a)[i] == b[i] by {
            assert(same_letter(a[i], b[i]));
            assert(!('a' <= b[i] <= 'z'));
        }
        assert(text::upper(a) =~= b);
    }
    if text::upper(a) == b {
        assert forall|i: int| 0 <= i < a.len() implies same_letter(
            #[trigger] a[i],
            #[trigger] b[i],
        ) by {
            assert(text::upper(a)[i] == b[i]);
        }
    }
}

/// Whether a muxer writes a metadata entry anew, so that it need not be kept.
pub open spec fn rewritten(key: Seq<char>) -> bool {
    ||| same_word(key, "DURATION"@)
    ||| same_word(key, "ENCODER"@)
    ||| same_word(key, "BPS"@)
    ||| same_word(key, "NUMBER_OF_FRAMES"@)
    ||| same_word(key, "NUMBER_OF_BYTES"@)
    ||| key.len() >= 12 && same_word(key.take(12), "_STATISTICS_"@)
}

/// Exactly these entries need not be kept.
pub proof fn law_rewritten_metadata(key: Seq<char>)
    ensures
        validate::is_volatile(key) <==> rewritten(key),
{
    reveal_strlit("DURATION");
    reveal_strlit("ENCODER");
    reveal_strlit("BPS");
    reveal_strlit("NUMBER_OF_FRAMES");
    reveal_strlit("NUMBER_OF_BYTES");
    reveal_strlit("_STATISTICS_");
    lemma_same_capitals(key, "DURATION"@);
    lemma_same_capitals(key, "ENCODER"@);
    lemma_same_capitals(key, "BPS"@);
    lemma_same_capitals(key, "NUMBER_OF_FRAMES"@);
    lemma_same_capitals(key, "NUMBER_OF_BYTES"@);
    if key.len() >= 12 {
        lemma_same_capitals(key.take(12), "_STATISTICS_"@);
        assert(text::upper(key.take(12)) =~= text::upper(key).subrange(0, 12));
    }
}

/// Whether metadata has a value under a key, in any ASCII case; of several such keys the first in
/// ascending order counts.
pub open spec fn tells(found: MetadataView, key: Seq<char>, value: Seq<char>) -> bool {
    exists|k: Seq<char>| #[trigger]
        found.dom().contains(k) && same_word(k, key) && found[k] == value && forall|other: Seq<char>|
         #[trigger]
            found.dom().contains(other) && same_word(other, key) && other != k ==> table::precedes(
                k,
                other,
            )
}

/// Whether metadata keeps every promised entry that a muxer does not write anew.
pub open spec fn metadata_kept(wanted: MetadataView, found: MetadataView) -> bool {
    forall|key: Seq<char>| #[trigger]
        wanted.dom().contains(key) && !rewritten(key) ==> tells(found, key, wanted[key])
}

proof fn lemma_found(pairs: Seq<(Seq<char>, Seq<char>)>, key: Seq<char>)
    ensures
        match validate::find_value(pairs, key) {
            Some(value) => exists|i: int|
                0 <= i < pairs.len() && same_word(#[trigger] pairs[i].0, key) && pairs[i].1 == value
                    && forall|j: int| 0 <= j < i ==> !same_word(#[trigger] pairs[j].0, key),
            None => forall|i: int| 0 <= i < pairs.len() ==> !same_word(#[trigger] pairs[i].0, key),
        },
    decreases pairs.len(),
{
    if pairs.len() > 0 {
        lemma_same_word(pairs[0].0, key);
        let rest = pairs.drop_first();
        if !same_word(pairs[0].0, key) {
            lemma_found(rest, key);
            match validate::find_value(rest, key) {
                Some(value) => {
                    let i = choose|i: int|
                        0 <= i < rest.len() && same_word(#[trigger] rest[i].0, key) && rest[i].1
                            == value && forall|j: int|
                            0 <= j < i ==> !same_word(#[trigger] rest[j].0, key);
                    assert(pairs[i + 1] == rest[i]);
                    assert forall|j: int| 0 <= j < i + 1 implies !same_word(
                        #[trigger] pairs[j].0,
                        key,
                    ) by {
                        if j > 0 {
                            assert(rest[j - 1] == pairs[j]);
                        }
                    }
                    assert(same_word(pairs[i + 1].0, key));
                },
                None => {
                    assert forall|i: int| 0 <= i < pairs.len() implies !same_word(
                        #[trigger] pairs[i].0,
                        key,
                    ) by {
                        if i > 0 {
                            assert(rest[i - 1] == pairs[i]);
                        }
                    }
                },
            }
        } else {
            assert(same_word(pairs[0].0, key));
        }
    }
}

proof fn lemma_tells(found: MetadataView, key: Seq<char>, value: Seq<char>)
    requires
        table::is_listed(found),
    ensures
        tells(found, key, value) <==> validate::find_value(table::listing(found), key) == Some(
            value,
        ),
{
    let pairs = table::listing(found);
    lemma_found(pairs, key);
    if validate::find_value(pairs, key) == Some(value) {
        let i = choose|i: int|
            0 <= i < pairs.len() && same_word(#[trigger] pairs[i].0, key) && pairs[i].1 == value
                && forall|j: int| 0 <= j < i ==> !same_word(#[trigger] pairs[j].0, key);
        table::lemma_key_index(pairs, i);
        let k = pairs[i].0;
        assert forall|other: Seq<char>| #[trigger]
            found.dom().contains(other) && same_word(other, key) && other != k implies table::precedes(
        k, other) by {
            let j = table::key_index(pairs, other);
            assert(pairs[j].0 == other);
            assert(i < j);
        }
        assert(found.dom().contains(k));
    }
    if tells(found, key, value) {
        let k = choose|k: Seq<char>| #[trigger]
            found.dom().contains(k) && same_word(k, key) && found[k] == value && forall|
                other: Seq<char>,
            | #[trigger]
                found.dom().contains(other) && same_word(other, key) && other != k
                    ==> table::precedes(k, other);
        let at = table::key_index(pairs, k);
        assert(pairs[at].0 == k);
        table::lemma_key_index(pairs, at);
        assert(validate::find_value(pairs, key) is Some);
        let i = choose|i: int|
            0 <= i < pairs.len() && same_word(#[trigger] pairs[i].0, key) && pairs[i].1
                == validate::find_value(pairs, key)->0 && forall|j: int|
                0 <= j < i ==> !same_word(#[trigger] pairs[j].0, key);
        table::lemma_key_index(pairs, i);
        if i != at {
            assert(found.dom().contains(pairs[i].0));
            if i < at {
                assert(table::precedes(pairs[i].0, pairs[at].0));
                table::lemma_precedes_transitive(k, pairs[i].0, k);
                table::lemma_precedes_irreflexive(k);
            }
        }
    }
}

proof fn lemma_entries(
    location: Seq<char>,
    wanted: Seq<(Seq<char>, Seq<char>)>,
    found: Seq<(Seq<char>, Seq<char>)>,
)
    ensures
        validate::entries_mismatches(location, wanted, found).len() == 0 <==> forall|i: int|
            0 <= i < wanted.len() ==> (#[trigger] validate::entry_mismatch(
                location,
                wanted[i],
                found,
            )).len() == 0,
    decreases wanted.len(),
{
    if wanted.len() > 0 {
        let rest = wanted.drop_last();
        lemma_entries(location, rest, found);
        let last = wanted.len() - 1;
        assert(wanted[last] == wanted.last());
        assert forall|i: int| 0 <= i < rest.len() implies rest[i] == wanted[i] by {}
        if validate::entries_mismatches(location, wanted, found).len() == 0 {
            assert forall|i: int| 0 <= i < wanted.len() implies (
            #[trigger] validate::entry_mismatch(location, wanted[i], found)).len() == 0 by {
                if i < rest.len() {
                    assert(validate::entry_mismatch(location, rest[i], found).len() == 0);
                }
            }
        } else if forall|i: int|
            0 <= i < wanted.len() ==> (#[trigger] validate::entry_mismatch(
                location,
                wanted[i],
                found,
            )).len() == 0 {
            assert(validate::entry_mismatch(location, wanted[last], found).len() == 0);
            assert forall|i: int| 0 <= i < rest.len() implies (#[trigger] validate::entry_mismatch(
                location,
                rest[i],
                found,
            )).len() == 0 by {
                assert(validate::entry_mismatch(location, wanted[i], found).len() == 0);
            }
        }
    }
}

/// No metadata mismatch is found exactly where every promised entry is kept.
pub proof fn law_metadata_is_compared(
    location: Seq<char>,
    wanted: MetadataView,
    found: MetadataView,
)
    requires
        table::is_listed(wanted),
        table::is_listed(found),
    ensures
        validate::metadata_mismatches(location, wanted, found).len() == 0 <==> metadata_kept(
            wanted,
            found,
        ),
{
    let pairs = table::listing(wanted);
    let have = table::listing(found);
    lemma_entries(location, pairs, have);
    assert forall|i: int| 0 <= i < pairs.len() implies ((#[trigger] validate::entry_mismatch(
        location,
        pairs[i],
        have,
    )).len() == 0 <==> rewritten(pairs[i].0) || tells(found, pairs[i].0, pairs[i].1)) by {
        law_rewritten_metadata(pairs[i].0);
        lemma_tells(found, pairs[i].0, pairs[i].1);
    }
    if validate::metadata_mismatches(location, wanted, found).len() == 0 {
        assert forall|key: Seq<char>| #[trigger]
            wanted.dom().contains(key) && !rewritten(key) implies tells(found, key, wanted[key]) by {
            let i = table::key_index(pairs, key);
            assert(pairs[i].0 == key);
            table::lemma_key_index(pairs, i);
            assert(validate::entry_mismatch(location, pairs[i], have).len() == 0);
        }
    }
    if metadata_kept(wanted, found) {
        assert forall|i: int| 0 <= i < pairs.len() implies (#[trigger] validate::entry_mismatch(
            location,
            pairs[i],
            have,
        )).len() == 0 by {
            table::lemma_key_index(pairs, i);
            assert(wanted.dom().contains(pairs[i].0));
        }
    }
}

/// Whether a disposition flag is on.
pub open spec fn is_on(flags: DispositionsView, name: Seq<char>) -> bool {
    flags.dom().contains(name) && flags[name]
}

/// Whether the same disposition flags are on.
pub open spec fn same_flags(a: DispositionsView, b: DispositionsView) -> bool {
    forall|name: Seq<char>| is_on(a, name) <==> is_on(b, name)
}

/// The names with nothing beside them.
spec fn bare(names: Seq<Seq<char>>) -> Seq<(Seq<char>, ())> {
    Seq::new(names.len(), |i: int| (names[i], ()))
}

proof fn lemma_enabled(pairs: Seq<(Seq<char>, bool)>)
    requires
        table::ascending(pairs),
    ensures
        table::ascending(bare(validate::enabled_in(pairs))),
        forall|name: Seq<char>| #[trigger]
            validate::enabled_in(pairs).contains(name) <==> table::has_pair(pairs, (name, true)),
    decreases pairs.len(),
{
    let names = validate::enabled_in(pairs);
    if pairs.len() > 0 {
        let rest = pairs.drop_last();
        let fewer = validate::enabled_in(rest);
        let last = pairs.len() - 1;
        assert forall|i: int, j: int| 0 <= i < j < rest.len() implies table::precedes(
            #[trigger] rest[i].0,
            #[trigger] rest[j].0,
        ) by {
            assert(table::precedes(pairs[i].0, pairs[j].0));
        }
        lemma_enabled(rest);
        assert forall|name: Seq<char>| #[trigger] names.contains(name) <==> table::has_pair(
            pairs,
            (name, true),
        ) by {
            if names.contains(name) {
                let k = choose|k: int| 0 <= k < names.len() && names[k] == name;
                if k < fewer.len() {
                    assert(fewer[k] == name);
                    assert(fewer.contains(name));
                    let j = choose|j: int| 0 <= j < rest.len() && #[trigger] rest[j] == (name, true);
                    assert(pairs[j] == (name, true));
                } else {
                    assert(pairs[last] == (name, true));
                }
            }
            if table::has_pair(pairs, (name, true)) {
                let j = choose|j: int| 0 <= j < pairs.len() && #[trigger] pairs[j] == (name, true);
                if j < last {
                    assert(rest[j] == (name, true));
                    assert(fewer.contains(name));
                    let k = choose|k: int| 0 <= k < fewer.len() && fewer[k] == name;
                    assert(names[k] == name);
                } else {
                    assert(names[names.len() - 1] == name);
                }
            }
        }
        assert forall|i: int, j: int| 0 <= i < j < bare(names).len() implies table::precedes(
            #[trigger] bare(names)[i].0,
            #[trigger] bare(names)[j].0,
        ) by {
            if j < fewer.len() {
                assert(bare(fewer)[i].0 == names[i] && bare(fewer)[j].0 == names[j]);
            } else {
                assert(names[j] == pairs[last].0);
                assert(fewer[i] == names[i]);
                assert(fewer.contains(names[i]));
                let k = choose|k: int|
                    0 <= k < rest.len() && #[trigger] rest[k] == (names[i], true);
                assert(table::precedes(pairs[k].0, pairs[last].0));
            }
        }
    }
}

/// The names of the flags that are on are listed.
pub proof fn lemma_on(flags: DispositionsView, name: Seq<char>)
    requires
        table::is_listed(flags),
    ensures
        is_on(flags, name) <==> validate::enabled(flags).contains(name),
{
    let pairs = table::listing(flags);
    lemma_enabled(pairs);
    if is_on(flags, name) {
        let i = table::key_index(pairs, name);
        assert(pairs[i].0 == name);
        table::lemma_key_index(pairs, i);
        assert(pairs[i] == (name, true));
    }
    if table::has_pair(pairs, (name, true)) {
        let i = choose|i: int| 0 <= i < pairs.len() && #[trigger] pairs[i] == (name, true);
        table::lemma_key_index(pairs, i);
    }
}

/// No disposition mismatch is found exactly where the same flags are on.
pub proof fn law_flags_are_compared(
    prefix: Seq<char>,
    wanted: DispositionsView,
    found: DispositionsView,
)
    requires
        table::is_listed(wanted),
        table::is_listed(found),
    ensures
        validate::disposition_mismatches(prefix, wanted, found).len() == 0 <==> same_flags(
            wanted,
            found,
        ),
{
    let a = validate::enabled(wanted);
    let b = validate::enabled(found);
    assert forall|name: Seq<char>| (is_on(wanted, name) <==> a.contains(name)) && (is_on(
        found,
        name,
    ) <==> b.contains(name)) by {
        lemma_on(wanted, name);
        lemma_on(found, name);
    }
    if same_flags(wanted, found) {
        lemma_enabled(table::listing(wanted));
        lemma_enabled(table::listing(found));
        let x = bare(a);
        let y = bare(b);
        assert forall|name: Seq<char>| table::has_key(x, name) <==> table::has_key(y, name) by {
            assert(is_on(wanted, name) <==> is_on(found, name));
            if table::has_key(x, name) {
                let i = table::key_index(x, name);
                assert(a[i] == name);
                assert(b.contains(name));
                let j = choose|j: int| 0 <= j < b.len() && b[j] == name;
                assert(y[j].0 == name);
            }
            if table::has_key(y, name) {
                let i = table::key_index(y, name);
                assert(b[i] == name);
                assert(a.contains(name));
                let j = choose|j: int| 0 <= j < a.len() && a[j] == name;
                assert(x[j].0 == name);
            }
        }
        assert(table::to_map(x) =~= table::to_map(y));
        table::law_order_is_determined(x, y);
        assert(a =~= b) by {
            assert(x.len() == y.len());
            assert forall|i: int| 0 <= i < a.len() implies a[i] == b[i] by {
                assert(x[i].0 == y[i].0);
            }
        }
    }
}

/// How far apart two tick counts are in time, multiplied by the denominators of both time bases.
pub open spec fn apart(a: i64, a_base: TimeBaseView, b: i64, b_base: TimeBaseView) -> int {
    let x = a * a_base.numerator * b_base.denominator;
    let y = b * b_base.numerator * a_base.denominator;
    if x < y {
        y - x
    } else {
        x - y
    }
}

/// Whether a time of a copied stream is at most one tick of the output away from the promised one.
pub open spec fn within_a_tick(
    wanted: i64,
    wanted_base: TimeBaseView,
    found: i64,
    found_base: TimeBaseView,
) -> bool {
    apart(wanted, wanted_base, found, found_base) <= found_base.numerator * wanted_base.denominator
}

/// Whether a time of an encoded stream is at most so many samples away from the promised one.
pub open spec fn within_a_frame(
    wanted: i64,
    wanted_base: TimeBaseView,
    found: i64,
    found_base: TimeBaseView,
    rate: u32,
    samples: int,
) -> bool {
    apart(wanted, wanted_base, found, found_base) * rate <= samples * (wanted_base.denominator
        * found_base.denominator)
}

/// How long a frame of an encoded codec is.
pub open spec fn frame_of(label: Seq<char>) -> int {
    if label == "AAC"@ {
        1024
    } else {
        1536
    }
}

/// Whether a time of a stream is close enough to the promised one.
pub open spec fn close(
    codec: ExpectedCodecView,
    wanted: i64,
    wanted_base: TimeBaseView,
    found: i64,
    found_base: TimeBaseView,
    actual: StreamInfoView,
) -> bool {
    match codec {
        ExpectedCodecView::Copied(_) => within_a_tick(wanted, wanted_base, found, found_base),
        ExpectedCodecView::Encoded(label) => actual matches StreamInfoView::Audio(audio) && (
        audio.sample_rate matches Some(rate) && within_a_frame(
            wanted,
            wanted_base,
            found,
            found_base,
            rate,
            frame_of(label),
        )),
    }
}

/// Whether start and duration of a stream are as promised: a promised start must be there, and a
/// duration is compared where both files tell start and duration.
pub open spec fn timing_kept(
    codec: ExpectedCodecView,
    wanted: StreamTimingView,
    actual: StreamInfoView,
) -> bool {
    let found = actual.common().timing;
    &&& wanted.start matches Some(w) ==> (found.start matches Some(f) && close(
        codec,
        w.ticks,
        w.time_base,
        f.ticks,
        f.time_base,
        actual,
    ))
    &&& wanted.start is Some && found.start is Some && wanted.duration_ticks is Some
        && found.duration_ticks is Some ==> close(
        codec,
        wanted.duration_ticks->0,
        wanted.start->0.time_base,
        found.duration_ticks->0,
        found.start->0.time_base,
        actual,
    )
}

proof fn lemma_close(
    codec: ExpectedCodecView,
    wanted: i64,
    wanted_base: TimeBaseView,
    found: i64,
    found_base: TimeBaseView,
    actual: StreamInfoView,
)
    ensures
        close(codec, wanted, wanted_base, found, found_base, actual) <==> validate::duration_kept(
            codec,
            wanted,
            wanted_base,
            found,
            found_base,
            validate::rate_of(actual),
        ),
{
    let n = found_base.numerator;
    let d = wanted_base.denominator;
    assert(1u32 * n * d == n * d);
    if codec is Encoded {
        let samples = validate::frame_samples(codec->Encoded_0);
        assert(samples as int == frame_of(codec->Encoded_0));
        assert(d * found_base.denominator * samples == samples * (d * found_base.denominator))
            by (nonlinear_arith);
    }
}

/// No timing mismatch is found exactly where start and duration are as promised.
pub proof fn law_timing_is_compared(
    prefix: Seq<char>,
    codec: ExpectedCodecView,
    wanted: StreamTimingView,
    actual: StreamInfoView,
)
    ensures
        validate::start_mismatches(
            prefix,
            codec,
            wanted,
            actual.common().timing,
            validate::rate_of(actual),
        ).len() == 0 && validate::duration_mismatches(
            prefix,
            codec,
            wanted,
            actual.common().timing,
            validate::rate_of(actual),
        ).len() == 0 <==> timing_kept(codec, wanted, actual),
{
    let found = actual.common().timing;
    if wanted.start is Some && found.start is Some {
        let w = wanted.start->0;
        let f = found.start->0;
        lemma_close(codec, w.ticks, w.time_base, f.ticks, f.time_base, actual);
        if wanted.duration_ticks is Some && found.duration_ticks is Some {
            lemma_close(
                codec,
                wanted.duration_ticks->0,
                w.time_base,
                found.duration_ticks->0,
                f.time_base,
                actual,
            );
        }
    }
}

/// Whether a probed codec name is the promised one: the name of the source for a copied stream, and
/// the name of the target codec for an encoded one.
pub open spec fn codec_as_promised(codec: ExpectedCodecView, name: Seq<char>) -> bool {
    match codec {
        ExpectedCodecView::Copied(source) => source == name,
        ExpectedCodecView::Encoded(label) => {
            ||| label == "AC-3"@ && name == "ac3"@
            ||| label == "E-AC-3"@ && name == "eac3"@
            ||| label == "AAC"@ && name == "aac"@
        },
    }
}

/// Whether a probed stream is of the promised kind.
pub open spec fn kind_as_promised(kind: KindView, actual: StreamInfoView) -> bool {
    match kind {
        KindView::Video => actual is Video,
        KindView::Audio => actual is Audio,
        KindView::Subtitle => actual is Subtitle,
        KindView::Attachment => actual is Attachment,
        KindView::Data => actual is Data,
        KindView::Unknown(name) => actual matches StreamInfoView::Unknown(s) && s.kind == name,
    }
}

/// Whether a probed stream is as promised.
pub open spec fn stream_as_promised(
    wanted: ExpectedStreamView,
    operation: OperationView,
    actual: StreamInfoView,
) -> bool {
    &&& kind_as_promised(wanted.kind, actual)
    &&& codec_as_promised(wanted.codec, actual.common().codec_name)
    &&& operation is EncodeAudio ==> actual is Audio && actual->Audio_0.channels.count
        == operation->output_channels
    &&& metadata_kept(wanted.metadata, actual.common().metadata)
    &&& same_flags(wanted.dispositions, actual.common().dispositions)
    &&& timing_kept(wanted.codec, wanted.timing, actual)
}

proof fn lemma_codec_as_promised(codec: ExpectedCodecView, name: Seq<char>)
    ensures
        validate::codec_kept(codec, name) <==> codec_as_promised(codec, name),
{
    reveal_strlit("AC-3");
    reveal_strlit("E-AC-3");
    reveal_strlit("AAC");
    assert("AC-3"@.len() == 4 && "E-AC-3"@.len() == 6 && "AAC"@.len() == 3);
}

proof fn lemma_stream_as_promised(
    position: int,
    wanted: ExpectedStreamView,
    operation: OperationView,
    actual: StreamInfoView,
)
    requires
        table::is_listed(wanted.metadata),
        table::is_listed(wanted.dispositions),
        table::is_listed(actual.common().metadata),
        table::is_listed(actual.common().dispositions),
    ensures
        validate::stream_mismatches(position, wanted, operation, actual).len() == 0
            <==> stream_as_promised(wanted, operation, actual),
{
    let prefix = validate::stream_prefix(position);
    let common = actual.common();
    lemma_codec_as_promised(wanted.codec, common.codec_name);
    law_metadata_is_compared(prefix + ".metadata"@, wanted.metadata, common.metadata);
    law_flags_are_compared(prefix, wanted.dispositions, common.dispositions);
    law_timing_is_compared(prefix, wanted.codec, wanted.timing, actual);
}

/// Whether a probed chapter is as promised.
pub open spec fn chapter_as_promised(wanted: ChapterView, actual: ChapterView) -> bool {
    &&& apart(wanted.start, wanted.time_base, actual.start, actual.time_base) == 0
    &&& apart(wanted.end, wanted.time_base, actual.end, actual.time_base) == 0
    &&& metadata_kept(wanted.metadata, actual.metadata)
}

/// Whether the entries of every map in a probed file can be listed, as those of every file can.
pub open spec fn media_listed(media: MediaInfoView) -> bool {
    &&& table::is_listed(media.format.metadata)
    &&& forall|i: int|
        0 <= i < media.streams.len() ==> table::is_listed(
            (#[trigger] media.streams[i]).common().metadata,
        ) && table::is_listed(media.streams[i].common().dispositions)
    &&& forall|i: int|
        0 <= i < media.chapters.len() ==> table::is_listed((#[trigger] media.chapters[i]).metadata)
}

/// Whether the entries of every map in what a plan promises can be listed, as those of every plan
/// can.
pub open spec fn plan_listed(job: JobPlanView) -> bool {
    &&& table::is_listed(job.expected.global_metadata)
    &&& forall|i: int|
        0 <= i < job.expected.streams.len() ==> table::is_listed(
            (#[trigger] job.expected.streams[i]).metadata,
        ) && table::is_listed(job.expected.streams[i].dispositions)
    &&& forall|i: int|
        0 <= i < job.expected.chapters.len() ==> table::is_listed(
            (#[trigger] job.expected.chapters[i]).metadata,
        )
}

/// Whether a probed file is what a plan promised.
pub open spec fn as_promised(job: JobPlanView, actual: MediaInfoView) -> bool {
    &&& actual.format.names.contains("matroska"@)
    &&& actual.streams.len() == job.expected.streams.len()
    &&& forall|j: int|
        0 <= j < actual.streams.len() ==> stream_as_promised(
            job.expected.streams[j],
            job.streams[j],
            #[trigger] actual.streams[j],
        )
    &&& metadata_kept(job.expected.global_metadata, actual.format.metadata)
    &&& actual.chapters.len() == job.expected.chapters.len()
    &&& forall|j: int|
        0 <= j < actual.chapters.len() ==> chapter_as_promised(
            job.expected.chapters[j],
            #[trigger] actual.chapters[j],
        )
}

proof fn lemma_streams_up_to(
    wanted: Seq<ExpectedStreamView>,
    operations: Seq<OperationView>,
    actual: Seq<StreamInfoView>,
    n: int,
)
    requires
        0 <= n <= wanted.len(),
        n <= actual.len(),
        forall|i: int|
            0 <= i < wanted.len() ==> table::is_listed((#[trigger] wanted[i]).metadata)
                && table::is_listed(wanted[i].dispositions),
        forall|i: int|
            0 <= i < actual.len() ==> table::is_listed((#[trigger] actual[i]).common().metadata)
                && table::is_listed(actual[i].common().dispositions),
    ensures
        validate::streams_up_to(wanted, operations, actual, n).len() == 0 <==> forall|j: int|
            0 <= j < n ==> stream_as_promised(wanted[j], operations[j], #[trigger] actual[j]),
    decreases n,
{
    if n > 0 {
        lemma_streams_up_to(wanted, operations, actual, n - 1);
        let last = n - 1;
        assert(table::is_listed(wanted[last].metadata));
        assert(table::is_listed(actual[last].common().metadata));
        lemma_stream_as_promised(last, wanted[last], operations[last], actual[last]);
    }
}

proof fn lemma_chapters_up_to(wanted: Seq<ChapterView>, actual: Seq<ChapterView>, n: int)
    requires
        0 <= n <= wanted.len(),
        n <= actual.len(),
        forall|i: int| 0 <= i < wanted.len() ==> table::is_listed((#[trigger] wanted[i]).metadata),
        forall|i: int| 0 <= i < actual.len() ==> table::is_listed((#[trigger] actual[i]).metadata),
    ensures
        validate::chapters_up_to(wanted, actual, n).len() == 0 <==> forall|j: int|
            0 <= j < n ==> chapter_as_promised(wanted[j], #[trigger] actual[j]),
    decreases n,
{
    if n > 0 {
        lemma_chapters_up_to(wanted, actual, n - 1);
        let last = n - 1;
        assert(table::is_listed(wanted[last].metadata));
        assert(table::is_listed(actual[last].metadata));
        law_metadata_is_compared(
            validate::chapter_prefix(last) + ".metadata"@,
            wanted[last].metadata,
            actual[last].metadata,
        );
    }
}

/// No mismatch is found exactly where the output is what the plan promised.
pub proof fn law_no_mismatch_means_as_promised(job: JobPlanView, actual: MediaInfoView)
    requires
        job.expected.streams.len() == job.streams.len(),
        plan_listed(job),
        media_listed(actual),
    ensures
        validate::all_mismatches(job, actual).len() == 0 <==> as_promised(job, actual),
{
    let expected = job.expected;
    let pairs = validate::shorter(
        validate::shorter(expected.streams.len(), job.streams.len()) as nat,
        actual.streams.len(),
    );
    lemma_streams_up_to(expected.streams, job.streams, actual.streams, pairs);
    law_metadata_is_compared(
        "format.metadata"@,
        expected.global_metadata,
        actual.format.metadata,
    );
    lemma_chapters_up_to(
        expected.chapters,
        actual.chapters,
        validate::shorter(expected.chapters.len(), actual.chapters.len()),
    );
}

proof fn lemma_no_stream_mismatch(
    wanted: Seq<ExpectedStreamView>,
    operations: Seq<OperationView>,
    actual: Seq<StreamInfoView>,
    n: int,
    j: int,
)
    requires
        validate::streams_up_to(wanted, operations, actual, n).len() == 0,
        0 <= j < n,
    ensures
        validate::stream_mismatches(j, wanted[j], operations[j], actual[j]).len() == 0,
    decreases n,
{
    if j < n - 1 {
        lemma_no_stream_mismatch(wanted, operations, actual, n - 1, j);
    }
}

/// Where no mismatch is found in the output of a plan, the output has one stream for each planned
/// one. A copied stream is of the codec of its source; an encoded one is audio of the codec of the
/// target with the planned number of channels.
pub proof fn law_validated_codecs(
    media: MediaInfoView,
    policy: PlanningView,
    job: JobPlanView,
    actual: MediaInfoView,
    j: int,
    i: int,
)
    requires
        media::indices_distinct(media.streams),
        plan_laws::plans(media, policy, job),
        validate::all_mismatches(job, actual).len() == 0,
        0 <= j < job.streams.len(),
        0 <= i < media.streams.len(),
        media.streams[i].index() == job.streams[j].source(),
    ensures
        actual.streams.len() == job.streams.len(),
        job.streams[j] is Copy ==> actual.streams[j].common().codec_name
            == media.streams[i].common().codec_name,
        job.streams[j] is EncodeAudio ==> {
            let name = actual.streams[j].common().codec_name;
            &&& policy.target is Ac3 ==> name == "ac3"@
            &&& policy.target is Eac3 ==> name == "eac3"@
            &&& policy.target is Aac ==> name == "aac"@
            &&& actual.streams[j] is Audio
            &&& actual.streams[j]->Audio_0.channels.count == job.streams[j]->output_channels
        },
{
    plan_laws::law_expectations_follow_operations(media, policy, job);
    lemma_no_stream_mismatch(
        job.expected.streams,
        job.streams,
        actual.streams,
        job.streams.len() as int,
        j,
    );
    lemma_codec_as_promised(job.expected.streams[j].codec, actual.streams[j].common().codec_name);
    if job.streams[j] is Copy {
        plan_laws::law_copies_keep_their_facts(media, policy, job, i, j);
    } else {
        plan_laws::law_expected_of_encoded(media, policy, job, j, i);
        reveal_strlit("AC-3");
        reveal_strlit("E-AC-3");
        reveal_strlit("AAC");
        assert("AC-3"@.len() == 4 && "E-AC-3"@.len() == 6 && "AAC"@.len() == 3);
    }
}

} // verus!
