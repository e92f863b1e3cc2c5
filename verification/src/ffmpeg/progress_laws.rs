//! What holds of progress records as they are read.
use vstd::prelude::*;
use vstd::utf8::*;

use crate::backend::{ProgressEvent, ProgressSnapshot};
use crate::ffmpeg::probe_laws;
use crate::ffmpeg::progress;
use crate::ffmpeg::progress::{
    FeedStep, LineStep, ProgressErrorView, ProgressParser, ReaderView,
};
use crate::number;
use crate::text;

verus! {

proof fn lemma_digits_are_plain(s: Seq<char>)
    requires
        text::all_digits(s),
    ensures
        text::lower(s) == s,
        !s.contains('e'),
        !s.contains('.'),
{
    assert forall|i: int| 0 <= i < s.len() implies text::lower(s)[i] == s[i] by {
        assert(text::is_digit(s[i]));
    }
    assert(text::lower(s) =~= s);
    if s.contains('e') {
        let i = choose|i: int| 0 <= i < s.len() && s[i] == 'e';
        assert(text::is_digit(s[i]));
    }
    if s.contains('.') {
        let i = choose|i: int| 0 <= i < s.len() && s[i] == '.';
        assert(text::is_digit(s[i]));
    }
}

/// A speed is a decimal number before an `x`, told in thousandths rounded down. A speed that is not
/// known is `N/A`; anything that does not end in `x` is no speed.
pub proof fn law_speeds(whole: Seq<char>, fraction: Seq<char>)
    requires
        whole.len() > 0,
        text::all_digits(whole),
        text::all_digits(fraction),
        fraction.len() <= 41,
        number::number(whole + fraction) <= u128::MAX,
    ensures
        ({
            let s = whole.push('.') + fraction;
            let r = progress::speed(s.push('x'));
            let scale = number::pow10(fraction.len());
            let exact = number::number(whole) * scale + number::number(fraction);
            &&& r matches Some(Some(milli)) ==> milli * scale <= exact * 1_000 < (milli + 1) * scale
            &&& exact * 1_000 <= u32::MAX * scale ==> r is Some && r->0 is Some
            &&& r is Some ==> r->0 is Some
        }),
{
    let s = whole.push('.') + fraction;
    let value = s.push('x');
    let all = whole + fraction;
    let n = fraction.len();
    reveal_strlit("N/A");
    assert("N/A"@[2] == 'A' && "N/A"@.len() == 3);
    assert(value.last() == 'x');
    assert(value.drop_last() =~= s);
    lemma_digits_are_plain(whole);
    lemma_digits_are_plain(fraction);
    assert(text::lower(s) =~= s) by {
        assert forall|i: int| 0 <= i < s.len() implies text::lower(s)[i] == s[i] by {
            if i < whole.len() {
                assert(text::is_digit(whole[i]));
            } else if i > whole.len() {
                assert(text::is_digit(fraction[i - whole.len() - 1]));
            }
        }
    }
    assert(!s.contains('e')) by {
        if s.contains('e') {
            let i = choose|i: int| 0 <= i < s.len() && s[i] == 'e';
            if i < whole.len() {
                assert(text::is_digit(whole[i]));
            } else if i > whole.len() {
                assert(text::is_digit(fraction[i - whole.len() - 1]));
            }
        }
    }
    assert(s[whole.len() as int] == '.');
    assert forall|i: int| 0 <= i < whole.len() implies s[i] != '.' by {
        assert(text::is_digit(whole[i]));
        assert(s[i] == whole[i]);
    }
    text::lemma_find_unique(s, '.', whole.len() as int);
    assert(s.subrange(0, whole.len() as int) =~= whole);
    assert(s.subrange(whole.len() as int + 1, s.len() as int) =~= fraction);
    let digits = number::number(all);
    probe_laws::lemma_number_append(whole, fraction);
    number::lemma_number_nonnegative(whole);
    number::lemma_number_nonnegative(fraction);
    let scale = number::pow10(n) as int;
    probe_laws::lemma_pow10_add(n, 0);
    assert(digits >= 0) by (nonlinear_arith)
        requires
            digits == number::number(whole) * scale + number::number(fraction),
            number::number(whole) >= 0,
            number::number(fraction) >= 0,
            scale > 0,
    ;
    reveal_with_fuel(number::pow10, 4);
    assert(number::pow10(3) == 1_000);
    assert(progress::thousandths(s) == progress::scaled(digits, 3 - n));
    if n <= 3 {
        let q = number::pow10((3 - n) as nat) as int;
        probe_laws::lemma_pow10_add(n, (3 - n) as nat);
        probe_laws::lemma_pow10_add((3 - n) as nat, 0);
        let m = digits * q;
        assert(m >= 0 && m * scale == digits * 1_000) by (nonlinear_arith)
            requires
                m == digits * q,
                scale * q == 1_000,
                digits >= 0,
                q > 0,
        ;
        assert((m + 1) * scale == m * scale + scale) by (nonlinear_arith);
        if digits * 1_000 <= u32::MAX * scale {
            assert(m <= 0xffff_ffff) by (nonlinear_arith)
                requires
                    m * scale <= 0xffff_ffff * scale,
                    scale > 0,
            ;
        }
    } else {
        let k = (n - 3) as nat;
        let q = number::pow10(k) as int;
        probe_laws::lemma_pow10_add(3, k);
        probe_laws::lemma_pow10_add(k, 0);
        assert(3 + k == n);
        let m = digits / q;
        assert(m * q <= digits < (m + 1) * q) by (nonlinear_arith)
            requires
                q > 0,
                m == digits / q,
        ;
        assert(m >= 0 && m * scale <= digits * 1_000 < (m + 1) * scale) by (nonlinear_arith)
            requires
                m * q <= digits < (m + 1) * q,
                scale == 1_000 * q,
                digits >= 0,
                q > 0,
        ;
        if digits * 1_000 <= u32::MAX * scale {
            assert(m <= 0xffff_ffff) by (nonlinear_arith)
                requires
                    m * scale <= digits * 1_000,
                    digits * 1_000 <= 0xffff_ffff * scale,
                    scale > 0,
            ;
        }
    }
}

/// A speed that is not known is told by `N/A`, and other text without an `x` at its end is no speed.
pub proof fn law_unknown_speeds(value: Seq<char>)
    ensures
        progress::speed(value) == Some(None::<u32>) <==> value == "N/A"@,
        value != "N/A"@ && !(value.len() > 0 && value.last() == 'x') ==> progress::speed(value)
            is None,
{
}

/// Whether a line was taken without a report, so that only the record that is being read changed.
pub open spec fn noted(before: ProgressParser, step: LineStep, record: ProgressSnapshot) -> bool {
    step == LineStep::On(ProgressParser { current: record, ..before }, None)
}

/// Each key sets the value of its name and no other; a value that is no number is a fault that
/// names the key.
pub proof fn law_progress_keys(s: ProgressParser, value: Seq<char>)
    ensures
        ({
            let signed = number::read_signed(value, i64::MIN as int, i64::MAX as int);
            let unsigned = number::read_unsigned(value, u64::MAX as int);
            let absent = value == "N/A"@;
            &&& noted(
                s,
                progress::entry_step(s, "out_time_us"@, value),
                ProgressSnapshot {
                    out_time_us: if absent {
                        None
                    } else {
                        Some(signed->0 as i64)
                    },
                    ..s.current
                },
            ) <==> absent || signed is Some
            &&& noted(
                s,
                progress::entry_step(s, "total_size"@, value),
                ProgressSnapshot {
                    total_size_bytes: if absent {
                        None
                    } else {
                        Some(unsigned->0 as u64)
                    },
                    ..s.current
                },
            ) <==> absent || unsigned is Some
            &&& noted(
                s,
                progress::entry_step(s, "frame"@, value),
                ProgressSnapshot {
                    frame: if absent {
                        None
                    } else {
                        Some(unsigned->0 as u64)
                    },
                    ..s.current
                },
            ) <==> absent || unsigned is Some
            &&& noted(
                s,
                progress::entry_step(s, "drop_frames"@, value),
                ProgressSnapshot {
                    dropped_frames: if absent {
                        None
                    } else {
                        Some(unsigned->0 as u64)
                    },
                    ..s.current
                },
            ) <==> absent || unsigned is Some
            &&& noted(
                s,
                progress::entry_step(s, "speed"@, value),
                ProgressSnapshot { speed_milli: progress::speed(value)->0, ..s.current },
            ) <==> progress::speed(value) is Some
            &&& !absent && signed is None ==> progress::entry_step(s, "out_time_us"@, value)
                == LineStep::Fault(ProgressErrorView::InvalidValue { key: "out_time_us"@ })
            &&& !absent && unsigned is None ==> progress::entry_step(s, "total_size"@, value)
                == LineStep::Fault(ProgressErrorView::InvalidValue { key: "total_size"@ })
            &&& progress::speed(value) is None ==> progress::entry_step(s, "speed"@, value)
                == LineStep::Fault(ProgressErrorView::InvalidValue { key: "speed"@ })
        }),
{
    lemma_keys_differ();
}

proof fn lemma_keys_differ()
    ensures
        "out_time_us"@.len() == 11,
        "total_size"@.len() == 10,
        "frame"@.len() == 5 && "frame"@[0] == 'f',
        "drop_frames"@.len() == 11 && "drop_frames"@[0] == 'd' && "out_time_us"@[0] == 'o',
        "speed"@.len() == 5 && "speed"@[0] == 's',
        "progress"@.len() == 8,
        "continue"@.len() == 8,
        "end"@.len() == 3,
{
    reveal_strlit("out_time_us");
    reveal_strlit("total_size");
    reveal_strlit("frame");
    reveal_strlit("drop_frames");
    reveal_strlit("speed");
    reveal_strlit("progress");
    reveal_strlit("continue");
    reveal_strlit("end");
}

/// A record is complete at the key `progress`: with `continue` it is reported and the next begins,
/// with `end` it is reported as the last. Any other value is a fault, and other keys do nothing.
pub proof fn law_records_are_reported(s: ProgressParser, key: Seq<char>, value: Seq<char>)
    ensures
        ({
            let empty = ProgressSnapshot {
                out_time_us: None,
                total_size_bytes: None,
                speed_milli: None,
                frame: None,
                dropped_frames: None,
            };
            &&& progress::entry_step(s, "progress"@, "continue"@) == LineStep::On(
                ProgressParser { current: empty, last: Some(s.current), saw_end: false },
                Some(ProgressEvent::Advanced(s.current)),
            )
            &&& progress::entry_step(s, "progress"@, "end"@) == LineStep::On(
                ProgressParser { current: empty, last: Some(s.current), saw_end: true },
                Some(ProgressEvent::Finished(s.current)),
            )
            &&& value != "continue"@ && value != "end"@ ==> progress::entry_step(
                s,
                "progress"@,
                value,
            ) == LineStep::Fault(ProgressErrorView::InvalidValue { key: "progress"@ })
            &&& key != "out_time_us"@ && key != "total_size"@ && key != "frame"@ && key
                != "drop_frames"@ && key != "speed"@ && key != "progress"@ ==> progress::entry_step(
                s,
                key,
                value,
            ) == LineStep::On(s, None)
        }),
{
    lemma_keys_differ();
}

/// A line is a key, an equals sign and a value, with white space around the value. Lines without an
/// equals sign are passed over.
pub proof fn law_lines_are_entries(
    s: ProgressParser,
    line: Seq<u8>,
    key: Seq<char>,
    value: Seq<char>,
)
    requires
        !s.saw_end,
        line.len() > 0,
        line.last() != 13,
        valid_utf8(line),
    ensures
        decode_utf8(line) == key.push('=') + value && !key.contains('=') ==> progress::line_step(
            s,
            line,
        ) == progress::entry_step(s, key, text::trim(value)),
        !decode_utf8(line).contains('=') ==> progress::line_step(s, line) == LineStep::On(s, None),
        progress::line_step(s, line.push(13)) == progress::line_step(s, line),
{
    assert(line.push(13).drop_last() =~= line);
    let t = decode_utf8(line);
    if t == key.push('=') + value && !key.contains('=') {
        assert(t[key.len() as int] == '=');
        assert forall|i: int| 0 <= i < key.len() implies t[i] != '=' by {
            assert(t[i] == key[i]);
        }
        text::lemma_find_unique(t, '=', key.len() as int);
        assert(t.subrange(0, key.len() as int) =~= key);
        assert(t.subrange(key.len() as int + 1, t.len() as int) =~= value);
    }
}

proof fn lemma_line_grows(parser: ProgressParser, line: Seq<u8>)
    requires
        !line.contains(10),
        line.len() <= 16_384,
    ensures
        progress::fed(progress::unfed(ReaderView { parser, line: seq![] }), line) == (FeedStep {
            reader: ReaderView { parser, line },
            events: seq![],
            fault: None,
        }),
    decreases line.len(),
{
    let start = progress::unfed(ReaderView { parser, line: seq![] });
    if line.len() > 0 {
        let rest = line.drop_last();
        assert(!rest.contains(10)) by {
            if rest.contains(10) {
                let i = choose|i: int| 0 <= i < rest.len() && rest[i] == 10;
                assert(line[i] == 10);
            }
        }
        lemma_line_grows(parser, rest);
        assert(line[line.len() - 1] == line.last());
        assert(line.contains(line.last()));
        assert(rest.push(line.last()) =~= line);
    } else {
        assert(line =~= seq![]);
    }
}

/// A line takes effect at the newline behind it, and then only its own bytes count. A line of more
/// than 16384 bytes is a fault.
pub proof fn law_lines_end_at_newlines(parser: ProgressParser, line: Seq<u8>, more: u8)
    requires
        !line.contains(10),
        line.len() <= 16_384,
        more != 10,
    ensures
        ({
            let start = progress::unfed(ReaderView { parser, line: seq![] });
            let after = progress::fed(start, line.push(10));
            &&& match progress::line_step(parser, line) {
                LineStep::On(next, event) => {
                    &&& after.fault is None
                    &&& after.reader == (ReaderView { parser: next, line: seq![] })
                    &&& event is Some ==> after.events == seq![event->0]
                    &&& event is None ==> after.events.len() == 0
                },
                LineStep::Fault(error) => after.fault == Some(error) && after.events.len() == 0,
            }
            &&& line.len() == 16_384 ==> progress::fed(start, line.push(more)).fault == Some(
                ProgressErrorView::LineTooLong { limit_bytes: 16_384 },
            )
            &&& line.len() < 16_384 ==> progress::fed(start, line.push(more)).fault is None
        }),
{
    lemma_line_grows(parser, line);
    assert(line.push(10).drop_last() =~= line);
    assert(line.push(more).drop_last() =~= line);
}

} // verus!
