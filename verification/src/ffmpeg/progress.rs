//! The progress protocol of the conversion tool.
use vstd::prelude::*;
use vstd::utf8::*;

use crate::backend;
use crate::backend::{IoError, IoErrorView, ProgressEvent, ProgressSnapshot};
use crate::number;
use crate::path;
use crate::text;

verus! {

/// Why progress records could not be read.
#[derive(Debug, PartialEq, Eq)]
pub enum ProgressError {
    /// The pipe could not be read.
    Read {
        /// What went wrong.
        source: IoError,
    },
    /// A line is longer than the limit.
    LineTooLong {
        /// The limit.
        limit_bytes: usize,
    },
    /// A line is not UTF-8.
    InvalidUtf8,
    /// A known key has a value that it cannot have.
    InvalidValue {
        /// The key.
        key: &'static str,
    },
    /// There is a line behind the terminal record.
    DataAfterEnd,
}

/// Why progress records could not be read.
pub enum ProgressErrorView {
    /// The pipe could not be read.
    Read {
        /// What went wrong.
        source: IoErrorView,
    },
    /// A line is longer than the limit.
    LineTooLong {
        /// The limit.
        limit_bytes: usize,
    },
    /// A line is not UTF-8.
    InvalidUtf8,
    /// A known key has a value that it cannot have.
    InvalidValue {
        /// The key.
        key: Seq<char>,
    },
    /// There is a line behind the terminal record.
    DataAfterEnd,
}

impl View for ProgressError {
    type V = ProgressErrorView;

    open spec fn view(&self) -> ProgressErrorView {
        match self {
            ProgressError::Read { source } => ProgressErrorView::Read {
                source: source@,
            },
            ProgressError::LineTooLong { limit_bytes } => ProgressErrorView::LineTooLong {
                limit_bytes: *limit_bytes,
            },
            ProgressError::InvalidUtf8 => ProgressErrorView::InvalidUtf8,
            ProgressError::InvalidValue { key } => ProgressErrorView::InvalidValue {
                key: key@,
            },
            ProgressError::DataAfterEnd => ProgressErrorView::DataAfterEnd,
        }
    }
}

impl DeepView for ProgressError {
    type V = ProgressErrorView;

    open spec fn deep_view(&self) -> ProgressErrorView {
        self@
    }
}

impl Clone for ProgressError {
    fn clone(&self) -> (r: Self)
        ensures
            r@ == self@,
    {
        match self {
            ProgressError::Read { source } => ProgressError::Read {
                source: source.clone(),
            },
            ProgressError::LineTooLong { limit_bytes } => ProgressError::LineTooLong {
                limit_bytes: *limit_bytes,
            },
            ProgressError::InvalidUtf8 => ProgressError::InvalidUtf8,
            ProgressError::InvalidValue { key } => ProgressError::InvalidValue {
                key: *key,
            },
            ProgressError::DataAfterEnd => ProgressError::DataAfterEnd,
        }
    }
}

impl ProgressErrorView {
    /// The user-facing description.
    pub open spec fn message(self) -> Seq<char> {
        match self {
            ProgressErrorView::Read { source } => "failed to read FFmpeg progress: "@ + source.message,
            ProgressErrorView::LineTooLong { limit_bytes } => "FFmpeg progress line exceeds "@ + number::decimal(limit_bytes as int) + " bytes"@,
            ProgressErrorView::InvalidUtf8 => "FFmpeg progress line is not valid UTF-8"@,
            ProgressErrorView::InvalidValue { key } => "invalid FFmpeg progress value for `"@ + key + "`"@,
            ProgressErrorView::DataAfterEnd => "FFmpeg progress contained data after `progress=end`"@,
        }
    }
}

impl ProgressError {
    /// The user-facing description.
    pub fn message(&self) -> (r: String)
        ensures
            r@ == self@.message(),
    {
        match self {
            ProgressError::Read { source } => text::concat2("failed to read FFmpeg progress: ", source.message()),
            ProgressError::LineTooLong { limit_bytes } => text::concat3("FFmpeg progress line exceeds ", number::show_usize(*limit_bytes).as_str(), " bytes"),
            ProgressError::InvalidUtf8 => "FFmpeg progress line is not valid UTF-8".to_owned(),
            ProgressError::InvalidValue { key } => text::concat3("invalid FFmpeg progress value for `", key, "`"),
            ProgressError::DataAfterEnd => "FFmpeg progress contained data after `progress=end`".to_owned(),
        }
    }
}

/// The most bytes of one line.
pub const MAX_PROGRESS_LINE_BYTES: usize = 16_384;

/// What has been read of a progress stream.
#[derive(Debug, Clone, Copy, PartialEq, Eq)]
pub struct ProgressReadReport {
    /// The last complete record.
    pub last: Option<ProgressSnapshot>,
    /// Whether the terminal record was read.
    pub saw_end: bool,
}

/// Reads progress records line by line.
#[derive(Debug, Clone, Copy, PartialEq, Eq)]
pub struct ProgressParser {
    /// The record that is being read.
    pub current: ProgressSnapshot,
    /// The last complete record.
    pub last: Option<ProgressSnapshot>,
    /// Whether the terminal record was read.
    pub saw_end: bool,
}

/// A parser that has read nothing.
pub open spec fn fresh_parser() -> ProgressParser {
    ProgressParser { current: backend::empty_progress(), last: None, saw_end: false }
}

impl Default for ProgressParser {
    fn default() -> (r: Self)
        ensures
            r == fresh_parser(),
    {
        ProgressParser { current: ProgressSnapshot::default(), last: None, saw_end: false }
    }
}

/// A value that may be missing.
pub open spec fn optional_signed(value: Seq<char>) -> Option<Option<i64>> {
    if value == "N/A"@ {
        Some(None)
    } else {
        match number::read_signed(value, i64::MIN as int, i64::MAX as int) {
            Some(n) => Some(Some(n as i64)),
            None => None,
        }
    }
}

/// A value that may be missing.
pub open spec fn optional_unsigned(value: Seq<char>) -> Option<Option<u64>> {
    if value == "N/A"@ {
        Some(None)
    } else {
        match number::read_unsigned(value, u64::MAX as int) {
            Some(n) => Some(Some(n as u64)),
            None => None,
        }
    }
}

fn parse_optional_i64(value: &str, key: &'static str) -> (r: Result<Option<i64>, ProgressError>)
    ensures
        match r {
            Ok(v) => optional_signed(value@) == Some(v),
            Err(e) => optional_signed(value@) is None && e@ == (ProgressErrorView::InvalidValue {
                key: key@,
            }),
        },
{
    if text::same(value, "N/A") {
        return Ok(None);
    }
    match number::parse_i64_text(value) {
        Some(n) => Ok(Some(n)),
        None => Err(ProgressError::InvalidValue { key }),
    }
}

fn parse_optional_u64(value: &str, key: &'static str) -> (r: Result<Option<u64>, ProgressError>)
    ensures
        match r {
            Ok(v) => optional_unsigned(value@) == Some(v),
            Err(e) => optional_unsigned(value@) is None && e@ == (ProgressErrorView::InvalidValue {
                key: key@,
            }),
        },
{
    if text::same(value, "N/A") {
        return Ok(None);
    }
    match number::parse_u64_text(value) {
        Some(n) => Ok(Some(n)),
        None => Err(ProgressError::InvalidValue { key }),
    }
}

/// The highest power of ten below two to the 128.
pub const MAX_POWER: u32 = 38;

/// A number in thousandths: digits with a decimal exponent, rounded down.
pub open spec fn scaled(digits: int, power: int) -> Option<u32> {
    if power >= 0 && power <= MAX_POWER && digits * number::pow10(power as nat) <= u32::MAX {
        Some((digits * number::pow10(power as nat)) as u32)
    } else if power < 0 && -power <= MAX_POWER && digits / (number::pow10((-power) as nat) as int)
        <= u32::MAX {
        Some((digits / (number::pow10((-power) as nat) as int)) as u32)
    } else {
        None
    }
}

/// The mantissa and the exponent of a number in scientific notation.
pub open spec fn mantissa_and_exponent(s: Seq<char>) -> (Seq<char>, Option<int>) {
    match text::split_once(s, 'e') {
        Some((mantissa, exponent)) => (
            mantissa,
            number::read_signed(exponent, i32::MIN + 1, i32::MAX as int),
        ),
        None => (s, Some(0)),
    }
}

/// What stands before and behind the decimal point.
pub open spec fn whole_and_fraction(s: Seq<char>) -> (Seq<char>, Seq<char>) {
    match text::split_once(s, '.') {
        Some((whole, fraction)) => (whole, fraction),
        None => (s, seq![]),
    }
}

/// The thousandths that a decimal number, in scientific notation or not, stands for.
pub open spec fn thousandths(s: Seq<char>) -> Option<u32> {
    let (mantissa, exponent) = mantissa_and_exponent(text::lower(s));
    let (whole, fraction) = whole_and_fraction(mantissa);
    let digits = number::number(whole + fraction);
    if exponent is Some && exponent->0 + 3 <= i32::MAX && fraction.len() <= i32::MAX && whole.len()
        > 0 && text::all_digits(whole) && text::all_digits(fraction) && digits <= u128::MAX {
        scaled(digits, exponent->0 + 3 - fraction.len())
    } else {
        None
    }
}

/// The speed that a value stands for, in thousandths: a number followed by `x`, or nothing.
pub open spec fn speed(value: Seq<char>) -> Option<Option<u32>> {
    if value == "N/A"@ {
        Some(None)
    } else if value.len() > 0 && value.last() == 'x' {
        match thousandths(value.drop_last()) {
            Some(milli) => Some(Some(milli)),
            None => None,
        }
    } else {
        None
    }
}

proof fn lemma_pow10(n: nat)
    ensures
        number::pow10(n) >= 1,
        n <= MAX_POWER ==> number::pow10(n) <= 100_000_000_000_000_000_000_000_000_000_000_000_000,
    decreases n,
{
    if n > 0 {
        lemma_pow10((n - 1) as nat);
        if n <= MAX_POWER {
            lemma_pow10_grows(n, MAX_POWER as nat);
            reveal_with_fuel(number::pow10, 39);
        }
    }
}

proof fn lemma_pow10_grows(a: nat, b: nat)
    requires
        a <= b,
    ensures
        1 <= number::pow10(a) <= number::pow10(b),
    decreases b,
{
    if b > 0 {
        if a < b {
            lemma_pow10_grows(a, (b - 1) as nat);
        } else {
            lemma_pow10_grows((a - 1) as nat, (b - 1) as nat);
        }
    }
}

fn power_of_ten(n: u32) -> (r: u128)
    requires
        n <= MAX_POWER,
    ensures
        r == number::pow10(n as nat),
{
    let mut r: u128 = 1;
    let mut i: u32 = 0;
    while i < n
        invariant
            i <= n <= MAX_POWER,
            r == number::pow10(i as nat),
        decreases n - i,
    {
        proof {
            lemma_pow10((i + 1) as nat);
        }
        r = r * 10;
        i = i + 1;
    }
    r
}

fn scale(digits: u128, power: i64) -> (r: Option<u32>)
    ensures
        r == scaled(digits as int, power as int),
{
    if power >= 0 {
        if power > 38 {
            return None;
        }
        let factor: u128 = power_of_ten(power as u32);
        match digits.checked_mul(factor) {
            Some(value) => if value <= u32::MAX as u128 {
                Some(value as u32)
            } else {
                None
            },
            None => None,
        }
    } else {
        if power < -38 {
            return None;
        }
        let divisor: u128 = power_of_ten((-power) as u32);
        proof {
            lemma_pow10((-power) as nat);
        }
        let value: u128 = digits / divisor;
        if value <= u32::MAX as u128 {
            Some(value as u32)
        } else {
            None
        }
    }
}

fn parse_thousandths(s: &str) -> (r: Option<u32>)
    ensures
        r == thousandths(s@),
{
    let lowered = text::to_lower(s);
    let (mantissa, exponent) = match text::cut_once(lowered.as_str(), 'e') {
        Some((mantissa, exponent)) => {
            let parsed = match number::parse_i32_text(exponent.as_str()) {
                Some(n) => if n == i32::MIN {
                    None
                } else {
                    Some(n)
                },
                None => None,
            };
            proof {
                number::lemma_read_signed_range(exponent@, i32::MIN + 1, i32::MAX as int);
                if text::all_digits(exponent@) {
                    number::lemma_number_nonnegative(exponent@);
                }
                if text::all_digits(exponent@.drop_first()) {
                    number::lemma_number_nonnegative(exponent@.drop_first());
                }
            }
            (mantissa, parsed)
        },
        None => (lowered, Some(0i32)),
    };
    proof {
        assert(mantissa_and_exponent(text::lower(s@)) == (mantissa@, number::opt_i32(exponent)));
    }
    let exponent = match exponent {
        Some(n) => n,
        None => {
            return None;
        },
    };
    let (whole, fraction) = match text::cut_once(mantissa.as_str(), '.') {
        Some((whole, fraction)) => (whole, fraction),
        None => (mantissa, String::new()),
    };
    proof {
        assert(whole_and_fraction(mantissa@) == (whole@, fraction@)) by {
            if text::split_once(mantissa@, '.') is None {
                assert(fraction@ =~= seq![]);
            }
        }
    }
    let count: usize = text::chars_of(fraction.as_str()).len();
    if text::chars_of(whole.as_str()).len() == 0 || !text::only_digits(whole.as_str())
        || !text::only_digits(fraction.as_str()) || count > 0x7fff_ffff || exponent > 0x7fff_fffc {
        return None;
    }
    let joined = text::concat2(whole.as_str(), fraction.as_str());
    proof {
        assert(joined@ =~= whole@ + fraction@);
        assert(text::is_digit(joined@[0]));
        assert(joined@[0] != '+');
        assert(text::all_digits(joined@));
    }
    match number::parse_u128(joined.as_str()) {
        Some(digits) => scale(digits, exponent as i64 + 3 - count as i64),
        None => None,
    }
}

fn parse_speed(value: &str) -> (r: Result<Option<u32>, ProgressError>)
    ensures
        match r {
            Ok(v) => speed(value@) == Some(v),
            Err(e) => speed(value@) is None && e@ == (ProgressErrorView::InvalidValue {
                key: "speed"@,
            }),
        },
{
    if text::same(value, "N/A") {
        return Ok(None);
    }
    let chars = text::chars_of(value);
    let n: usize = chars.len();
    if n == 0 || chars[n - 1] != 'x' {
        return Err(ProgressError::InvalidValue { key: "speed" });
    }
    let number_text = text::slice_text(&chars, 0, n - 1);
    proof {
        assert(number_text@ =~= value@.drop_last());
    }
    match parse_thousandths(number_text.as_str()) {
        Some(milli) => Ok(Some(milli)),
        None => Err(ProgressError::InvalidValue { key: "speed" }),
    }
}

/// What reading a line does to a parser.
pub enum LineStep {
    /// The parser goes on, with something to report or not.
    On(ProgressParser, Option<ProgressEvent>),
    /// The line cannot stand where it stands.
    Fault(ProgressErrorView),
}

/// A value that a key cannot have.
pub open spec fn bad_value(key: Seq<char>) -> LineStep {
    LineStep::Fault(ProgressErrorView::InvalidValue { key })
}

/// What a key with its value does to a parser; other keys do nothing.
pub open spec fn entry_step(s: ProgressParser, key: Seq<char>, value: Seq<char>) -> LineStep {
    if key == "out_time_us"@ {
        match optional_signed(value) {
            Some(v) => LineStep::On(
                ProgressParser {
                    current: ProgressSnapshot { out_time_us: v, ..s.current },
                    ..s
                },
                None,
            ),
            None => bad_value(key),
        }
    } else if key == "total_size"@ {
        match optional_unsigned(value) {
            Some(v) => LineStep::On(
                ProgressParser {
                    current: ProgressSnapshot { total_size_bytes: v, ..s.current },
                    ..s
                },
                None,
            ),
            None => bad_value(key),
        }
    } else if key == "frame"@ {
        match optional_unsigned(value) {
            Some(v) => LineStep::On(
                ProgressParser { current: ProgressSnapshot { frame: v, ..s.current }, ..s },
                None,
            ),
            None => bad_value(key),
        }
    } else if key == "drop_frames"@ {
        match optional_unsigned(value) {
            Some(v) => LineStep::On(
                ProgressParser {
                    current: ProgressSnapshot { dropped_frames: v, ..s.current },
                    ..s
                },
                None,
            ),
            None => bad_value(key),
        }
    } else if key == "speed"@ {
        match speed(value) {
            Some(v) => LineStep::On(
                ProgressParser { current: ProgressSnapshot { speed_milli: v, ..s.current }, ..s },
                None,
            ),
            None => bad_value(key),
        }
    } else if key == "progress"@ {
        if value == "continue"@ {
            LineStep::On(
                ProgressParser {
                    current: backend::empty_progress(),
                    last: Some(s.current),
                    saw_end: false,
                },
                Some(ProgressEvent::Advanced(s.current)),
            )
        } else if value == "end"@ {
            LineStep::On(
                ProgressParser {
                    current: backend::empty_progress(),
                    last: Some(s.current),
                    saw_end: true,
                },
                Some(ProgressEvent::Finished(s.current)),
            )
        } else {
            bad_value(key)
        }
    } else {
        LineStep::On(s, None)
    }
}

/// A line without the carriage return at its end.
pub open spec fn without_return(line: Seq<u8>) -> Seq<u8> {
    if line.len() > 0 && line.last() == 13 {
        line.drop_last()
    } else {
        line
    }
}

/// What a line does to a parser. Empty lines and lines without `=` do nothing.
pub open spec fn line_step(s: ProgressParser, raw: Seq<u8>) -> LineStep {
    let line = without_return(raw);
    if line.len() == 0 {
        LineStep::On(s, None)
    } else if s.saw_end {
        LineStep::Fault(ProgressErrorView::DataAfterEnd)
    } else if !valid_utf8(line) {
        LineStep::Fault(ProgressErrorView::InvalidUtf8)
    } else {
        match text::split_once(decode_utf8(line), '=') {
            Some((key, value)) => entry_step(s, key, text::trim(value)),
            None => LineStep::On(s, None),
        }
    }
}

impl ProgressParser {
    fn push_entry(&mut self, key: &str, value: &str) -> (r: Result<
        Option<ProgressEvent>,
        ProgressError,
    >)
        requires
            !old(self).saw_end,
        ensures
            match r {
                Ok(event) => entry_step(*old(self), key@, value@) == LineStep::On(
                    *final(self),
                    event,
                ),
                Err(error) => entry_step(*old(self), key@, value@) == LineStep::Fault(error@)
                    && *final(self) == *old(self),
            },
    {
        let mut current = self.current;
        if text::same(key, "out_time_us") {
            match parse_optional_i64(value, "out_time_us") {
                Ok(v) => {
                    current.out_time_us = v;
                },
                Err(e) => {
                    return Err(e);
                },
            }
        } else if text::same(key, "total_size") {
            match parse_optional_u64(value, "total_size") {
                Ok(v) => {
                    current.total_size_bytes = v;
                },
                Err(e) => {
                    return Err(e);
                },
            }
        } else if text::same(key, "frame") {
            match parse_optional_u64(value, "frame") {
                Ok(v) => {
                    current.frame = v;
                },
                Err(e) => {
                    return Err(e);
                },
            }
        } else if text::same(key, "drop_frames") {
            match parse_optional_u64(value, "drop_frames") {
                Ok(v) => {
                    current.dropped_frames = v;
                },
                Err(e) => {
                    return Err(e);
                },
            }
        } else if text::same(key, "speed") {
            match parse_speed(value) {
                Ok(v) => {
                    current.speed_milli = v;
                },
                Err(e) => {
                    return Err(e);
                },
            }
        } else if text::same(key, "progress") {
            let event = if text::same(value, "continue") {
                ProgressEvent::Advanced(current)
            } else if text::same(value, "end") {
                self.saw_end = true;
                ProgressEvent::Finished(current)
            } else {
                return Err(ProgressError::InvalidValue { key: "progress" });
            };
            self.last = Some(current);
            self.current = ProgressSnapshot::default();
            return Ok(Some(event));
        }
        self.current = current;
        Ok(None)
    }

    /// Reads one line and gives what there is to report.
    pub fn push_line(&mut self, raw: &Vec<u8>) -> (r: Result<Option<ProgressEvent>, ProgressError>)
        ensures
            match r {
                Ok(event) => line_step(*old(self), raw@) == LineStep::On(*final(self), event),
                Err(error) => line_step(*old(self), raw@) == LineStep::Fault(error@)
                    && *final(self) == *old(self),
            },
    {
        let mut n: usize = raw.len();
        if n > 0 && raw[n - 1] == 13 {
            n = n - 1;
        }
        let line = path::slice_bytes(raw, 0, n);
        proof {
            assert(line@ =~= without_return(raw@));
        }
        if line.len() == 0 {
            return Ok(None);
        }
        if self.saw_end {
            return Err(ProgressError::DataAfterEnd);
        }
        let decoded = match text::decode_strict(&line) {
            Some(s) => s,
            None => {
                return Err(ProgressError::InvalidUtf8);
            },
        };
        match text::cut_once(decoded.as_str(), '=') {
            Some((key, value)) => self.push_entry(
                key.as_str(),
                text::trimmed(value.as_str()).as_str(),
            ),
            None => Ok(None),
        }
    }
}

/// Reads a progress stream that comes in chunks.
#[derive(Debug, PartialEq, Eq)]
pub struct ProgressReader {
    parser: ProgressParser,
    line: Vec<u8>,
}

/// Reads a progress stream that comes in chunks.
pub struct ReaderView {
    /// What the complete lines did.
    pub parser: ProgressParser,
    /// What there is of the next line.
    pub line: Seq<u8>,
}

impl View for ProgressReader {
    type V = ReaderView;

    closed spec fn view(&self) -> ReaderView {
        ReaderView { parser: self.parser, line: self.line@ }
    }
}

/// What some bytes do to a reader.
pub struct FeedStep {
    /// The reader afterwards.
    pub reader: ReaderView,
    /// What there was to report.
    pub events: Seq<ProgressEvent>,
    /// What stopped the reader.
    pub fault: Option<ProgressErrorView>,
}

/// What one more byte does.
pub open spec fn byte_step(before: FeedStep, byte: u8) -> FeedStep {
    let s = before.reader;
    if before.fault is Some {
        before
    } else if byte == 10 {
        match line_step(s.parser, s.line) {
            LineStep::On(parser, event) => FeedStep {
                reader: ReaderView { parser, line: seq![] },
                events: match event {
                    Some(e) => before.events.push(e),
                    None => before.events,
                },
                fault: None,
            },
            LineStep::Fault(error) => FeedStep { fault: Some(error), ..before },
        }
    } else if s.line.len() == MAX_PROGRESS_LINE_BYTES {
        FeedStep {
            fault: Some(
                ProgressErrorView::LineTooLong { limit_bytes: MAX_PROGRESS_LINE_BYTES },
            ),
            ..before
        }
    } else {
        FeedStep { reader: ReaderView { line: s.line.push(byte), ..s }, ..before }
    }
}

/// What some bytes do after earlier ones.
pub open spec fn fed(start: FeedStep, bytes: Seq<u8>) -> FeedStep
    decreases bytes.len(),
{
    if bytes.len() == 0 {
        start
    } else {
        byte_step(fed(start, bytes.drop_last()), bytes.last())
    }
}

/// A reader before it is given anything more.
pub open spec fn unfed(reader: ReaderView) -> FeedStep {
    FeedStep { reader, events: seq![], fault: None }
}

/// A reader that has read nothing.
pub open spec fn fresh_reader() -> ReaderView {
    ReaderView { parser: fresh_parser(), line: seq![] }
}

fn push_event(events: &mut Vec<ProgressEvent>, event: Option<ProgressEvent>)
    ensures
        final(events)@ == match event {
            Some(e) => old(events)@.push(e),
            None => old(events)@,
        },
{
    match event {
        Some(e) => events.push(e),
        None => {},
    }
}

impl ProgressReader {
    /// A line never grows beyond the limit.
    #[verifier::type_invariant]
    spec fn bounded(self) -> bool {
        self.line@.len() <= MAX_PROGRESS_LINE_BYTES
    }

    /// A reader that has read nothing.
    pub fn new() -> (r: Self)
        ensures
            r@ == fresh_reader(),
    {
        let r = ProgressReader { parser: ProgressParser::default(), line: Vec::new() };
        proof {
            assert(r@.line =~= seq![]);
        }
        r
    }

    /// Reads a chunk and gives what there is to report, up to what stopped the reader.
    pub fn feed(&mut self, chunk: &Vec<u8>) -> (r: (Vec<ProgressEvent>, Result<(), ProgressError>))
        ensures
            ({
                let after = fed(unfed(old(self)@), chunk@);
                &&& r.0@ == after.events
                &&& final(self)@ == after.reader
                &&& match r.1 {
                    Ok(_) => after.fault is None,
                    Err(e) => after.fault == Some(e@),
                }
            }),
    {
        let ghost start = unfed(self@);
        let mut events: Vec<ProgressEvent> = Vec::new();
        let mut i: usize = 0;
        let mut fault: Option<ProgressError> = None;
        proof {
            use_type_invariant(&*self);
            assert(chunk@.take(0) =~= seq![]);
        }
        let mut parser = self.parser;
        let mut line: Vec<u8> = Vec::new();
        std::mem::swap(&mut line, &mut self.line);
        while i < chunk.len()
            invariant
                i <= chunk@.len(),
                line@.len() <= MAX_PROGRESS_LINE_BYTES,
                fed(start, chunk@.take(i as int)) == (FeedStep {
                    reader: ReaderView { parser, line: line@ },
                    events: events@,
                    fault: fault.deep_view(),
                }),
            decreases chunk@.len() - i,
        {
            let byte: u8 = chunk[i];
            proof {
                assert(chunk@.take(i + 1).drop_last() =~= chunk@.take(i as int));
            }
            if fault.is_none() {
                if byte == 10 {
                    match parser.push_line(&line) {
                        Ok(event) => {
                            push_event(&mut events, event);
                            line = Vec::new();
                            proof {
                                assert(line@ =~= seq![]);
                            }
                        },
                        Err(e) => {
                            fault = Some(e);
                        },
                    }
                } else if line.len() == MAX_PROGRESS_LINE_BYTES {
                    fault = Some(
                        ProgressError::LineTooLong { limit_bytes: MAX_PROGRESS_LINE_BYTES },
                    );
                } else {
                    line.push(byte);
                }
            }
            i = i + 1;
        }
        proof {
            assert(chunk@.take(i as int) =~= chunk@);
        }
        *self = ProgressReader { parser, line };
        (
            events,
            match fault {
                Some(e) => Err(e),
                None => Ok(()),
            },
        )
    }

    /// Reads what is left at the end of the stream.
    pub fn finish(self) -> (r: (
        Option<ProgressEvent>,
        Result<ProgressReadReport, ProgressError>,
    ))
        ensures
            ({
                let step = if self@.line.len() == 0 {
                    LineStep::On(self@.parser, None)
                } else {
                    line_step(self@.parser, self@.line)
                };
                match r.1 {
                    Ok(report) => step == LineStep::On(
                        ProgressParser {
                            current: step->On_0.current,
                            last: report.last,
                            saw_end: report.saw_end,
                        },
                        r.0,
                    ),
                    Err(e) => step == LineStep::Fault(e@) && r.0 is None,
                }
            }),
    {
        let mut parser = self.parser;
        let mut event = None;
        if self.line.len() > 0 {
            match parser.push_line(&self.line) {
                Ok(e) => {
                    event = e;
                },
                Err(e) => {
                    return (None, Err(e));
                },
            }
        }
        (event, Ok(ProgressReadReport { last: parser.last, saw_end: parser.saw_end }))
    }
}

/// Where a stream is cut into chunks makes no difference.
pub proof fn law_chunks_make_no_difference(start: FeedStep, a: Seq<u8>, b: Seq<u8>)
    ensures
        fed(start, a + b) == fed(fed(start, a), b),
    decreases b.len(),
{
    if b.len() == 0 {
        assert(a + b =~= a);
    } else {
        law_chunks_make_no_difference(start, a, b.drop_last());
        assert((a + b).drop_last() =~= a + b.drop_last());
        assert((a + b).last() == b.last());
    }
}

/// Nothing is read behind the terminal record but empty lines.
pub proof fn law_nothing_follows_the_end(s: ProgressParser, raw: Seq<u8>)
    requires
        s.saw_end,
    ensures
        without_return(raw).len() == 0 ==> line_step(s, raw) == LineStep::On(s, None),
        without_return(raw).len() > 0 ==> line_step(s, raw) == LineStep::Fault(
            ProgressErrorView::DataAfterEnd,
        ),
{
}

} // verus!
