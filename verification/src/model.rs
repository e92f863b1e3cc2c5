//! Validated facts about media files and their streams.
use vstd::prelude::*;

use crate::number;
use crate::table;
use crate::table::TextMap;
use crate::text;

verus! {

/// A violated invariant of the media model.
#[derive(Debug, Clone, Copy, PartialEq, Eq)]
#[non_exhaustive]
pub enum ModelError {
    /// A numeric quantity was zero.
    ZeroValue {
        /// Name of the quantity.
        field: &'static str,
    },
    /// A text was empty or contained an unsupported character.
    InvalidText {
        /// Name of the text.
        field: &'static str,
        /// What is wrong with it.
        reason: &'static str,
    },
    /// A rational time base had a zero part.
    InvalidTimeBase,
    /// Media information held no streams.
    NoStreams,
    /// Two streams had the same index.
    DuplicateStreamIndex {
        /// The repeated index.
        index: StreamIndex,
    },
    /// A media format had no names.
    MissingFormatName,
    /// A chapter ended before it started.
    InvalidChapterRange {
        /// Identifier of the chapter.
        id: i64,
    },
}

/// A violated invariant with its texts as sequences of characters.
pub enum ModelErrorView {
    /// A numeric quantity was zero.
    ZeroValue { field: Seq<char> },
    /// A text was empty or contained an unsupported character.
    InvalidText { field: Seq<char>, reason: Seq<char> },
    /// A rational time base had a zero part.
    InvalidTimeBase,
    /// Media information held no streams.
    NoStreams,
    /// Two streams had the same index.
    DuplicateStreamIndex { index: u32 },
    /// A media format had no names.
    MissingFormatName,
    /// A chapter ended before it started.
    InvalidChapterRange { id: i64 },
}

impl View for ModelError {
    type V = ModelErrorView;

    open spec fn view(&self) -> ModelErrorView {
        match *self {
            ModelError::ZeroValue { field } => ModelErrorView::ZeroValue { field: field@ },
            ModelError::InvalidText { field, reason } => ModelErrorView::InvalidText {
                field: field@,
                reason: reason@,
            },
            ModelError::InvalidTimeBase => ModelErrorView::InvalidTimeBase,
            ModelError::NoStreams => ModelErrorView::NoStreams,
            ModelError::DuplicateStreamIndex { index } => ModelErrorView::DuplicateStreamIndex {
                index: index@,
            },
            ModelError::MissingFormatName => ModelErrorView::MissingFormatName,
            ModelError::InvalidChapterRange { id } => ModelErrorView::InvalidChapterRange { id },
        }
    }
}

impl ModelErrorView {
    /// The user-facing description of the violated invariant.
    pub open spec fn message(self) -> Seq<char> {
        match self {
            ModelErrorView::ZeroValue { field } => field + " must be greater than zero"@,
            ModelErrorView::InvalidText { field, reason } => "invalid "@ + field + ": "@ + reason,
            ModelErrorView::InvalidTimeBase =>
                "time base numerator and denominator must be greater than zero"@,
            ModelErrorView::NoStreams => "media information contains no streams"@,
            ModelErrorView::DuplicateStreamIndex { index } => "duplicate stream index "@
                + number::decimal(index as int),
            ModelErrorView::MissingFormatName => "media format has no names"@,
            ModelErrorView::InvalidChapterRange { id } => "chapter "@ + number::signed_decimal(
                id as int,
            ) + " ends before it starts"@,
        }
    }
}

impl ModelError {
    /// The user-facing description of the violated invariant.
    pub fn message(&self) -> (r: String)
        ensures
            r@ == self@.message(),
    {
        match *self {
            ModelError::ZeroValue { field } => text::concat2(field, " must be greater than zero"),
            ModelError::InvalidText { field, reason } => {
                let mut out = text::concat3("invalid ", field, ": ");
                text::push_text(&mut out, reason);
                out
            },
            ModelError::InvalidTimeBase =>
                "time base numerator and denominator must be greater than zero".to_owned(),
            ModelError::NoStreams => "media information contains no streams".to_owned(),
            ModelError::DuplicateStreamIndex { index } => text::concat2(
                "duplicate stream index ",
                number::show_u64(index.get() as u64).as_str(),
            ),
            ModelError::MissingFormatName => "media format has no names".to_owned(),
            ModelError::InvalidChapterRange { id } => text::concat3(
                "chapter ",
                number::show_i64(id).as_str(),
                " ends before it starts",
            ),
        }
    }
}

/// The index of a stream within its container.
#[derive(Debug, Clone, Copy, PartialEq, Eq, PartialOrd, Ord, Hash)]
pub struct StreamIndex(u32);

impl View for StreamIndex {
    type V = u32;

    closed spec fn view(&self) -> u32 {
        self.0
    }
}

impl DeepView for StreamIndex {
    type V = u32;

    open spec fn deep_view(&self) -> u32 {
        self@
    }
}

impl StreamIndex {
    /// An index with the given value.
    pub fn new(value: u32) -> (r: Self)
        ensures
            r@ == value,
    {
        StreamIndex(value)
    }

    /// The value of the index.
    pub fn get(self) -> (r: u32)
        ensures
            r == self@,
    {
        self.0
    }

    /// The decimal spelling of the index.
    pub fn show(self) -> (r: String)
        ensures
            r@ == number::decimal(self@ as int),
    {
        number::show_u64(self.0 as u64)
    }
}

/// A positive number of bits per second.
#[derive(Debug, Clone, Copy, PartialEq, Eq, PartialOrd, Ord, Hash)]
pub struct Bitrate(u64);

impl View for Bitrate {
    type V = u64;

    closed spec fn view(&self) -> u64 {
        self.0
    }
}

impl DeepView for Bitrate {
    type V = u64;

    open spec fn deep_view(&self) -> u64 {
        self@
    }
}

impl Bitrate {
    #[verifier::type_invariant]
    pub open spec fn positive(self) -> bool {
        self@ > 0
    }

    /// A bitrate; zero is rejected.
    pub fn new(value: u64) -> (r: Result<Self, ModelError>)
        ensures
            match r {
                Ok(b) => value > 0 && b@ == value,
                Err(e) => value == 0 && e@ == (ModelErrorView::ZeroValue { field: "bitrate"@ }),
            },
    {
        if value == 0 {
            Err(ModelError::ZeroValue { field: "bitrate" })
        } else {
            Ok(Bitrate(value))
        }
    }

    /// The number of bits per second.
    pub fn get(self) -> (r: u64)
        ensures
            r == self@,
            r > 0,
    {
        proof {
            use_type_invariant(&self);
        }
        self.0
    }

    /// The bitrate with its unit.
    pub fn show(self) -> (r: String)
        ensures
            r@ == number::decimal(self@ as int) + " bit/s"@,
    {
        text::concat2(number::show_u64(self.0).as_str(), " bit/s")
    }
}

/// A positive number of audio channels.
#[derive(Debug, Clone, Copy, PartialEq, Eq, PartialOrd, Ord, Hash)]
pub struct ChannelCount(u16);

impl View for ChannelCount {
    type V = u16;

    closed spec fn view(&self) -> u16 {
        self.0
    }
}

impl DeepView for ChannelCount {
    type V = u16;

    open spec fn deep_view(&self) -> u16 {
        self@
    }
}

impl ChannelCount {
    #[verifier::type_invariant]
    pub open spec fn positive(self) -> bool {
        self@ > 0
    }

    /// A channel count; zero is rejected.
    pub fn new(value: u16) -> (r: Result<Self, ModelError>)
        ensures
            match r {
                Ok(c) => value > 0 && c@ == value,
                Err(e) => value == 0 && e@ == (ModelErrorView::ZeroValue { field: "channels"@ }),
            },
    {
        if value == 0 {
            Err(ModelError::ZeroValue { field: "channels" })
        } else {
            Ok(ChannelCount(value))
        }
    }

    /// The number of channels.
    pub fn get(self) -> (r: u16)
        ensures
            r == self@,
            r > 0,
    {
        proof {
            use_type_invariant(&self);
        }
        self.0
    }

    /// The decimal spelling of the count.
    pub fn show(self) -> (r: String)
        ensures
            r@ == number::decimal(self@ as int),
    {
        number::show_u64(self.0 as u64)
    }
}

/// A positive number of audio samples per second.
#[derive(Debug, Clone, Copy, PartialEq, Eq, PartialOrd, Ord, Hash)]
pub struct SampleRate(u32);

impl View for SampleRate {
    type V = u32;

    closed spec fn view(&self) -> u32 {
        self.0
    }
}

impl DeepView for SampleRate {
    type V = u32;

    open spec fn deep_view(&self) -> u32 {
        self@
    }
}

impl SampleRate {
    #[verifier::type_invariant]
    pub open spec fn positive(self) -> bool {
        self@ > 0
    }

    /// A sample rate; zero is rejected.
    pub fn new(value: u32) -> (r: Result<Self, ModelError>)
        ensures
            match r {
                Ok(s) => value > 0 && s@ == value,
                Err(e) => value == 0 && e@ == (ModelErrorView::ZeroValue { field: "sample rate"@ }),
            },
    {
        if value == 0 {
            Err(ModelError::ZeroValue { field: "sample rate" })
        } else {
            Ok(SampleRate(value))
        }
    }

    /// The number of samples per second.
    pub fn get(self) -> (r: u32)
        ensures
            r == self@,
            r > 0,
    {
        proof {
            use_type_invariant(&self);
        }
        self.0
    }
}

/// What is wrong with a text that must neither be blank nor contain a NUL character.
pub open spec fn text_fault(field: Seq<char>, value: Seq<char>) -> Option<ModelErrorView> {
    if text::trim(value).len() == 0 {
        Some(ModelErrorView::InvalidText { field, reason: "is empty"@ })
    } else if value.contains('\0') {
        Some(ModelErrorView::InvalidText { field, reason: "contains a NUL character"@ })
    } else {
        None
    }
}

pub(crate) fn validate_text(field: &'static str, value: &str) -> (r: Result<(), ModelError>)
    ensures
        match r {
            Ok(_) => text_fault(field@, value@) is None,
            Err(e) => text_fault(field@, value@) == Some(e@),
        },
{
    let trimmed = text::trimmed(value);
    if trimmed.as_str().is_empty() {
        return Err(ModelError::InvalidText { field, reason: "is empty" });
    }
    if text::has_char(value, '\0') {
        return Err(ModelError::InvalidText { field, reason: "contains a NUL character" });
    }
    Ok(())
}

/// A language tag as it stands in the source.
#[derive(Debug, Clone, PartialEq, Eq, PartialOrd, Ord, Hash)]
pub struct Language(String);

impl View for Language {
    type V = Seq<char>;

    closed spec fn view(&self) -> Seq<char> {
        self.0@
    }
}

impl DeepView for Language {
    type V = Seq<char>;

    open spec fn deep_view(&self) -> Seq<char> {
        self@
    }
}

impl Language {
    /// A language tag without surrounding white space; blank text and NUL are rejected.
    pub fn new(value: &str) -> (r: Result<Self, ModelError>)
        ensures
            match r {
                Ok(l) => text_fault("language"@, text::trim(value@)) is None && l@ == text::trim(
                    value@,
                ),
                Err(e) => text_fault("language"@, text::trim(value@)) == Some(e@),
            },
    {
        let trimmed = text::trimmed(value);
        match validate_text("language", trimmed.as_str()) {
            Ok(_) => Ok(Language(trimmed)),
            Err(e) => Err(e),
        }
    }

    /// The text of the tag.
    pub fn as_str(&self) -> (r: &str)
        ensures
            r@ == self@,
    {
        self.0.as_str()
    }
}

/// A rational time base in seconds.
#[derive(Debug, Clone, Copy, PartialEq, Eq, Hash)]
pub struct TimeBase {
    numerator: u32,
    denominator: u32,
}

/// The two parts of a time base.
pub struct TimeBaseView {
    /// Seconds.
    pub numerator: u32,
    /// Ticks that take that many seconds.
    pub denominator: u32,
}

impl View for TimeBase {
    type V = TimeBaseView;

    closed spec fn view(&self) -> TimeBaseView {
        TimeBaseView { numerator: self.numerator, denominator: self.denominator }
    }
}

impl DeepView for TimeBase {
    type V = TimeBaseView;

    open spec fn deep_view(&self) -> TimeBaseView {
        self@
    }
}

impl TimeBase {
    #[verifier::type_invariant]
    pub open spec fn positive(self) -> bool {
        self@.numerator > 0 && self@.denominator > 0
    }

    /// A time base; a zero part is rejected.
    pub fn new(numerator: u32, denominator: u32) -> (r: Result<Self, ModelError>)
        ensures
            match r {
                Ok(t) => numerator > 0 && denominator > 0 && t@ == (TimeBaseView {
                    numerator,
                    denominator,
                }),
                Err(e) => (numerator == 0 || denominator == 0) && e@
                    == ModelErrorView::InvalidTimeBase,
            },
    {
        if numerator == 0 || denominator == 0 {
            Err(ModelError::InvalidTimeBase)
        } else {
            Ok(TimeBase { numerator, denominator })
        }
    }

    /// The numerator.
    pub fn numerator(self) -> (r: u32)
        ensures
            r == self@.numerator,
            r > 0,
    {
        proof {
            use_type_invariant(&self);
        }
        self.numerator
    }

    /// The denominator.
    pub fn denominator(self) -> (r: u32)
        ensures
            r == self@.denominator,
            r > 0,
    {
        proof {
            use_type_invariant(&self);
        }
        self.denominator
    }
}

/// A timestamp in ticks of a time base.
#[derive(Debug, Clone, Copy, PartialEq, Eq, Hash)]
pub struct MediaTimestamp {
    ticks: i64,
    time_base: TimeBase,
}

/// The ticks and the time base of a timestamp.
pub struct TimestampView {
    /// Number of ticks.
    pub ticks: i64,
    /// Length of one tick.
    pub time_base: TimeBaseView,
}

impl View for MediaTimestamp {
    type V = TimestampView;

    closed spec fn view(&self) -> TimestampView {
        TimestampView { ticks: self.ticks, time_base: self.time_base@ }
    }
}

impl DeepView for MediaTimestamp {
    type V = TimestampView;

    open spec fn deep_view(&self) -> TimestampView {
        self@
    }
}

impl MediaTimestamp {
    /// A timestamp of the given ticks.
    pub fn new(ticks: i64, time_base: TimeBase) -> (r: Self)
        ensures
            r@ == (TimestampView { ticks, time_base: time_base@ }),
    {
        MediaTimestamp { ticks, time_base }
    }

    /// The number of ticks.
    pub fn ticks(self) -> (r: i64)
        ensures
            r == self@.ticks,
    {
        self.ticks
    }

    /// The time base of the ticks.
    pub fn time_base(self) -> (r: TimeBase)
        ensures
            r@ == self@.time_base,
    {
        self.time_base
    }
}

/// A duration in microseconds.
#[derive(Debug, Clone, Copy, PartialEq, Eq, PartialOrd, Ord, Hash)]
pub struct DurationMicros(u64);

impl View for DurationMicros {
    type V = u64;

    closed spec fn view(&self) -> u64 {
        self.0
    }
}

impl DeepView for DurationMicros {
    type V = u64;

    open spec fn deep_view(&self) -> u64 {
        self@
    }
}

impl DurationMicros {
    /// A duration of the given microseconds.
    pub fn new(value: u64) -> (r: Self)
        ensures
            r@ == value,
    {
        DurationMicros(value)
    }

    /// The number of microseconds.
    pub fn get(self) -> (r: u64)
        ensures
            r == self@,
    {
        self.0
    }
}

/// Start and duration of a stream in its time base.
#[derive(Debug, Clone, Copy, PartialEq, Eq)]
pub struct StreamTiming {
    start: Option<MediaTimestamp>,
    duration_ticks: Option<i64>,
}

/// Start and duration of a stream.
pub struct StreamTimingView {
    /// First presentation timestamp.
    pub start: Option<TimestampView>,
    /// Duration in ticks.
    pub duration_ticks: Option<i64>,
}

impl View for StreamTiming {
    type V = StreamTimingView;

    closed spec fn view(&self) -> StreamTimingView {
        StreamTimingView { start: self.start.deep_view(), duration_ticks: self.duration_ticks }
    }
}

impl Default for StreamTiming {
    fn default() -> (r: Self)
        ensures
            r@ == (StreamTimingView { start: None, duration_ticks: None }),
    {
        StreamTiming { start: None, duration_ticks: None }
    }
}

impl StreamTiming {
    /// A timing of the given start and duration.
    pub fn new(start: Option<MediaTimestamp>, duration_ticks: Option<i64>) -> (r: Self)
        ensures
            r@ == (StreamTimingView { start: start.deep_view(), duration_ticks }),
    {
        StreamTiming { start, duration_ticks }
    }

    /// The first presentation timestamp.
    pub fn start(&self) -> (r: Option<MediaTimestamp>)
        ensures
            r.deep_view() == self@.start,
    {
        self.start
    }

    /// The duration in ticks.
    pub fn duration_ticks(&self) -> (r: Option<i64>)
        ensures
            r == self@.duration_ticks,
    {
        self.duration_ticks
    }
}

/// Metadata: texts under text keys.
pub type MetadataView = Map<Seq<char>, Seq<char>>;

/// What is wrong with one metadata entry.
pub open spec fn entry_fault(key: Seq<char>, value: Seq<char>) -> Option<ModelErrorView> {
    if text_fault("metadata key"@, key) is Some {
        text_fault("metadata key"@, key)
    } else if value.contains('\0') {
        Some(
            ModelErrorView::InvalidText {
                field: "metadata value"@,
                reason: "contains a NUL character"@,
            },
        )
    } else {
        None
    }
}

/// What is wrong with the first faulty entry.
pub open spec fn entries_fault(pairs: Seq<(Seq<char>, Seq<char>)>) -> Option<ModelErrorView>
    decreases pairs.len(),
{
    if pairs.len() == 0 {
        None
    } else if entries_fault(pairs.drop_last()) is Some {
        entries_fault(pairs.drop_last())
    } else {
        entry_fault(pairs.last().0, pairs.last().1)
    }
}

/// Whether every entry of the metadata is sound.
pub open spec fn metadata_sound(m: MetadataView) -> bool {
    forall|k: Seq<char>| #[trigger] m.dom().contains(k) ==> entry_fault(k, m[k]) is None
}

/// Entries without a fault make sound metadata, and only those do.
pub proof fn lemma_entries_sound(pairs: Seq<(Seq<char>, Seq<char>)>)
    requires
        table::ascending(pairs),
    ensures
        entries_fault(pairs) is None <==> metadata_sound(table::to_map(pairs)),
{
    lemma_entries_fault(pairs);
    let m = table::to_map(pairs);
    if entries_fault(pairs) is None {
        assert forall|k: Seq<char>| #[trigger] m.dom().contains(k) implies entry_fault(
            k,
            m[k],
        ) is None by {
            let i = table::key_index(pairs, k);
            assert(entry_fault(pairs[i].0, pairs[i].1) is None);
        }
    } else {
        let i = choose|i: int|
            0 <= i < pairs.len() && entry_fault(#[trigger] pairs[i].0, pairs[i].1) is Some;
        table::lemma_key_index(pairs, i);
        assert(m.dom().contains(pairs[i].0));
    }
}

proof fn lemma_entries_fault(pairs: Seq<(Seq<char>, Seq<char>)>)
    ensures
        entries_fault(pairs) is None <==> forall|i: int|
            0 <= i < pairs.len() ==> entry_fault(#[trigger] pairs[i].0, pairs[i].1) is None,
    decreases pairs.len(),
{
    if pairs.len() > 0 {
        let rest = pairs.drop_last();
        lemma_entries_fault(rest);
        if entries_fault(pairs) is None {
            assert forall|i: int| 0 <= i < pairs.len() implies entry_fault(
                #[trigger] pairs[i].0,
                pairs[i].1,
            ) is None by {
                if i < rest.len() {
                    assert(rest[i] == pairs[i]);
                }
            }
        } else if entries_fault(rest) is Some {
            let i = choose|i: int|
                0 <= i < rest.len() && entry_fault(#[trigger] rest[i].0, rest[i].1) is Some;
            assert(pairs[i] == rest[i]);
        } else {
            assert(entry_fault(pairs[pairs.len() - 1].0, pairs[pairs.len() - 1].1) is Some);
        }
    }
}

/// Validated metadata in ascending order of its keys.
#[derive(Debug, PartialEq, Eq)]
pub struct Metadata {
    values: TextMap<String>,
}

impl View for Metadata {
    type V = MetadataView;

    closed spec fn view(&self) -> MetadataView {
        self.values@
    }
}

impl Clone for Metadata {
    fn clone(&self) -> (r: Self)
        ensures
            r@ == self@,
    {
        proof {
            use_type_invariant(self);
        }
        Metadata { values: self.values.clone() }
    }
}

impl Default for Metadata {
    fn default() -> (r: Self)
        ensures
            r@ == Map::<Seq<char>, Seq<char>>::empty(),
    {
        Metadata { values: TextMap::new() }
    }
}

impl Metadata {
    #[verifier::type_invariant]
    pub open spec fn sound(self) -> bool {
        metadata_sound(self@)
    }

    spec fn pairs(&self) -> Seq<(Seq<char>, Seq<char>)> {
        self.values.pairs()
    }

    /// Metadata of the given entries; blank keys and NUL characters are rejected, and the error is
    /// that of the first faulty entry in ascending order of the keys.
    pub fn new(values: TextMap<String>) -> (r: Result<Self, ModelError>)
        ensures
            match r {
                Ok(m) => metadata_sound(values@) && m@ == values@,
                Err(e) => !metadata_sound(values@) && entries_fault(table::listing(values@))
                    == Some(e@),
            },
    {
        values.order();
        proof {
            lemma_entries_sound(values.pairs());
        }
        let mut i: usize = 0;
        while i < values.len()
            invariant
                i <= values.pairs().len(),
                values.pairs() == table::listing(values@),
                entries_fault(values.pairs().take(i as int)) is None,
                table::ascending(values.pairs()),
                entries_fault(values.pairs()) is None <==> metadata_sound(values@),
            decreases values.pairs().len() - i,
        {
            let ghost pairs = values.pairs();
            proof {
                assert(pairs.take(i + 1).drop_last() == pairs.take(i as int));
                assert(pairs.take(i + 1).last() == pairs[i as int]);
            }
            match validate_entry(values.key_at(i), values.value_at(i).as_str()) {
                Ok(_) => {},
                Err(e) => {
                    proof {
                        lemma_first_fault(pairs, i + 1);
                    }
                    return Err(e);
                },
            }
            i = i + 1;
        }
        proof {
            assert(values.pairs().take(i as int) == values.pairs());
        }
        Ok(Metadata { values })
    }

    /// The value under a key.
    pub fn get(&self, key: &str) -> (r: Option<&str>)
        ensures
            r.deep_view() == lookup(self@, key@),
    {
        match self.values.get(key) {
            Some(value) => Some(value.as_str()),
            None => None,
        }
    }

    /// The language tag, where there is a valid one.
    pub fn language(&self) -> (r: Option<Language>)
        ensures
            r.deep_view() == language_of(self@),
    {
        match self.get("language") {
            Some(value) => match Language::new(value) {
                Ok(language) => Some(language),
                Err(_) => None,
            },
            None => None,
        }
    }

    /// The title.
    pub fn title(&self) -> (r: Option<&str>)
        ensures
            r.deep_view() == lookup(self@, "title"@),
    {
        self.get("title")
    }

    /// Stores a value under a key and gives the value that stood there; a blank key and NUL
    /// characters are rejected.
    pub fn insert(&mut self, key: &str, value: &str) -> (r: Result<Option<String>, ModelError>)
        ensures
            match r {
                Ok(previous) => entry_fault(key@, value@) is None && final(self)@ == old(
                    self,
                )@.insert(key@, value@) && previous.deep_view() == lookup(old(self)@, key@),
                Err(e) => entry_fault(key@, value@) == Some(e@) && final(self)@ == old(self)@,
            },
    {
        proof {
            use_type_invariant(&*self);
        }
        match validate_entry(key, value) {
            Ok(_) => {},
            Err(e) => {
                return Err(e);
            },
        }
        let previous: Option<String> = match self.values.get(key) {
            Some(v) => Some(v.clone()),
            None => None,
        };
        let mut values: TextMap<String> = TextMap::new();
        std::mem::swap(&mut values, &mut self.values);
        values.insert(key.to_owned(), value.to_owned());
        self.values = values;
        Ok(previous)
    }

    /// The keys and values in ascending order of the keys.
    pub fn iter(&self) -> (r: Vec<(&str, &str)>)
        ensures
            r.deep_view() == table::listing(self@),
            table::ascending(table::listing(self@)),
            table::to_map(table::listing(self@)) == self@,
    {
        self.values.order();
        let mut out: Vec<(&str, &str)> = Vec::new();
        let mut i: usize = 0;
        while i < self.values.len()
            invariant
                i <= self.pairs().len(),
                out.deep_view() == self.pairs().take(i as int),
            decreases self.pairs().len() - i,
        {
            let ghost before = out;
            let key = self.values.key_at(i);
            let value = self.values.value_at(i).as_str();
            out.push((key, value));
            proof {
                assert(out.deep_view() == before.deep_view().push(self.pairs()[i as int]));
            }
            i = i + 1;
        }
        proof {
            assert(self.pairs().take(i as int) == self.pairs());
        }
        out
    }
}

/// The value under a key, where there is one.
pub open spec fn lookup<T>(m: Map<Seq<char>, T>, key: Seq<char>) -> Option<T> {
    if m.dom().contains(key) {
        Some(m[key])
    } else {
        None
    }
}

/// The language tag of metadata, where there is a valid one.
pub open spec fn language_of(m: MetadataView) -> Option<Seq<char>> {
    match lookup(m, "language"@) {
        Some(value) => if text_fault("language"@, text::trim(value)) is None {
            Some(text::trim(value))
        } else {
            None
        },
        None => None,
    }
}

proof fn lemma_first_fault(pairs: Seq<(Seq<char>, Seq<char>)>, i: int)
    requires
        0 <= i <= pairs.len(),
        entries_fault(pairs.take(i)) is Some,
    ensures
        entries_fault(pairs) == entries_fault(pairs.take(i)),
    decreases pairs.len() - i,
{
    if i < pairs.len() {
        assert(pairs.take(i + 1).drop_last() == pairs.take(i));
        lemma_first_fault(pairs, i + 1);
    } else {
        assert(pairs.take(i) == pairs);
    }
}

fn validate_entry(key: &str, value: &str) -> (r: Result<(), ModelError>)
    ensures
        match r {
            Ok(_) => entry_fault(key@, value@) is None,
            Err(e) => entry_fault(key@, value@) == Some(e@),
        },
{
    match validate_text("metadata key", key) {
        Ok(_) => {},
        Err(e) => {
            return Err(e);
        },
    }
    if text::has_char(value, '\0') {
        return Err(
            ModelError::InvalidText {
                field: "metadata value",
                reason: "contains a NUL character",
            },
        );
    }
    Ok(())
}

} // verus!
