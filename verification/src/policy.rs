//! Which audio a playback device accepts.
use vstd::prelude::*;

use crate::model::ChannelCount;
use crate::stream::{
    AudioCodec, AudioCodecFamily, AudioStream, AudioStreamView,
};
use crate::table;
use crate::table::{Place, TextSet};
use crate::text;

verus! {

/// The name of a device profile.
#[derive(Debug, PartialEq, Eq, PartialOrd, Ord, Hash)]
#[non_exhaustive]
pub enum ProfileName {
    /// Any television.
    GenericTv,
    /// Samsung televisions.
    Samsung,
    /// LG televisions.
    Lg,
    /// DLNA renderers.
    Dlna,
    /// A profile of the user.
    Custom(String),
}

/// The name of a device profile.
pub enum ProfileNameView {
    /// Any television.
    GenericTv,
    /// Samsung televisions.
    Samsung,
    /// LG televisions.
    Lg,
    /// DLNA renderers.
    Dlna,
    /// A profile of the user.
    Custom(Seq<char>),
}

impl View for ProfileName {
    type V = ProfileNameView;

    open spec fn view(&self) -> ProfileNameView {
        match *self {
            ProfileName::GenericTv => ProfileNameView::GenericTv,
            ProfileName::Samsung => ProfileNameView::Samsung,
            ProfileName::Lg => ProfileNameView::Lg,
            ProfileName::Dlna => ProfileNameView::Dlna,
            ProfileName::Custom(value) => ProfileNameView::Custom(value@),
        }
    }
}

impl Clone for ProfileName {
    fn clone(&self) -> (r: Self)
        ensures
            r@ == self@,
    {
        match self {
            ProfileName::GenericTv => ProfileName::GenericTv,
            ProfileName::Samsung => ProfileName::Samsung,
            ProfileName::Lg => ProfileName::Lg,
            ProfileName::Dlna => ProfileName::Dlna,
            ProfileName::Custom(value) => ProfileName::Custom(value.clone()),
        }
    }
}

impl ProfileNameView {
    /// The description of a profile that is made for this name.
    pub open spec fn description(self) -> Seq<char> {
        match self {
            ProfileNameView::GenericTv => "conservative generic television baseline"@,
            ProfileNameView::Samsung => "conservative Samsung baseline; model support varies"@,
            ProfileNameView::Lg => "conservative LG baseline; model support varies"@,
            ProfileNameView::Dlna => "conservative DLNA baseline; renderer support varies"@,
            ProfileNameView::Custom(value) => value,
        }
    }

    /// Whether a profile that is made for this name is a deliberately conservative baseline.
    pub open spec fn is_baseline(self) -> bool {
        self is Samsung || self is Lg || self is Dlna
    }
}

/// What to do with an audio codec that is not known at all.
#[derive(Debug, Clone, Copy, PartialEq, Eq, Structural)]
#[non_exhaustive]
pub enum UnknownCodecBehavior {
    /// Refuse to plan.
    Reject,
    /// Let the backend try to decode it.
    TranscodeWithFallback,
}

/// What a device accepts of one codec family.
#[derive(Debug, PartialEq, Eq)]
pub struct CodecRule {
    maximum_channels: Option<ChannelCount>,
    allowed_layouts: Option<TextSet>,
}

/// What a device accepts of one codec family.
pub struct CodecRuleView {
    /// Most channels.
    pub maximum_channels: Option<u16>,
    /// The only layouts.
    pub allowed_layouts: Option<Set<Seq<char>>>,
}

impl View for CodecRule {
    type V = CodecRuleView;

    closed spec fn view(&self) -> CodecRuleView {
        CodecRuleView {
            maximum_channels: self.maximum_channels.deep_view(),
            allowed_layouts: self.allowed_layouts.deep_view(),
        }
    }
}

impl Clone for CodecRule {
    fn clone(&self) -> (r: Self)
        ensures
            r@ == self@,
    {
        CodecRule {
            maximum_channels: self.maximum_channels,
            allowed_layouts: match &self.allowed_layouts {
                Some(set) => Some(set.clone()),
                None => None,
            },
        }
    }
}

impl CodecRule {
    /// A rule of the given limits.
    pub fn new(maximum_channels: Option<ChannelCount>, allowed_layouts: Option<TextSet>) -> (r: Self)
        ensures
            r@ == (CodecRuleView {
                maximum_channels: maximum_channels.deep_view(),
                allowed_layouts: allowed_layouts.deep_view(),
            }),
    {
        CodecRule { maximum_channels, allowed_layouts }
    }

    /// The most channels.
    pub fn maximum_channels(&self) -> (r: Option<ChannelCount>)
        ensures
            r.deep_view() == self@.maximum_channels,
    {
        self.maximum_channels
    }

    /// The only layouts.
    pub fn allowed_layouts(&self) -> (r: Option<&TextSet>)
        ensures
            r.deep_view() == self@.allowed_layouts,
    {
        self.allowed_layouts.as_ref()
    }
}

/// Why an audio stream is not accepted.
#[derive(Debug, PartialEq, Eq, PartialOrd, Ord)]
#[non_exhaustive]
pub enum IncompatibilityReason {
    /// The profile has no rule for the codec family.
    UnsupportedCodec(AudioCodecFamily),
    /// The stream has more channels than the profile accepts.
    TooManyChannels {
        /// Channels of the stream.
        actual: ChannelCount,
        /// Most channels that are accepted.
        maximum: ChannelCount,
    },
    /// The profile does not list the reported layout.
    UnsupportedLayout(String),
}

/// Why an audio stream is not accepted.
pub enum ReasonView {
    /// The profile has no rule for the codec family.
    UnsupportedCodec(AudioCodecFamily),
    /// The stream has more channels than the profile accepts.
    TooManyChannels { actual: u16, maximum: u16 },
    /// The profile does not list the reported layout.
    UnsupportedLayout(Seq<char>),
}

impl View for IncompatibilityReason {
    type V = ReasonView;

    open spec fn view(&self) -> ReasonView {
        match *self {
            IncompatibilityReason::UnsupportedCodec(family) => ReasonView::UnsupportedCodec(family),
            IncompatibilityReason::TooManyChannels { actual, maximum } =>
                ReasonView::TooManyChannels { actual: actual@, maximum: maximum@ },
            IncompatibilityReason::UnsupportedLayout(layout) => ReasonView::UnsupportedLayout(
                layout@,
            ),
        }
    }
}

impl DeepView for IncompatibilityReason {
    type V = ReasonView;

    open spec fn deep_view(&self) -> ReasonView {
        self@
    }
}

impl Clone for IncompatibilityReason {
    fn clone(&self) -> (r: Self)
        ensures
            r@ == self@,
    {
        match self {
            IncompatibilityReason::UnsupportedCodec(family) =>
                IncompatibilityReason::UnsupportedCodec(*family),
            IncompatibilityReason::TooManyChannels { actual, maximum } =>
                IncompatibilityReason::TooManyChannels { actual: *actual, maximum: *maximum },
            IncompatibilityReason::UnsupportedLayout(layout) =>
                IncompatibilityReason::UnsupportedLayout(layout.clone()),
        }
    }
}

/// The place of a codec family in the order of families.
pub open spec fn family_rank(family: AudioCodecFamily) -> int {
    match family {
        AudioCodecFamily::Ac3 => 0,
        AudioCodecFamily::Eac3 => 1,
        AudioCodecFamily::Aac => 2,
        AudioCodecFamily::Mp3 => 3,
        AudioCodecFamily::Dts => 4,
        AudioCodecFamily::TrueHd => 5,
        AudioCodecFamily::Flac => 6,
        AudioCodecFamily::Opus => 7,
        AudioCodecFamily::Vorbis => 8,
        AudioCodecFamily::Pcm => 9,
        AudioCodecFamily::Other => 10,
    }
}

proof fn lemma_ranks_differ()
    ensures
        forall|a: AudioCodecFamily, b: AudioCodecFamily|
            #[trigger] family_rank(a) == #[trigger] family_rank(b) ==> a == b,
{
}

fn rank_of(family: AudioCodecFamily) -> (r: u8)
    ensures
        r as int == family_rank(family),
{
    match family {
        AudioCodecFamily::Ac3 => 0,
        AudioCodecFamily::Eac3 => 1,
        AudioCodecFamily::Aac => 2,
        AudioCodecFamily::Mp3 => 3,
        AudioCodecFamily::Dts => 4,
        AudioCodecFamily::TrueHd => 5,
        AudioCodecFamily::Flac => 6,
        AudioCodecFamily::Opus => 7,
        AudioCodecFamily::Vorbis => 8,
        AudioCodecFamily::Pcm => 9,
        AudioCodecFamily::Other => 10,
    }
}

/// The order of reasons: codec, then channels, then layout, and by their contents among equals.
pub open spec fn reason_precedes(a: ReasonView, b: ReasonView) -> bool {
    match (a, b) {
        (ReasonView::UnsupportedCodec(x), ReasonView::UnsupportedCodec(y)) => family_rank(x)
            < family_rank(y),
        (ReasonView::UnsupportedCodec(_), _) => true,
        (ReasonView::TooManyChannels { .. }, ReasonView::UnsupportedCodec(_)) => false,
        (
            ReasonView::TooManyChannels { actual: a1, maximum: m1 },
            ReasonView::TooManyChannels { actual: a2, maximum: m2 },
        ) => a1 < a2 || (a1 == a2 && m1 < m2),
        (ReasonView::TooManyChannels { .. }, ReasonView::UnsupportedLayout(_)) => true,
        (ReasonView::UnsupportedLayout(x), ReasonView::UnsupportedLayout(y)) => table::precedes(
            x,
            y,
        ),
        (ReasonView::UnsupportedLayout(_), _) => false,
    }
}

fn precedes(a: &IncompatibilityReason, b: &IncompatibilityReason) -> (r: bool)
    ensures
        r == reason_precedes(a@, b@),
{
    match (a, b) {
        (
            IncompatibilityReason::UnsupportedCodec(x),
            IncompatibilityReason::UnsupportedCodec(y),
        ) => rank_of(*x) < rank_of(*y),
        (IncompatibilityReason::UnsupportedCodec(_), _) => true,
        (
            IncompatibilityReason::TooManyChannels { .. },
            IncompatibilityReason::UnsupportedCodec(_),
        ) => false,
        (
            IncompatibilityReason::TooManyChannels { actual: a1, maximum: m1 },
            IncompatibilityReason::TooManyChannels { actual: a2, maximum: m2 },
        ) => a1.get() < a2.get() || (a1.get() == a2.get() && m1.get() < m2.get()),
        (
            IncompatibilityReason::TooManyChannels { .. },
            IncompatibilityReason::UnsupportedLayout(_),
        ) => true,
        (
            IncompatibilityReason::UnsupportedLayout(x),
            IncompatibilityReason::UnsupportedLayout(y),
        ) => match table::place(x.as_str(), y.as_str()) {
            Place::Before => true,
            _ => false,
        },
        (IncompatibilityReason::UnsupportedLayout(_), _) => false,
    }
}

/// A sorted list with one more reason at its place, behind those that do not come after it.
pub open spec fn place_reason(sorted: Seq<ReasonView>, reason: ReasonView) -> Seq<ReasonView>
    decreases sorted.len(),
{
    if sorted.len() > 0 && reason_precedes(reason, sorted.last()) {
        place_reason(sorted.drop_last(), reason).push(sorted.last())
    } else {
        sorted.push(reason)
    }
}

/// The reasons in their order.
pub open spec fn sort_reasons(reasons: Seq<ReasonView>) -> Seq<ReasonView>
    decreases reasons.len(),
{
    if reasons.len() == 0 {
        seq![]
    } else {
        place_reason(sort_reasons(reasons.drop_last()), reasons.last())
    }
}

proof fn lemma_place_reason(sorted: Seq<ReasonView>, reason: ReasonView, at: int)
    requires
        0 <= at <= sorted.len(),
        forall|i: int| at <= i < sorted.len() ==> reason_precedes(reason, #[trigger] sorted[i]),
        at > 0 ==> !reason_precedes(reason, sorted[at - 1]),
    ensures
        place_reason(sorted, reason) == sorted.insert(at, reason),
    decreases sorted.len(),
{
    if at < sorted.len() {
        assert(reason_precedes(reason, sorted[sorted.len() - 1]));
        assert forall|i: int| at <= i < sorted.drop_last().len() implies reason_precedes(
            reason,
            #[trigger] sorted.drop_last()[i],
        ) by {
            assert(sorted.drop_last()[i] == sorted[i]);
        }
        lemma_place_reason(sorted.drop_last(), reason, at);
        assert(sorted.drop_last().insert(at, reason).push(sorted.last()) =~= sorted.insert(
            at,
            reason,
        ));
    } else {
        assert(sorted.insert(at, reason) =~= sorted.push(reason));
    }
}

/// Reasons that do not come before one another do so in a row.
proof fn lemma_reasons_in_a_row(a: ReasonView, b: ReasonView, c: ReasonView)
    requires
        !reason_precedes(b, a),
        !reason_precedes(c, b),
    ensures
        !reason_precedes(c, a),
{
    match (a, b, c) {
        (
            ReasonView::UnsupportedLayout(x),
            ReasonView::UnsupportedLayout(y),
            ReasonView::UnsupportedLayout(z),
        ) => {
            table::lemma_precedes_total(x, y);
            table::lemma_precedes_total(y, z);
            table::lemma_precedes_irreflexive(x);
            if table::precedes(z, x) {
                if y == z {
                } else if x == y {
                } else {
                    table::lemma_precedes_transitive(x, y, z);
                    table::lemma_precedes_transitive(x, z, x);
                }
            }
        },
        _ => {},
    }
}

/// Whether no reason comes before an earlier one.
pub open spec fn reasons_ascend(reasons: Seq<ReasonView>) -> bool {
    forall|i: int, j: int|
        0 <= i < j < reasons.len() ==> !reason_precedes(
            #[trigger] reasons[j],
            #[trigger] reasons[i],
        )
}

proof fn lemma_reason_placed(sorted: Seq<ReasonView>, reason: ReasonView)
    requires
        reasons_ascend(sorted),
    ensures
        reasons_ascend(place_reason(sorted, reason)),
        place_reason(sorted, reason).to_multiset() == sorted.to_multiset().insert(reason),
        forall|k: ReasonView| #[trigger]
            place_reason(sorted, reason).contains(k) ==> k == reason || sorted.contains(k),
    decreases sorted.len(),
{
    broadcast use vstd::seq_lib::group_to_multiset_ensures;

    let placed = place_reason(sorted, reason);
    if sorted.len() > 0 && reason_precedes(reason, sorted.last()) {
        let rest = sorted.drop_last();
        let last = sorted.last();
        assert forall|i: int, j: int| 0 <= i < j < rest.len() implies !reason_precedes(
            #[trigger] rest[j],
            #[trigger] rest[i],
        ) by {
            assert(!reason_precedes(sorted[j], sorted[i]));
        }
        lemma_reason_placed(rest, reason);
        let before = place_reason(rest, reason);
        assert(sorted =~= rest.push(last));
        assert(placed == before.push(last));
        assert(placed.to_multiset() =~= sorted.to_multiset().insert(reason));
        assert forall|k: ReasonView| #[trigger] placed.contains(k) implies k == reason
            || sorted.contains(k) by {
            let i = choose|i: int| 0 <= i < placed.len() && placed[i] == k;
            if i < before.len() {
                assert(before[i] == k);
                assert(before.contains(k));
                if rest.contains(k) {
                    let j = choose|j: int| 0 <= j < rest.len() && rest[j] == k;
                    assert(sorted[j] == k);
                }
            } else {
                assert(sorted[sorted.len() - 1] == k);
            }
        }
        assert forall|i: int, j: int| 0 <= i < j < placed.len() implies !reason_precedes(
            #[trigger] placed[j],
            #[trigger] placed[i],
        ) by {
            if j < before.len() {
                assert(!reason_precedes(before[j], before[i]));
            } else {
                assert(before.contains(before[i]));
                if before[i] == reason {
                    lemma_no_reason_both_ways(reason, last);
                } else {
                    let k = choose|k: int| 0 <= k < rest.len() && rest[k] == before[i];
                    assert(!reason_precedes(sorted[sorted.len() - 1], sorted[k]));
                }
            }
        }
    } else {
        assert(placed == sorted.push(reason));
        assert forall|i: int, j: int| 0 <= i < j < placed.len() implies !reason_precedes(
            #[trigger] placed[j],
            #[trigger] placed[i],
        ) by {
            if j < sorted.len() {
                assert(!reason_precedes(sorted[j], sorted[i]));
            } else if i < sorted.len() - 1 {
                assert(!reason_precedes(sorted[sorted.len() - 1], sorted[i]));
                lemma_reasons_in_a_row(sorted[i], sorted.last(), reason);
            }
        }
        assert forall|k: ReasonView| #[trigger] placed.contains(k) implies k == reason
            || sorted.contains(k) by {
            let i = choose|i: int| 0 <= i < placed.len() && placed[i] == k;
            if i < sorted.len() {
                assert(sorted[i] == k);
            }
        }
    }
}

proof fn lemma_no_reason_both_ways(a: ReasonView, b: ReasonView)
    requires
        reason_precedes(a, b),
    ensures
        !reason_precedes(b, a),
{
    match (a, b) {
        (ReasonView::UnsupportedLayout(x), ReasonView::UnsupportedLayout(y)) => {
            table::lemma_precedes_irreflexive(x);
            if table::precedes(y, x) {
                table::lemma_precedes_transitive(x, y, x);
            }
        },
        _ => {},
    }
}

/// Sorting reasons drops none and makes none up, and no reason comes before an earlier one.
pub proof fn law_sorted_reasons_ascend(reasons: Seq<ReasonView>)
    ensures
        reasons_ascend(sort_reasons(reasons)),
        sort_reasons(reasons).to_multiset() == reasons.to_multiset(),
    decreases reasons.len(),
{
    broadcast use vstd::seq_lib::group_to_multiset_ensures;

    if reasons.len() > 0 {
        let rest = reasons.drop_last();
        law_sorted_reasons_ascend(rest);
        lemma_reason_placed(sort_reasons(rest), reasons.last());
        assert(reasons =~= rest.push(reasons.last()));
    } else {
        assert(sort_reasons(reasons) =~= reasons);
    }
}

/// The reasons why an audio stream is not accepted, at least one, in their order.
#[derive(Debug, PartialEq, Eq)]
pub struct Incompatibilities {
    primary: IncompatibilityReason,
    additional: Vec<IncompatibilityReason>,
}

impl View for Incompatibilities {
    type V = Seq<ReasonView>;

    closed spec fn view(&self) -> Seq<ReasonView> {
        seq![self.primary@] + self.additional.deep_view()
    }
}

impl Clone for Incompatibilities {
    fn clone(&self) -> (r: Self)
        ensures
            r@ == self@,
    {
        let additional = self.additional.clone();
        proof {
            assert(additional.deep_view() =~= self.additional.deep_view());
        }
        Incompatibilities { primary: self.primary.clone(), additional }
    }
}

impl Incompatibilities {
    /// The reasons in their order, where there are any.
    fn from_reasons(reasons: Vec<IncompatibilityReason>) -> (r: Option<Self>)
        ensures
            match r {
                Some(all) => reasons@.len() > 0 && all@ == sort_reasons(reasons.deep_view()),
                None => reasons@.len() == 0,
            },
    {
        if reasons.is_empty() {
            return None;
        }
        let mut sorted: Vec<IncompatibilityReason> = Vec::new();
        let mut i: usize = 0;
        proof {
            assert(sorted.deep_view() =~= seq![]);
        }
        while i < reasons.len()
            invariant
                i <= reasons@.len(),
                sorted@.len() == i,
                sorted.deep_view() == sort_reasons(reasons.deep_view().take(i as int)),
            decreases reasons@.len() - i,
        {
            let reason = reasons[i].clone();
            let mut at: usize = sorted.len();
            while at > 0 && precedes(&reason, &sorted[at - 1])
                invariant
                    at <= sorted@.len(),
                    forall|j: int|
                        at <= j < sorted@.len() ==> reason_precedes(
                            reason@,
                            #[trigger] sorted.deep_view()[j],
                        ),
                decreases at,
            {
                proof {
                    assert(sorted.deep_view()[at - 1] == sorted@[at - 1]@);
                }
                at = at - 1;
            }
            let ghost before = sorted;
            proof {
                if at > 0 {
                    assert(sorted.deep_view()[at - 1] == sorted@[at - 1]@);
                }
                lemma_place_reason(sorted.deep_view(), reason@, at as int);
                let all = reasons.deep_view();
                assert(all.take(i + 1).drop_last() == all.take(i as int));
                assert(all.take(i + 1).last() == reason@);
            }
            sorted.insert(at, reason);
            proof {
                assert(sorted.deep_view() =~= before.deep_view().insert(at as int, reason@));
            }
            i = i + 1;
        }
        proof {
            assert(reasons.deep_view().take(i as int) == reasons.deep_view());
        }
        let ghost all = sorted.deep_view();
        let primary = sorted.remove(0);
        proof {
            assert(seq![primary@] + sorted.deep_view() =~= all);
        }
        Some(Incompatibilities { primary, additional: sorted })
    }

    /// The first reason.
    pub fn primary(&self) -> (r: &IncompatibilityReason)
        ensures
            r@ == self@[0],
            self@.len() > 0,
    {
        &self.primary
    }

    /// Every reason in order.
    pub fn iter(&self) -> (r: Vec<&IncompatibilityReason>)
        ensures
            r.deep_view() == self@,
    {
        let mut out: Vec<&IncompatibilityReason> = Vec::new();
        out.push(&self.primary);
        let mut i: usize = 0;
        proof {
            assert(out.deep_view() =~= self@.take(1));
        }
        while i < self.additional.len()
            invariant
                i <= self.additional@.len(),
                self@.len() == self.additional@.len() + 1,
                out.deep_view() == self@.take(i + 1),
            decreases self.additional@.len() - i,
        {
            let ghost before = out;
            out.push(&self.additional[i]);
            proof {
                assert(self@[i + 1] == self.additional@[i as int]@);
                assert(out.deep_view() =~= before.deep_view().push(self@[i + 1]));
                assert(self@.take(i + 2) =~= self@.take(i + 1).push(self@[i + 1]));
            }
            i = i + 1;
        }
        proof {
            assert(self@.take(i + 1) == self@);
        }
        out
    }
}

/// Whether an audio stream is accepted.
#[derive(Debug, PartialEq, Eq)]
#[non_exhaustive]
pub enum Compatibility {
    /// The stream is accepted as it is.
    Compatible,
    /// The stream is not accepted.
    Incompatible(Incompatibilities),
}

/// Whether an audio stream is accepted.
pub enum CompatibilityView {
    /// The stream is accepted as it is.
    Compatible,
    /// The stream is not accepted.
    Incompatible(Seq<ReasonView>),
}

impl View for Compatibility {
    type V = CompatibilityView;

    open spec fn view(&self) -> CompatibilityView {
        match *self {
            Compatibility::Compatible => CompatibilityView::Compatible,
            Compatibility::Incompatible(reasons) => CompatibilityView::Incompatible(reasons@),
        }
    }
}

impl DeepView for Compatibility {
    type V = CompatibilityView;

    open spec fn deep_view(&self) -> CompatibilityView {
        self@
    }
}

impl Compatibility {
    /// Whether the stream is accepted as it is.
    pub fn is_compatible(&self) -> (r: bool)
        ensures
            r == (self@ is Compatible),
    {
        match self {
            Compatibility::Compatible => true,
            Compatibility::Incompatible(_) => false,
        }
    }
}

/// Why a policy could not be evaluated.
#[derive(Debug, PartialEq, Eq)]
#[non_exhaustive]
pub enum PolicyError {
    /// The codec is not known and the profile does not let the backend try it.
    UnknownCodec {
        /// Codec name as probed.
        codec: String,
    },
}

/// Why a policy could not be evaluated.
pub enum PolicyErrorView {
    /// The codec is not known and the profile does not let the backend try it.
    UnknownCodec { codec: Seq<char> },
}

impl View for PolicyError {
    type V = PolicyErrorView;

    open spec fn view(&self) -> PolicyErrorView {
        match *self {
            PolicyError::UnknownCodec { codec } => PolicyErrorView::UnknownCodec { codec: codec@ },
        }
    }
}

impl PolicyErrorView {
    /// The user-facing description.
    pub open spec fn message(self) -> Seq<char> {
        match self {
            PolicyErrorView::UnknownCodec { codec } => "unknown audio codec `"@ + codec
                + "` is not allowed by this profile"@,
        }
    }
}

impl PolicyError {
    /// The user-facing description.
    pub fn message(&self) -> (r: String)
        ensures
            r@ == self@.message(),
    {
        match self {
            PolicyError::UnknownCodec { codec } => text::concat3(
                "unknown audio codec `",
                codec.as_str(),
                "` is not allowed by this profile",
            ),
        }
    }
}

/// The rules by codec family.
pub type RulesView = Map<AudioCodecFamily, CodecRuleView>;

/// The rules of a list, the first for each family.
pub open spec fn rules_map(rules: Seq<(AudioCodecFamily, CodecRule)>) -> RulesView {
    Map::new(
        |f: AudioCodecFamily| has_rule(rules, f),
        |f: AudioCodecFamily| rules[rule_index(rules, f)].1@,
    )
}

/// Whether the list has a rule for the family.
pub open spec fn has_rule(rules: Seq<(AudioCodecFamily, CodecRule)>, f: AudioCodecFamily) -> bool {
    exists|i: int| 0 <= i < rules.len() && #[trigger] rules[i].0 == f
}

/// The position of a rule for the family.
pub open spec fn rule_index(rules: Seq<(AudioCodecFamily, CodecRule)>, f: AudioCodecFamily) -> int {
    choose|i: int| 0 <= i < rules.len() && #[trigger] rules[i].0 == f
}

/// The rules by which source audio is classified. The rules stand in the order of their families,
/// so that policies with the same rules are equal, however they came about.
#[derive(Debug, PartialEq, Eq)]
pub struct CompatibilityPolicy {
    name: ProfileName,
    description: String,
    conservative_baseline: bool,
    rules: Vec<(AudioCodecFamily, CodecRule)>,
    unknown_codec: UnknownCodecBehavior,
}

/// The rules by which source audio is classified.
pub struct PolicyView {
    /// Name of the profile.
    pub name: ProfileNameView,
    /// Description of the profile.
    pub description: Seq<char>,
    /// Whether it is a deliberately conservative baseline.
    pub conservative_baseline: bool,
    /// Rules by codec family.
    pub rules: RulesView,
    /// What to do with codecs that are not known.
    pub unknown_codec: UnknownCodecBehavior,
}

impl View for CompatibilityPolicy {
    type V = PolicyView;

    closed spec fn view(&self) -> PolicyView {
        PolicyView {
            name: self.name@,
            description: self.description@,
            conservative_baseline: self.conservative_baseline,
            rules: rules_map(self.rules@),
            unknown_codec: self.unknown_codec,
        }
    }
}

/// The rules of every built-in profile.
pub open spec fn baseline_rules() -> RulesView {
    map![
        AudioCodecFamily::Ac3 => CodecRuleView { maximum_channels: Some(6u16), allowed_layouts: None },
        AudioCodecFamily::Aac => CodecRuleView { maximum_channels: Some(2u16), allowed_layouts: None },
        AudioCodecFamily::Mp3 => CodecRuleView { maximum_channels: Some(2u16), allowed_layouts: None },
    ]
}

/// What speaks against a stream under the rule for its family.
pub open spec fn rule_reasons(rule: CodecRuleView, stream: AudioStreamView) -> Seq<ReasonView> {
    let too_many = match rule.maximum_channels {
        Some(maximum) => if stream.channels.count > maximum {
            seq![ReasonView::TooManyChannels { actual: stream.channels.count, maximum }]
        } else {
            seq![]
        },
        None => seq![],
    };
    let layout = match (rule.allowed_layouts, stream.channels.layout_name) {
        (Some(allowed), Some(name)) => if !allowed.contains(name) {
            seq![ReasonView::UnsupportedLayout(name)]
        } else {
            seq![]
        },
        _ => seq![],
    };
    too_many + layout
}

impl PolicyView {
    /// Whether a stream is accepted, or why that cannot be told.
    pub open spec fn classify(self, stream: AudioStreamView) -> Result<
        CompatibilityView,
        PolicyErrorView,
    > {
        let family = stream.codec.family();
        if stream.codec is Other && self.unknown_codec is Reject {
            Err(PolicyErrorView::UnknownCodec { codec: stream.codec->Other_0 })
        } else if !self.rules.dom().contains(family) {
            Ok(CompatibilityView::Incompatible(seq![ReasonView::UnsupportedCodec(family)]))
        } else if rule_reasons(self.rules[family], stream).len() > 0 {
            Ok(CompatibilityView::Incompatible(rule_reasons(self.rules[family], stream)))
        } else {
            Ok(CompatibilityView::Compatible)
        }
    }
}

proof fn lemma_rules_unique(rules: Seq<(AudioCodecFamily, CodecRule)>, i: int)
    requires
        families_ascend(rules),
        0 <= i < rules.len(),
    ensures
        has_rule(rules, rules[i].0),
        rule_index(rules, rules[i].0) == i,
        rules_map(rules)[rules[i].0] == rules[i].1@,
{
}

/// Whether the rules ascend by their families, of which none has two rules.
pub open spec fn families_ascend(rules: Seq<(AudioCodecFamily, CodecRule)>) -> bool {
    forall|i: int, j: int|
        0 <= i < j < rules.len() ==> family_rank(#[trigger] rules[i].0) < family_rank(
            #[trigger] rules[j].0,
        )
}

impl Clone for CompatibilityPolicy {
    fn clone(&self) -> (r: Self)
        ensures
            r@ == self@,
    {
        proof {
            use_type_invariant(self);
        }
        let mut rules: Vec<(AudioCodecFamily, CodecRule)> = Vec::new();
        let mut i: usize = 0;
        while i < self.rules.len()
            invariant
                i <= self.rules@.len(),
                rules@.len() == i,
                forall|j: int|
                    0 <= j < i ==> (#[trigger] rules@[j]).0 == self.rules@[j].0 && rules@[j].1@
                        == self.rules@[j].1@,
            decreases self.rules@.len() - i,
        {
            rules.push((self.rules[i].0, self.rules[i].1.clone()));
            i = i + 1;
        }
        proof {
            assert(families_ascend(rules@)) by {
                assert forall|a: int, b: int| 0 <= a < b < rules@.len() implies family_rank(
                    #[trigger] rules@[a].0,
                ) < family_rank(#[trigger] rules@[b].0) by {
                    assert(family_rank(self.rules@[a].0) < family_rank(self.rules@[b].0));
                }
            }
            lemma_same_rules(self.rules@, rules@);
        }
        CompatibilityPolicy {
            name: self.name.clone(),
            description: self.description.clone(),
            conservative_baseline: self.conservative_baseline,
            rules,
            unknown_codec: self.unknown_codec,
        }
    }
}

proof fn lemma_same_rules(
    a: Seq<(AudioCodecFamily, CodecRule)>,
    b: Seq<(AudioCodecFamily, CodecRule)>,
)
    requires
        families_ascend(a),
        families_ascend(b),
        a.len() == b.len(),
        forall|j: int| 0 <= j < a.len() ==> (#[trigger] b[j]).0 == a[j].0 && b[j].1@ == a[j].1@,
    ensures
        rules_map(a) == rules_map(b),
{
    assert forall|f: AudioCodecFamily| has_rule(a, f) == has_rule(b, f) by {
        if has_rule(a, f) {
            assert(b[rule_index(a, f)].0 == f);
        }
        if has_rule(b, f) {
            assert(a[rule_index(b, f)].0 == f);
        }
    }
    assert forall|f: AudioCodecFamily| has_rule(a, f) implies rules_map(a)[f] == rules_map(b)[f] by {
        let i = rule_index(a, f);
        assert(b[i].0 == f);
        lemma_rules_unique(b, i);
    }
    assert(rules_map(a) =~= rules_map(b));
}

/// A rule that takes the place of an earlier one for its family.
proof fn lemma_rule_replaced(
    before: Seq<(AudioCodecFamily, CodecRule)>,
    at: int,
    family: AudioCodecFamily,
    rule: CodecRule,
)
    requires
        families_ascend(before),
        0 <= at < before.len(),
        before[at].0 == family,
    ensures
        families_ascend(before.update(at, (family, rule))),
        rules_map(before.update(at, (family, rule))) == rules_map(before).insert(family, rule@),
{
    let after = before.update(at, (family, rule));
    assert forall|i: int| 0 <= i < after.len() implies #[trigger] after[i].0 == before[i].0 by {}
    assert(families_ascend(after));
    lemma_rules_unique(after, at);
    assert forall|f: AudioCodecFamily| has_rule(after, f) <==> has_rule(before, f) by {
        if has_rule(after, f) {
            assert(before[rule_index(after, f)].0 == f);
        }
        if has_rule(before, f) {
            assert(after[rule_index(before, f)].0 == f);
        }
    }
    assert forall|f: AudioCodecFamily| has_rule(before, f) && f != family implies rules_map(
        after,
    )[f] == rules_map(before)[f] by {
        let i = rule_index(before, f);
        assert(after[i] == before[i]);
        lemma_rules_unique(after, i);
    }
    assert(rules_map(after) =~= rules_map(before).insert(family, rule@));
}

/// A rule that comes in between for a family that had none.
proof fn lemma_rule_inserted(
    before: Seq<(AudioCodecFamily, CodecRule)>,
    at: int,
    family: AudioCodecFamily,
    rule: CodecRule,
)
    requires
        families_ascend(before),
        0 <= at <= before.len(),
        forall|j: int| 0 <= j < at ==> family_rank(#[trigger] before[j].0) < family_rank(family),
        forall|j: int|
            at <= j < before.len() ==> family_rank(family) < family_rank(#[trigger] before[j].0),
    ensures
        families_ascend(before.insert(at, (family, rule))),
        rules_map(before.insert(at, (family, rule))) == rules_map(before).insert(family, rule@),
{
    let after = before.insert(at, (family, rule));
    assert(after[at] == (family, rule));
    assert forall|i: int| 0 <= i < at implies #[trigger] after[i] == before[i] by {}
    assert forall|i: int| at < i < after.len() implies #[trigger] after[i] == before[i - 1] by {}
    assert forall|i: int, j: int| 0 <= i < j < after.len() implies family_rank(
        #[trigger] after[i].0,
    ) < family_rank(#[trigger] after[j].0) by {
        if j < at {
            assert(family_rank(before[i].0) < family_rank(before[j].0));
        } else if i > at {
            assert(family_rank(before[i - 1].0) < family_rank(before[j - 1].0));
        } else if i < at && j > at {
            assert(family_rank(before[i].0) < family_rank(before[j - 1].0));
        }
    }
    lemma_rules_unique(after, at);
    assert forall|f: AudioCodecFamily| f != family implies has_rule(after, f) == has_rule(
        before,
        f,
    ) by {
        if has_rule(after, f) {
            let i = rule_index(after, f);
            if i < at {
                assert(before[i].0 == f);
            } else {
                assert(before[i - 1].0 == f);
            }
        }
        if has_rule(before, f) {
            let i = rule_index(before, f);
            if i < at {
                assert(after[i].0 == f);
            } else {
                assert(after[i + 1].0 == f);
            }
        }
    }
    assert forall|f: AudioCodecFamily| has_rule(before, f) && f != family implies rules_map(
        after,
    )[f] == rules_map(before)[f] by {
        let i = rule_index(before, f);
        let k = if i < at { i } else { i + 1 };
        assert(after[k] == before[i]);
        lemma_rules_unique(after, k);
    }
    assert(rules_map(after) =~= rules_map(before).insert(family, rule@));
}

impl CompatibilityPolicy {
    /// The rules stand in the order of their families.
    #[verifier::type_invariant]
    spec fn ordered(self) -> bool {
        families_ascend(self.rules@)
    }

    /// The profile of the given name with the built-in rules.
    pub fn for_profile(name: ProfileName) -> (r: Self)
        ensures
            r@ == (PolicyView {
                name: name@,
                description: name@.description(),
                conservative_baseline: name@.is_baseline(),
                rules: baseline_rules(),
                unknown_codec: UnknownCodecBehavior::Reject,
            }),
    {
        let surround: Option<ChannelCount> = match ChannelCount::new(6) {
            Ok(count) => Some(count),
            Err(_) => None,
        };
        let stereo: Option<ChannelCount> = match ChannelCount::new(2) {
            Ok(count) => Some(count),
            Err(_) => None,
        };
        let mut rules: Vec<(AudioCodecFamily, CodecRule)> = Vec::new();
        rules.push((AudioCodecFamily::Ac3, CodecRule::new(surround, None)));
        rules.push((AudioCodecFamily::Aac, CodecRule::new(stereo, None)));
        rules.push((AudioCodecFamily::Mp3, CodecRule::new(stereo, None)));
        proof {
            assert(families_ascend(rules@));
            lemma_rules_unique(rules@, 0);
            lemma_rules_unique(rules@, 1);
            lemma_rules_unique(rules@, 2);
            assert forall|f: AudioCodecFamily| has_rule(rules@, f) <==> baseline_rules().dom().contains(
                f,
            ) by {
                if has_rule(rules@, f) {
                    let i = rule_index(rules@, f);
                    assert(i == 0 || i == 1 || i == 2);
                }
            }
            assert(rules_map(rules@) =~= baseline_rules());
        }
        let (description, conservative_baseline) = match &name {
            ProfileName::GenericTv => ("conservative generic television baseline".to_owned(), false),
            ProfileName::Samsung => (
                "conservative Samsung baseline; model support varies".to_owned(),
                true,
            ),
            ProfileName::Lg => (
                "conservative LG baseline; model support varies".to_owned(),
                true,
            ),
            ProfileName::Dlna => (
                "conservative DLNA baseline; renderer support varies".to_owned(),
                true,
            ),
            ProfileName::Custom(value) => (value.clone(), false),
        };
        CompatibilityPolicy {
            name,
            description,
            conservative_baseline,
            rules,
            unknown_codec: UnknownCodecBehavior::Reject,
        }
    }

    /// The position of the first rule whose family does not come before this one.
    fn find_rule(&self, family: AudioCodecFamily) -> (r: usize)
        ensures
            r <= self.rules@.len(),
            forall|j: int|
                0 <= j < r ==> family_rank(#[trigger] self.rules@[j].0) < family_rank(family),
            forall|j: int|
                r <= j < self.rules@.len() && #[trigger] self.rules@[j].0 != family ==> family_rank(
                    family,
                ) < family_rank(self.rules@[j].0),
            has_rule(self.rules@, family) <==> r < self.rules@.len() && self.rules@[r as int].0
                == family,
    {
        proof {
            use_type_invariant(self);
        }
        let mut i: usize = 0;
        while i < self.rules.len()
            invariant
                families_ascend(self.rules@),
                i <= self.rules@.len(),
                forall|j: int|
                    0 <= j < i ==> family_rank(#[trigger] self.rules@[j].0) < family_rank(family),
            decreases self.rules@.len() - i,
        {
            if rank_of(self.rules[i].0) >= rank_of(family) {
                proof {
                    lemma_ranks_differ();
                    assert forall|j: int|
                        i <= j < self.rules@.len() && #[trigger] self.rules@[j].0
                            != family implies family_rank(family) < family_rank(
                        self.rules@[j].0,
                    ) by {
                        if j > i {
                            assert(family_rank(self.rules@[i as int].0) < family_rank(
                                self.rules@[j].0,
                            ));
                        }
                    }
                    if has_rule(self.rules@, family) {
                        let at = rule_index(self.rules@, family);
                        assert(at >= i);
                        if at > i {
                            assert(family_rank(self.rules@[i as int].0) < family_rank(
                                self.rules@[at].0,
                            ));
                        }
                    }
                }
                return i;
            }
            i = i + 1;
        }
        i
    }

    /// The same profile with this rule for the family, in place of an earlier one.
    pub fn with_rule(self, family: AudioCodecFamily, rule: CodecRule) -> (r: Self)
        ensures
            r@ == (PolicyView { rules: self@.rules.insert(family, rule@), ..self@ }),
    {
        proof {
            use_type_invariant(&self);
        }
        let at = self.find_rule(family);
        let ghost before = self.rules@;
        let ghost value = rule@;
        let known = at < self.rules.len() && self.rules[at].0 == family;
        let mut rules = self.rules;
        if known {
            rules.set(at, (family, rule));
        } else {
            rules.insert(at, (family, rule));
        }
        proof {
            if known {
                lemma_rule_replaced(before, at as int, family, rule);
            } else {
                lemma_rule_inserted(before, at as int, family, rule);
            }
        }
        CompatibilityPolicy { rules, ..self }
    }

    /// The same profile with this behaviour for codecs that are not known.
    pub fn with_unknown_codec(self, behavior: UnknownCodecBehavior) -> (r: Self)
        ensures
            r@ == (PolicyView { unknown_codec: behavior, ..self@ }),
    {
        proof {
            use_type_invariant(&self);
        }
        CompatibilityPolicy { unknown_codec: behavior, ..self }
    }

    /// The name of the profile.
    pub fn name(&self) -> (r: &ProfileName)
        ensures
            r@ == self@.name,
    {
        &self.name
    }

    /// The description of the profile.
    pub fn description(&self) -> (r: &str)
        ensures
            r@ == self@.description,
    {
        self.description.as_str()
    }

    /// Whether the profile is a deliberately conservative baseline.
    pub fn is_conservative_baseline(&self) -> (r: bool)
        ensures
            r == self@.conservative_baseline,
    {
        self.conservative_baseline
    }

    /// What the profile does with codecs that are not known.
    pub fn unknown_codec_behavior(&self) -> (r: UnknownCodecBehavior)
        ensures
            r == self@.unknown_codec,
    {
        self.unknown_codec
    }

    /// Whether a stream is accepted; an unknown codec is an error where the profile rejects it.
    pub fn classify(&self, stream: &AudioStream) -> (r: Result<Compatibility, PolicyError>)
        ensures
            match r {
                Ok(c) => self@.classify(stream@) == Ok::<CompatibilityView, PolicyErrorView>(c@),
                Err(e) => self@.classify(stream@) == Err::<CompatibilityView, PolicyErrorView>(e@),
            },
    {
        proof {
            use_type_invariant(self);
        }
        match stream.codec() {
            AudioCodec::Other(codec) => if self.unknown_codec == UnknownCodecBehavior::Reject {
                return Err(PolicyError::UnknownCodec { codec: codec.clone() });
            },
            _ => {},
        }
        let family = stream.codec().family();
        let at = self.find_rule(family);
        if at >= self.rules.len() || self.rules[at].0 != family {
            let additional: Vec<IncompatibilityReason> = Vec::new();
            let only = Incompatibilities {
                primary: IncompatibilityReason::UnsupportedCodec(family),
                additional,
            };
            proof {
                assert(only@ =~= seq![ReasonView::UnsupportedCodec(family)]);
            }
            return Ok(Compatibility::Incompatible(only));
        }
        proof {
            lemma_rules_unique(self.rules@, at as int);
        }
        let rule = &self.rules[at].1;
        let mut reasons: Vec<IncompatibilityReason> = Vec::new();
        proof {
            assert(reasons.deep_view() =~= seq![]);
        }
        match rule.maximum_channels {
            Some(maximum) => {
                let actual = stream.channels().count();
                if actual.get() > maximum.get() {
                    reasons.push(IncompatibilityReason::TooManyChannels { actual, maximum });
                    proof {
                        assert(reasons.deep_view() =~= seq![
                            ReasonView::TooManyChannels { actual: actual@, maximum: maximum@ },
                        ]);
                    }
                }
            },
            None => {},
        }
        let ghost first = reasons.deep_view();
        match (&rule.allowed_layouts, stream.channels().layout_name()) {
            (Some(allowed), Some(layout)) => if !allowed.contains(layout) {
                reasons.push(IncompatibilityReason::UnsupportedLayout(layout.to_owned()));
                proof {
                    assert(reasons.deep_view() =~= first.push(
                        ReasonView::UnsupportedLayout(layout@),
                    ));
                }
            },
            _ => {},
        }
        proof {
            assert(reasons.deep_view() =~= rule_reasons(rule@, stream@));
            lemma_sorted_already(rule@, stream@);
        }
        match Incompatibilities::from_reasons(reasons) {
            Some(all) => Ok(Compatibility::Incompatible(all)),
            None => Ok(Compatibility::Compatible),
        }
    }
}

/// The reasons under a rule stand in their order.
proof fn lemma_sorted_already(rule: CodecRuleView, stream: AudioStreamView)
    ensures
        sort_reasons(rule_reasons(rule, stream)) == rule_reasons(rule, stream),
{
    let reasons = rule_reasons(rule, stream);
    reveal_with_fuel(sort_reasons, 3);
    reveal_with_fuel(place_reason, 3);
    if reasons.len() == 1 {
        assert(reasons.drop_last() =~= seq![]);
        assert(sort_reasons(reasons) =~= reasons);
    } else if reasons.len() == 2 {
        assert(reasons.drop_last().drop_last() =~= seq![]);
        assert(sort_reasons(reasons.drop_last()) =~= reasons.drop_last());
        assert(sort_reasons(reasons) =~= reasons);
    } else {
        assert(reasons.len() == 0);
    }
}

/// A codec that is not known is rejected under a profile that rejects such codecs, whatever its
/// name.
pub proof fn law_unknown_codec_is_rejected(policy: PolicyView, stream: AudioStreamView)
    requires
        policy.unknown_codec is Reject,
        stream.codec is Other,
    ensures
        policy.classify(stream) == Err::<CompatibilityView, PolicyErrorView>(
            PolicyErrorView::UnknownCodec { codec: stream.codec->Other_0 },
        ),
{
}

/// DTS audio is incompatible under the built-in rules, whatever its profile.
pub proof fn law_dts_is_incompatible(policy: PolicyView, stream: AudioStreamView)
    requires
        policy.rules == baseline_rules(),
        stream.codec is Dts,
    ensures
        policy.classify(stream) == Ok::<CompatibilityView, PolicyErrorView>(
            CompatibilityView::Incompatible(
                seq![ReasonView::UnsupportedCodec(AudioCodecFamily::Dts)],
            ),
        ),
{
}

} // verus!
