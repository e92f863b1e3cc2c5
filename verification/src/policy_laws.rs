//! What holds of the classification of source audio.
use vstd::prelude::*;

use crate::policy;
use crate::policy::{
    CompatibilityView, PolicyErrorView, PolicyView, ReasonView, UnknownCodecBehavior,
};
use crate::stream::{AudioCodecFamily, AudioStreamView};

verus! {

/// Whether a stream has more channels than the rule for its codec allows.
pub open spec fn too_wide(policy: PolicyView, stream: AudioStreamView) -> bool {
    policy.rules[stream.codec.family()].maximum_channels matches Some(most)
        && stream.channels.count > most
}

/// Whether a stream names a layout that is not one of those that the rule for its codec allows.
pub open spec fn odd_layout(policy: PolicyView, stream: AudioStreamView) -> bool {
    policy.rules[stream.codec.family()].allowed_layouts matches Some(allowed) && (
    stream.channels.layout_name matches Some(name) && !allowed.contains(name))
}

/// A device accepts a stream exactly where there is a rule for its codec, the stream has no more
/// channels than that allows, and its layout, where both speak of one, is allowed. Unknown codecs
/// are an error under a profile that rejects them.
pub proof fn law_classification(policy: PolicyView, stream: AudioStreamView)
    ensures
        ({
            let r = policy.classify(stream);
            let unknown = stream.codec is Other && policy.unknown_codec
                == UnknownCodecBehavior::Reject;
            let ruled = policy.rules.dom().contains(stream.codec.family());
            let fits = ruled && !too_wide(policy, stream) && !odd_layout(policy, stream);
            &&& r is Err <==> unknown
            &&& r == Ok::<CompatibilityView, PolicyErrorView>(CompatibilityView::Compatible)
                <==> !unknown && fits
            &&& r is Ok && r->Ok_0 is Incompatible <==> !unknown && !fits
        }),
{
}

/// The reasons for refusing a stream are all that hold of it: that there is no rule for its codec,
/// or else that it has too many channels and that its layout is not allowed, with the values that
/// were compared.
pub proof fn law_refusal_reasons(policy: PolicyView, stream: AudioStreamView, reason: ReasonView)
    requires
        policy.classify(stream) matches Ok(c) && c is Incompatible,
    ensures
        ({
            let reasons = policy.classify(stream)->Ok_0->Incompatible_0;
            let family = stream.codec.family();
            let ruled = policy.rules.dom().contains(family);
            &&& reasons.len() > 0
            &&& reasons.contains(reason) <==> match reason {
                ReasonView::UnsupportedCodec(f) => !ruled && f == family,
                ReasonView::TooManyChannels { actual, maximum } => ruled && too_wide(
                    policy,
                    stream,
                ) && actual == stream.channels.count && Some(maximum)
                    == policy.rules[family].maximum_channels,
                ReasonView::UnsupportedLayout(name) => ruled && odd_layout(policy, stream)
                    && Some(name) == stream.channels.layout_name,
            }
        }),
{
    let reasons = policy.classify(stream)->Ok_0->Incompatible_0;
    let family = stream.codec.family();
    if !policy.rules.dom().contains(family) {
        assert(reasons[0] == ReasonView::UnsupportedCodec(family));
    } else {
        let rule = policy.rules[family];
        assert(reasons == policy::rule_reasons(rule, stream));
        if too_wide(policy, stream) {
            assert(reasons[0] == (ReasonView::TooManyChannels {
                actual: stream.channels.count,
                maximum: rule.maximum_channels->0,
            }));
        }
        if odd_layout(policy, stream) {
            assert(reasons[reasons.len() - 1] == ReasonView::UnsupportedLayout(
                stream.channels.layout_name->0,
            ));
        }
    }
}

/// Among the reasons, what concerns the codec comes before what concerns the channels, and this before
/// what concerns the layout.
pub proof fn law_reasons_have_an_order(
    family: AudioCodecFamily,
    actual: u16,
    maximum: u16,
    layout: Seq<char>,
)
    ensures
        ({
            let codec = ReasonView::UnsupportedCodec(family);
            let channels = ReasonView::TooManyChannels { actual, maximum };
            let odd = ReasonView::UnsupportedLayout(layout);
            &&& policy::reason_precedes(codec, channels) && !policy::reason_precedes(channels, codec)
            &&& policy::reason_precedes(codec, odd) && !policy::reason_precedes(odd, codec)
            &&& policy::reason_precedes(channels, odd) && !policy::reason_precedes(odd, channels)
            &&& !policy::reason_precedes(codec, codec) && !policy::reason_precedes(
                channels,
                channels,
            )
        }),
{
}

} // verus!
