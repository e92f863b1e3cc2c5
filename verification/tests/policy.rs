//! Compatibility of audio streams with device profiles.
use sonicmux::model::{ChannelCount, StreamIndex};
use sonicmux::policy::{
    CodecRule, Compatibility, CompatibilityPolicy, IncompatibilityReason, PolicyError, ProfileName,
    UnknownCodecBehavior,
};
use sonicmux::stream::{
    AudioCodec, AudioCodecFamily, AudioStream, Channels, DtsProfile, StreamCommon,
};
use sonicmux::table::TextSet;

fn audio(codec: AudioCodec, channels: u16, layout: Option<&str>) -> AudioStream {
    let common =
        StreamCommon::new(StreamIndex::new(1), "test-codec").expect("test codec name is valid");
    AudioStream::new(
        common,
        codec,
        Channels::new(
            ChannelCount::new(channels).expect("test channels are positive"),
            layout.map(str::to_owned),
        ),
        None,
    )
}

fn generic() -> CompatibilityPolicy {
    CompatibilityPolicy::for_profile(ProfileName::GenericTv)
}

#[test]
fn generic_ac3_is_compatible() {
    assert_eq!(
        generic().classify(&audio(AudioCodec::Ac3, 6, Some("5.1"))),
        Ok(Compatibility::Compatible)
    );
}

#[test]
fn generic_stereo_aac_is_compatible() {
    assert_eq!(
        generic().classify(&audio(AudioCodec::Aac, 2, Some("stereo"))),
        Ok(Compatibility::Compatible)
    );
}

#[test]
fn generic_mp3_is_compatible() {
    assert_eq!(
        generic().classify(&audio(AudioCodec::Mp3, 2, Some("stereo"))),
        Ok(Compatibility::Compatible)
    );
}

#[test]
fn dts_core_is_incompatible() {
    let result = generic().classify(&audio(AudioCodec::Dts(DtsProfile::Core), 6, None));
    assert!(matches!(result, Ok(Compatibility::Incompatible(_))));
}

#[test]
fn dts_hd_ma_is_incompatible() {
    let result = generic().classify(&audio(AudioCodec::Dts(DtsProfile::HdMasterAudio), 8, None));
    assert!(matches!(result, Ok(Compatibility::Incompatible(_))));
}

#[test]
fn unknown_dts_profile_stays_incompatible() {
    let result = generic().classify(&audio(
        AudioCodec::Dts(DtsProfile::Unknown("future".to_owned())),
        6,
        None,
    ));
    assert!(matches!(result, Ok(Compatibility::Incompatible(_))));
}

#[test]
fn truehd_is_incompatible() {
    let result = generic().classify(&audio(AudioCodec::TrueHd, 8, None));
    assert!(matches!(result, Ok(Compatibility::Incompatible(_))));
}

#[test]
fn known_flac_can_target_fallback_conversion() {
    let result = generic().classify(&audio(AudioCodec::Flac, 6, None));
    assert!(matches!(result, Ok(Compatibility::Incompatible(_))));
}

#[test]
fn completely_unknown_codec_is_rejected() {
    assert_eq!(
        generic().classify(&audio(AudioCodec::Other("future".to_owned()), 2, None)),
        Err(PolicyError::UnknownCodec {
            codec: "future".to_owned()
        })
    );
}

#[test]
fn custom_policy_allows_unknown_fallback() {
    let policy = generic().with_unknown_codec(UnknownCodecBehavior::TranscodeWithFallback);
    let result = policy.classify(&audio(AudioCodec::Other("future".to_owned()), 2, None));
    assert!(matches!(result, Ok(Compatibility::Incompatible(_))));
}

#[test]
fn maximum_channels_reports_typed_reason() {
    let result = generic()
        .classify(&audio(AudioCodec::Aac, 6, Some("5.1")))
        .expect("known codec classification succeeds");
    let Compatibility::Incompatible(reasons) = result else {
        panic!("multichannel AAC must be incompatible");
    };
    assert!(matches!(
        reasons.primary(),
        IncompatibilityReason::TooManyChannels { .. }
    ));
}

#[test]
fn incompatibility_reason_order_is_stable() {
    let allowed = TextSet::from_texts(vec!["stereo".to_owned()]);
    let policy = generic().with_rule(
        AudioCodecFamily::Aac,
        CodecRule::new(ChannelCount::new(2).ok(), Some(allowed)),
    );
    let result = policy
        .classify(&audio(AudioCodec::Aac, 6, Some("5.1")))
        .expect("known codec classification succeeds");
    let Compatibility::Incompatible(reasons) = result else {
        panic!("stream must be incompatible");
    };
    assert_eq!(reasons.iter().len(), 2);
    assert!(matches!(
        reasons.primary(),
        IncompatibilityReason::TooManyChannels { .. }
    ));
}

#[test]
fn custom_codec_override_replaces_inherited_rule() {
    let policy = generic().with_rule(
        AudioCodecFamily::Aac,
        CodecRule::new(ChannelCount::new(8).ok(), None),
    );
    assert_eq!(
        policy.classify(&audio(AudioCodec::Aac, 6, Some("5.1"))),
        Ok(Compatibility::Compatible)
    );
}

#[test]
fn vendor_profile_identifies_conservative_baseline() {
    let policy = CompatibilityPolicy::for_profile(ProfileName::Samsung);
    assert!(policy.is_conservative_baseline());
    assert!(policy.description().contains("model support varies"));
}

#[test]
fn unknown_codec_names_are_told_back() {
    for codec in ["", " ", "x264", "ÄÖ\u{0}", "dts "] {
        assert_eq!(
            generic().classify(&audio(AudioCodec::Other(codec.to_owned()), 2, None)),
            Err(PolicyError::UnknownCodec {
                codec: codec.to_owned()
            })
        );
    }
    assert!(PolicyError::UnknownCodec {
        codec: "future".to_owned()
    }
    .message()
    .contains("future"));
}

#[test]
fn a_layout_that_is_not_allowed_is_the_only_reason() {
    let allowed = TextSet::from_texts(vec!["stereo".to_owned(), "mono".to_owned()]);
    let policy = generic().with_rule(
        AudioCodecFamily::Aac,
        CodecRule::new(ChannelCount::new(8).ok(), Some(allowed)),
    );
    let result = policy
        .classify(&audio(AudioCodec::Aac, 6, Some("5.1")))
        .expect("known codec classification succeeds");
    let Compatibility::Incompatible(reasons) = result else {
        panic!("stream must be incompatible");
    };
    assert_eq!(reasons.iter().len(), 1);
    assert!(!matches!(
        reasons.primary(),
        IncompatibilityReason::TooManyChannels { .. }
    ));
}

#[test]
fn policies_are_equal_whatever_the_order_of_their_rules() {
    let rule = || CodecRule::new(ChannelCount::new(8).ok(), None);
    let one = generic()
        .with_rule(AudioCodecFamily::Opus, rule())
        .with_rule(AudioCodecFamily::Eac3, rule());
    let other = generic()
        .with_rule(AudioCodecFamily::Eac3, CodecRule::new(None, None))
        .with_rule(AudioCodecFamily::Eac3, rule())
        .with_rule(AudioCodecFamily::Opus, rule());
    assert_eq!(one, other);
    assert_ne!(one, generic());
    for family in [AudioCodec::Eac3, AudioCodec::Opus] {
        assert_eq!(one.classify(&audio(family, 8, None)), Ok(Compatibility::Compatible));
    }
}

#[test]
fn sets_of_texts_are_told_in_ascending_order() {
    let set = TextSet::from_texts(vec![
        "stereo".to_owned(),
        "5.1".to_owned(),
        "mono".to_owned(),
        "stereo".to_owned(),
    ]);
    assert_eq!(set.to_texts(), vec!["5.1", "mono", "stereo"]);
}
