//! Values of the media model.
use sonicmux::error::CoreError;
use sonicmux::model::{Bitrate, ChannelCount, Language, Metadata, ModelError, SampleRate, TimeBase};
use sonicmux::path::FilePath;
use sonicmux::stream::{AudioCodec, Dispositions, DtsProfile};
use sonicmux::table::TextMap;

#[test]
fn error_has_actionable_display_text() {
    let error = CoreError::InvalidConfiguration {
        message: "jobs must be greater than zero".to_owned(),
    };

    assert_eq!(
        error.message(),
        "invalid configuration: jobs must be greater than zero"
    );
}

#[test]
fn bitrate_supports_values_above_u32() {
    let bitrate = Bitrate::new(u64::from(u32::MAX) + 1);
    assert_eq!(bitrate.map(Bitrate::get), Ok(u64::from(u32::MAX) + 1));
}

#[test]
fn language_retains_non_bcp47_source_tag() {
    let language = Language::new(" qaa ");
    assert_eq!(language.as_ref().map(Language::as_str), Ok("qaa"));
}

#[test]
fn time_base_rejects_zero_denominator() {
    assert!(TimeBase::new(1, 0).is_err());
}

#[test]
fn classifies_dts_hd_master_audio_profile() {
    assert_eq!(
        AudioCodec::from_ffprobe("dts", Some("DTS-HD MA")),
        AudioCodec::Dts(DtsProfile::HdMasterAudio)
    );
}

#[test]
fn classifies_unknown_dts_profile_without_losing_it() {
    assert_eq!(
        AudioCodec::from_ffprobe("dts", Some("future profile")),
        AudioCodec::Dts(DtsProfile::Unknown("future profile".to_owned()))
    );
}

#[test]
fn nothing_is_not_a_number_of_anything() {
    assert!(Bitrate::new(0).is_err());
    assert!(ChannelCount::new(0).is_err());
    assert!(SampleRate::new(0).is_err());
    assert!(TimeBase::new(0, 1).is_err());
    assert!(Language::new("  ").is_err());
    assert!(Language::new("a\0b").is_err());
}

#[test]
fn metadata_rejects_blank_keys_and_nul() {
    let mut metadata = Metadata::default();
    assert!(metadata.insert(" ", "x").is_err());
    assert!(metadata.insert("title", "a\0").is_err());
    assert_eq!(metadata.insert("title", "one"), Ok(None));
    assert_eq!(metadata.insert("title", "two"), Ok(Some("one".to_owned())));
    assert_eq!(metadata.title(), Some("two"));
    let mut values = TextMap::new();
    values.insert("".to_owned(), "x".to_owned());
    assert!(matches!(
        Metadata::new(values),
        Err(ModelError::InvalidText { .. })
    ));
}

#[test]
fn known_flags_are_always_there() {
    let mut flags = TextMap::new();
    flags.insert("default".to_owned(), true);
    flags.insert("future".to_owned(), true);
    let dispositions = Dispositions::from_flags(flags);
    assert!(dispositions.is_default());
    assert_eq!(dispositions.flag("forced"), Some(false));
    assert_eq!(dispositions.flag("future"), Some(true));
    assert_eq!(dispositions.flag("missing"), None);
}

#[test]
fn paths_are_taken_apart_by_component() {
    let path = FilePath::from_text("/movies//a.b/./film.name.mkv/");
    assert!(path.is_absolute());
    assert!(path.is_mkv());
    assert_eq!(path.file_name(), Some(FilePath::from_text("film.name.mkv")));
    assert_eq!(path.file_stem(), Some(FilePath::from_text("film.name")));
    assert_eq!(path.extension(), Some(FilePath::from_text("mkv")));
    assert!(path.same(&FilePath::from_text("/movies/a.b/film.name.mkv")));
    assert!(!path.same(&FilePath::from_text("movies/a.b/film.name.mkv")));
    assert_eq!(FilePath::from_text("..").file_name(), None);
    assert_eq!(FilePath::from_text("/").parent(), None);
    assert_eq!(
        FilePath::from_text("a").join(&FilePath::from_text("/b")),
        FilePath::from_text("/b")
    );
    assert_eq!(
        FilePath::from_bytes(vec![b'a', 0xff]).display(),
        "a\u{fffd}"
    );
}
