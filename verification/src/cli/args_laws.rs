//! What holds of the choices on the command line.
use vstd::prelude::*;

use crate::cli::args;
use crate::cli::args::{AudioArgs, ColorChoice, StorageProfileChoice};
use crate::number;
use crate::runtime::prepare::SelectionRequestView;
use crate::session;

verus! {

/// What is chosen on the command line overrides just the settings that it speaks of.
pub proof fn law_choices_override_what_they_name(args: AudioArgs)
    ensures
        ({
            let over = args.overriding();
            &&& over.profile == args.profile.deep_view()
            &&& over.codec == args.codec.deep_view()
            &&& over.bitrate == args.bitrate.deep_view()
            &&& over.channels == args.channels.deep_view()
            &&& over.mode == args.mode.deep_view()
            &&& over.jobs is None
            &&& over.storage_profile is None
            &&& over.ffmpeg_path is None
            &&& over.output_directory is None
            &&& over.color is None
            &&& over.log_file is None
            &&& over.custom_profiles.dom() == Set::<Seq<char>>::empty()
        }),
{
}

/// A stream is chosen by `first-compatible`, by its number, or by its language.
pub proof fn law_stream_choices(index: u32, language: Seq<char>)
    requires
        number::read_unsigned(language, u32::MAX as int) is None,
        language != "first-compatible"@,
    ensures
        args::selection_of("first-compatible"@) == SelectionRequestView::FirstCompatible,
        args::selection_of(number::decimal(index as int)) == SelectionRequestView::StreamIndex(
            index,
        ),
        args::selection_of(language) == SelectionRequestView::Language(language),
{
    number::law_numbers_are_read_back(index as int, u32::MAX as int);
    reveal_strlit("first-compatible");
    let digits = number::decimal(index as int);
    if digits == "first-compatible"@ {
        assert(crate::text::is_digit(digits[0]));
        assert(false);
    }
}

/// An exact output is for a single input; without one every input has its own output, in the
/// directory that is given or beside it.
pub proof fn law_outputs_are_assigned(
    inputs: Seq<Seq<u8>>,
    exact: Option<Seq<u8>>,
    directory: Option<Seq<u8>>,
)
    ensures
        ({
            let outputs = args::outputs_for(inputs, exact, directory);
            &&& outputs is None <==> exact is Some && inputs.len() != 1
            &&& outputs is Some ==> outputs->0.len() == inputs.len()
            &&& exact is Some && inputs.len() == 1 ==> outputs->0[0] == exact->0
            &&& exact is None ==> forall|i: int|
                0 <= i < inputs.len() ==> #[trigger] outputs->0[i] == session::output_for(
                    inputs[i],
                    directory,
                )
        }),
{
}

/// What the choices are called.
pub proof fn law_choice_names()
    ensures
        ColorChoice::Auto.label() == "auto"@,
        ColorChoice::Always.label() == "always"@,
        ColorChoice::Never.label() == "never"@,
        StorageProfileChoice::Hdd.label() == "hdd"@,
        StorageProfileChoice::Balanced.label() == "balanced"@,
        StorageProfileChoice::Nvme.label() == "nvme"@,
{
}

} // verus!
