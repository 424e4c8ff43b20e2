//! The command line, the configuration, and files.

use vstd::prelude::*;

use crate::callbacks::CpResponse;
use crate::cli::{assemble_test, flag_value, parse_args, parse_test_mode, test_cuts, Invocation};
use crate::config::{AudioProcessingConfig, CrossfadeConfig, HarborConfig};
use crate::crossfade::{CrossfadeMode, CrossfadeThresholds};
use crate::media::ResolvedMedia;

verus! {

broadcast use vstd::string::group_string_axioms;

// ---------------------------------------------------------------------------
// The command line.

/// Whether the first argument that is `flag` is at `at`.
pub open spec fn is_first_at(args: Seq<String>, flag: Seq<char>, at: int) -> bool {
    &&& 0 <= at < args.len()
    &&& args[at]@ == flag
    &&& forall|j: int| 0 <= j < at ==> (#[trigger] args[j])@ != flag
}

/// Whether no argument is `flag`.
pub open spec fn is_absent(args: Seq<String>, flag: Seq<char>) -> bool {
    forall|j: int| 0 <= j < args.len() ==> (#[trigger] args[j])@ != flag
}

proof fn lemma_first_at(args: Seq<String>, flag: Seq<char>, at: int, i: int)
    requires
        is_first_at(args, flag, at),
        0 <= i <= at,
    ensures
        crate::cli::flag_at(crate::text::texts(args), flag, i) == at,
    decreases at - i,
{
    let texts = crate::text::texts(args);
    assert(texts.len() == args.len());
    assert(texts[i] == args[i]@);
    if i < at {
        lemma_first_at(args, flag, at, i + 1);
    }
}

proof fn lemma_absent(args: Seq<String>, flag: Seq<char>, i: int)
    requires
        is_absent(args, flag),
        0 <= i <= args.len(),
    ensures
        crate::cli::flag_at(crate::text::texts(args), flag, i) == args.len(),
    decreases args.len() - i,
{
    let texts = crate::text::texts(args);
    assert(texts.len() == args.len());
    if i < args.len() {
        assert(texts[i] == args[i]@);
        lemma_absent(args, flag, i + 1);
    }
}

/// The value of a flag is the argument after the first occurrence of it.
pub proof fn law_a_flag_has_the_argument_after_it(
    args: Vec<String>,
    flag: &str,
    value: Option<String>,
    at: int,
)
    requires
        call_ensures(flag_value, (&args, flag), value),
    ensures
        is_first_at(args@, flag@, at) && at + 1 < args@.len() ==> value is Some
            && value->Some_0@ == args@[at + 1]@,
        is_first_at(args@, flag@, at) && at + 1 == args@.len() ==> value is None,
        is_absent(args@, flag@) ==> value is None,
{
    let texts = crate::text::texts(args@);
    assert(texts.len() == args@.len());
    if is_first_at(args@, flag@, at) {
        lemma_first_at(args@, flag@, at, 0);
        if at + 1 < args@.len() {
            assert(texts[at + 1] == args@[at + 1]@);
        }
    }
    if is_absent(args@, flag@) {
        lemma_absent(args@, flag@, 0);
    }
}

/// The version is printed wherever it is asked for, and only there.
pub proof fn law_the_version_goes_first(args: Vec<String>, invocation: Invocation, at: int)
    requires
        call_ensures(parse_args, (&args,), invocation),
    ensures
        is_first_at(args@, "--version"@, at) ==> invocation is Version,
        is_absent(args@, "--version"@) ==> invocation !is Version,
{
    assert(crate::text::texts(args@).len() == args@.len());
    if is_first_at(args@, "--version"@, at) {
        lemma_first_at(args@, "--version"@, at, 0);
    }
    if is_absent(args@, "--version"@) {
        lemma_absent(args@, "--version"@, 0);
    }
}

/// Without any other request, the engine runs with the configuration that is
/// named; it does not run where none is named.
pub proof fn law_the_engine_runs_with_the_named_configuration(
    args: Vec<String>,
    invocation: Invocation,
    path: Option<String>,
    at: int,
)
    requires
        is_absent(args@, "--version"@),
        is_absent(args@, "--crossfade-test"@),
        is_absent(args@, "--check-config"@),
        call_ensures(parse_args, (&args,), invocation),
        call_ensures(flag_value, (&args, "--config"), path),
    ensures
        is_first_at(args@, "--config"@, at) && path is Some ==> invocation is Run
            && invocation->Run_0@ == path->Some_0@,
        is_first_at(args@, "--config"@, at) && path is None ==> invocation is ConfigPathMissing,
        is_absent(args@, "--config"@) ==> invocation is Usage,
{
    assert(crate::text::texts(args@).len() == args@.len());
    lemma_absent(args@, "--version"@, 0);
    lemma_absent(args@, "--crossfade-test"@, 0);
    lemma_absent(args@, "--check-config"@, 0);
    if is_first_at(args@, "--config"@, at) {
        lemma_first_at(args@, "--config"@, at, 0);
    }
    if is_absent(args@, "--config"@) {
        lemma_absent(args@, "--config"@, 0);
    }
}

/// A configuration is checked from standard input, and from nowhere else; a
/// check is never a run.
pub proof fn law_a_check_reads_standard_input(
    args: Vec<String>,
    invocation: Invocation,
    target: Option<String>,
    at: int,
)
    requires
        is_absent(args@, "--version"@),
        is_absent(args@, "--crossfade-test"@),
        is_first_at(args@, "--check-config"@, at),
        call_ensures(parse_args, (&args,), invocation),
        call_ensures(flag_value, (&args, "--check-config"), target),
    ensures
        target is Some && target->Some_0@ == seq!['-'] ==> invocation is CheckConfig,
        target is None || target->Some_0@ != seq!['-'] ==> invocation is CheckConfigUsage,
{
    reveal_strlit("-");
    assert("-"@ =~= seq!['-']);
    assert(crate::text::texts(args@).len() == args@.len());
    lemma_absent(args@, "--version"@, 0);
    lemma_absent(args@, "--crossfade-test"@, 0);
    lemma_first_at(args@, "--check-config"@, at, 0);
}

/// A crossfade test takes the two files after its flag, in their order, and the
/// values of its other flags, or their defaults.
pub proof fn law_a_crossfade_test_takes_its_two_files(
    args: Vec<String>,
    invocation: Invocation,
    duration: Option<String>,
    mode: Option<String>,
    output: Option<String>,
    at: int,
)
    requires
        is_absent(args@, "--version"@),
        is_first_at(args@, "--crossfade-test"@, at),
        call_ensures(parse_args, (&args,), invocation),
        call_ensures(flag_value, (&args, "--duration"), duration),
        call_ensures(flag_value, (&args, "--mode"), mode),
        call_ensures(flag_value, (&args, "--output"), output),
    ensures
        at + 2 >= args@.len() ==> invocation is CrossfadeTestUsage,
        at + 2 < args@.len() ==> {
            &&& invocation is CrossfadeTest
            &&& invocation->file1@ == args@[at + 1]@
            &&& invocation->file2@ == args@[at + 2]@
            &&& crate::text::opt_view(invocation->duration) == crate::text::opt_view(duration)
            &&& mode is Some ==> invocation->mode@ == mode->Some_0@
            &&& mode is None ==> invocation->mode@ == "smart"@
            &&& output is Some ==> invocation->output@ == output->Some_0@
            &&& output is None ==> invocation->output@ == "crossfade-test-output.wav"@
        },
{
    let texts = crate::text::texts(args@);
    assert(texts.len() == args@.len());
    lemma_absent(args@, "--version"@, 0);
    lemma_first_at(args@, "--crossfade-test"@, at, 0);
    if at + 2 < args@.len() {
        assert(texts[at + 1] == args@[at + 1]@);
        assert(texts[at + 2] == args@[at + 2]@);
    }
}

proof fn lemma_mode_names()
    ensures
        "smart"@ != "normal"@,
        "smart"@ != "disabled"@,
        "normal"@ != "disabled"@,
        "smart"@ != "none"@,
        "disabled"@ != "none"@,
{
    reveal_strlit("smart");
    reveal_strlit("normal");
    reveal_strlit("disabled");
    reveal_strlit("none");
    assert("smart"@.len() == 5 && "normal"@.len() == 6 && "disabled"@.len() == 8 && "none"@.len()
        == 4);
}

/// A crossfade test knows three modes by name, and no others.
pub proof fn law_a_test_knows_three_modes(name: &str, r: Result<CrossfadeMode, String>)
    requires
        call_ensures(parse_test_mode, (name,), r),
    ensures
        name@ == "smart"@ <==> r == Ok::<CrossfadeMode, String>(CrossfadeMode::Smart),
        name@ == "normal"@ <==> r == Ok::<CrossfadeMode, String>(CrossfadeMode::Normal),
        name@ == "disabled"@ <==> r == Ok::<CrossfadeMode, String>(CrossfadeMode::Disabled),
{
    lemma_mode_names();
}

/// A test run mixes the last frames of one file with the first of the other, as
/// many as asked for or as there are.
pub proof fn law_a_test_mixes_end_and_start(
    a_frames: usize,
    b_frames: usize,
    window: usize,
    cuts: (usize, usize),
)
    requires
        call_ensures(test_cuts, (a_frames, b_frames, window), cuts),
    ensures
        window <= a_frames ==> a_frames - cuts.0 == window,
        window > a_frames ==> cuts.0 == 0,
        window <= b_frames ==> cuts.1 == window,
        window > b_frames ==> cuts.1 == b_frames,
{
}

/// The output of a test run is the first file before its cut, the mix, and the
/// second file after its cut.
pub proof fn law_a_test_is_put_together_in_order<S: Copy>(
    a: &[S],
    body_end: usize,
    mixed: &[S],
    b: &[S],
    head_end: usize,
    out: Vec<S>,
    i: int,
)
    requires
        body_end <= a@.len(),
        head_end <= b@.len(),
        call_ensures(assemble_test::<S>, (a, body_end, mixed, b, head_end), out),
    ensures
        out@.len() == body_end + mixed@.len() + (b@.len() - head_end),
        0 <= i < body_end ==> out@[i] == a@[i],
        0 <= i < mixed@.len() ==> out@[body_end + i] == mixed@[i],
        head_end <= i < b@.len() ==> out@[body_end + mixed@.len() + (i - head_end)] == b@[i],
{
}

// ---------------------------------------------------------------------------
// The configuration.

/// The crossfade of a station is smart where that is its name, off where it is
/// called `disabled` or `none`, and plain under every other name.
pub proof fn law_crossfades_are_configured_by_name<N: Copy>(
    cfg: CrossfadeConfig<N>,
    mode: CrossfadeMode,
)
    requires
        call_ensures(CrossfadeConfig::<N>::mode, (&cfg,), mode),
    ensures
        mode == CrossfadeMode::Smart <==> cfg.mode@ == "smart"@,
        mode == CrossfadeMode::Disabled <==> cfg.mode@ == "disabled"@ || cfg.mode@ == "none"@,
{
    lemma_mode_names();
}

/// The thresholds are those that are configured, each under its own name.
pub proof fn law_thresholds_are_configured_one_by_one<N: Copy>(
    cfg: CrossfadeConfig<N>,
    t: CrossfadeThresholds<N>,
)
    requires
        call_ensures(CrossfadeConfig::<N>::thresholds, (&cfg,), t),
    ensures
        t.high == cfg.high,
        t.medium == cfg.medium,
        t.margin == cfg.margin,
{
}

/// A station that says nothing of live DJs or processing has neither.
pub proof fn law_nothing_is_on_by_default<N>(
    harbor: HarborConfig<N>,
    processing: AudioProcessingConfig,
    choice: crate::audio_processing::ProcessorChoice,
)
    requires
        call_ensures(<HarborConfig<N> as Default>::default, (), harbor),
        call_ensures(<AudioProcessingConfig as Default>::default, (), processing),
        call_ensures(crate::audio_processing::choose_processor, (&processing,), choice),
    ensures
        !harbor.enabled,
        harbor.bind_address@ == "0.0.0.0"@,
        harbor.port == 8005,
        harbor.mount_point@ == seq!['/'],
        !processing.include_live,
        choice is NoProcessing,
{
    reveal_strlit("/");
    reveal_strlit("none");
    reveal_strlit("nrj");
    reveal_strlit("stereo_tool");
    assert("/"@ =~= seq!['/']);
    assert("nrj"@.len() == 3 && "stereo_tool"@.len() == 11 && "none"@.len() == 4);
}

// ---------------------------------------------------------------------------
// Files.

/// The file that the station names is played, and deleted after use exactly
/// where the station says that it is temporary.
pub proof fn law_only_temporary_files_are_deleted<'a>(
    resp: CpResponse,
    media: ResolvedMedia,
    path: Option<&'a str>,
)
    requires
        call_ensures(ResolvedMedia::from_response, (resp,), media),
        call_ensures(ResolvedMedia::file_to_remove, (&media,), path),
    ensures
        media.local_path@ == resp.uri@,
        path is Some <==> resp.is_temp,
        path is Some ==> path->Some_0@ == resp.uri@,
{
}

} // verus!
