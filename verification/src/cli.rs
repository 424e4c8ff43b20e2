//! The command line.

use vstd::prelude::*;

use crate::crossfade::CrossfadeMode;
use crate::text::same_text;

verus! {

broadcast use vstd::string::group_string_axioms;

/// The version of the engine.
pub const VERSION: &'static str = "0.1.0";

/// What the command line asks for.
#[derive(Debug)]
pub enum Invocation {
    /// Print the version.
    Version,
    /// Mix two files into a third. `duration` is in seconds, as text.
    CrossfadeTest {
        file1: String,
        file2: String,
        duration: Option<String>,
        mode: String,
        output: String,
    },
    /// A crossfade test without its two files.
    CrossfadeTestUsage,
    /// Check the configuration on standard input.
    CheckConfig,
    /// A configuration check of anything but standard input.
    CheckConfigUsage,
    /// Run with the configuration in this file.
    Run(String),
    /// A missing path of a configuration.
    ConfigPathMissing,
    /// Nothing that is known.
    Usage,
}

/// The position of the first argument that is `flag`, or the number of
/// arguments.
pub open spec fn flag_at(args: Seq<Seq<char>>, flag: Seq<char>, i: int) -> int
    decreases args.len() - i,
{
    if i >= args.len() {
        args.len() as int
    } else if args[i] == flag {
        i
    } else {
        flag_at(args, flag, i + 1)
    }
}

/// Whether `flag` is given.
pub open spec fn has_flag(args: Seq<Seq<char>>, flag: Seq<char>) -> bool {
    flag_at(args, flag, 0) < args.len()
}

/// The argument at a distance after `flag`, if there is one.
pub open spec fn after_flag(args: Seq<Seq<char>>, flag: Seq<char>, distance: int) -> Option<
    Seq<char>,
> {
    let at = flag_at(args, flag, 0);
    if at < args.len() && at + distance < args.len() {
        Some(args[at + distance])
    } else {
        None
    }
}

/// The position of `flag`, or the number of arguments.
fn find_flag(args: &Vec<String>, flag: &str) -> (at: usize)
    ensures
        at == flag_at(crate::text::texts(args@), flag@, 0),
        at <= args@.len(),
{
    let mut i: usize = 0;
    while i < args.len()
        invariant
            i <= args@.len(),
            flag_at(crate::text::texts(args@), flag@, 0) == flag_at(
                crate::text::texts(args@),
                flag@,
                i as int,
            ),
        decreases args@.len() - i,
    {
        if same_text(args[i].as_str(), flag) {
            return i;
        }
        i += 1;
    }
    i
}

/// The argument at a distance after `flag`.
fn argument_after(args: &Vec<String>, flag: &str, distance: usize) -> (value: Option<String>)
    ensures
        crate::text::opt_view(value) == after_flag(
            crate::text::texts(args@),
            flag@,
            distance as int,
        ),
{
    let at = find_flag(args, flag);
    if at < args.len() && distance < args.len() - at {
        Some(args[at + distance].clone())
    } else {
        None
    }
}

/// The argument that follows `flag`.
pub fn flag_value(args: &Vec<String>, flag: &str) -> (value: Option<String>)
    ensures
        crate::text::opt_view(value) == after_flag(crate::text::texts(args@), flag@, 1),
{
    argument_after(args, flag, 1)
}

/// A text, or else another one.
pub open spec fn or_else(value: Option<Seq<char>>, default: Seq<char>) -> Seq<char> {
    match value {
        Some(v) => v,
        None => default,
    }
}

/// A text, or else another one.
fn text_or(value: Option<String>, default: &str) -> (text: String)
    ensures
        text@ == or_else(crate::text::opt_view(value), default@),
{
    match value {
        Some(v) => v,
        None => default.to_owned(),
    }
}

/// Whether an invocation is what these arguments ask for. The version goes
/// before everything else, then the crossfade test, the configuration check,
/// and running.
pub open spec fn asks_for(args: Seq<Seq<char>>, invocation: Invocation) -> bool {
    if has_flag(args, "--version"@) {
        invocation is Version
    } else if has_flag(args, "--crossfade-test"@) {
        let first = after_flag(args, "--crossfade-test"@, 1);
        let second = after_flag(args, "--crossfade-test"@, 2);
        if first is Some && second is Some {
            &&& invocation matches Invocation::CrossfadeTest {
                file1,
                file2,
                duration,
                mode,
                output,
            }
            &&& Some(file1@) == first
            &&& Some(file2@) == second
            &&& crate::text::opt_view(duration) == after_flag(args, "--duration"@, 1)
            &&& mode@ == or_else(after_flag(args, "--mode"@, 1), "smart"@)
            &&& output@ == or_else(after_flag(args, "--output"@, 1), "crossfade-test-output.wav"@)
        } else {
            invocation is CrossfadeTestUsage
        }
    } else if has_flag(args, "--check-config"@) {
        if after_flag(args, "--check-config"@, 1) == Some("-"@) {
            invocation is CheckConfig
        } else {
            invocation is CheckConfigUsage
        }
    } else if has_flag(args, "--config"@) {
        match after_flag(args, "--config"@, 1) {
            Some(path) => invocation matches Invocation::Run(p) && p@ == path,
            None => invocation is ConfigPathMissing,
        }
    } else {
        invocation is Usage
    }
}

/// Reads the command line.
pub fn parse_args(args: &Vec<String>) -> (invocation: Invocation)
    ensures
        asks_for(crate::text::texts(args@), invocation),
{
    if find_flag(args, "--version") < args.len() {
        return Invocation::Version;
    }
    if find_flag(args, "--crossfade-test") < args.len() {
        let file1 = argument_after(args, "--crossfade-test", 1);
        let file2 = argument_after(args, "--crossfade-test", 2);
        return match (file1, file2) {
            (Some(file1), Some(file2)) => Invocation::CrossfadeTest {
                file1,
                file2,
                duration: flag_value(args, "--duration"),
                mode: text_or(flag_value(args, "--mode"), "smart"),
                output: text_or(flag_value(args, "--output"), "crossfade-test-output.wav"),
            },
            _ => Invocation::CrossfadeTestUsage,
        };
    }
    if find_flag(args, "--check-config") < args.len() {
        return match flag_value(args, "--check-config") {
            Some(target) => if same_text(target.as_str(), "-") {
                Invocation::CheckConfig
            } else {
                Invocation::CheckConfigUsage
            },
            None => Invocation::CheckConfigUsage,
        };
    }
    if find_flag(args, "--config") < args.len() {
        return match flag_value(args, "--config") {
            Some(path) => Invocation::Run(path),
            None => Invocation::ConfigPathMissing,
        };
    }
    Invocation::Usage
}

/// The crossfade mode of a test run; here a name that is not known is an
/// error.
pub fn parse_test_mode(name: &str) -> (r: Result<CrossfadeMode, String>)
    ensures
        match r {
            Ok(mode) => if name@ == "smart"@ {
                mode == CrossfadeMode::Smart
            } else if name@ == "normal"@ {
                mode == CrossfadeMode::Normal
            } else {
                name@ == "disabled"@ && mode == CrossfadeMode::Disabled
            },
            Err(e) => {
                &&& name@ != "smart"@ && name@ != "normal"@ && name@ != "disabled"@
                &&& e@ == "unknown --mode '"@ + name@ + "' (expected smart|normal|disabled)"@
            },
        },
{
    if same_text(name, "smart") {
        Ok(CrossfadeMode::Smart)
    } else if same_text(name, "normal") {
        Ok(CrossfadeMode::Normal)
    } else if same_text(name, "disabled") {
        Ok(CrossfadeMode::Disabled)
    } else {
        let mut e = "unknown --mode '".to_owned();
        e.append(name);
        e.append("' (expected smart|normal|disabled)");
        Err(e)
    }
}

/// Where a test run cuts its two files: the first has a tail of at most
/// `window` frames, and the second a head.
pub fn test_cuts(a_frames: usize, b_frames: usize, window: usize) -> (cuts: (usize, usize))
    ensures
        cuts.0 == if a_frames > window {
            a_frames - window
        } else {
            0
        },
        cuts.1 == crate::crossfade::least(window as nat, b_frames as nat),
{
    (
        if a_frames > window {
            a_frames - window
        } else {
            0
        },
        if window < b_frames {
            window
        } else {
            b_frames
        },
    )
}

/// The output of a test run: the first file up to its tail, the transition,
/// and the second file from the end of its head on.
pub fn assemble_test<S: Copy>(
    a: &[S],
    body_end: usize,
    mixed: &[S],
    b: &[S],
    head_end: usize,
) -> (out: Vec<S>)
    requires
        body_end <= a@.len(),
        head_end <= b@.len(),
    ensures
        out@ == a@.take(body_end as int) + mixed@ + b@.skip(head_end as int),
{
    let mut out: Vec<S> = Vec::new();
    let mut i: usize = 0;
    while i < body_end
        invariant
            i <= body_end <= a@.len(),
            out@ == a@.take(i as int),
        decreases body_end - i,
    {
        out.push(a[i]);
        i += 1;
    }
    let mut j: usize = 0;
    assert(out@ =~= a@.take(body_end as int) + mixed@.take(0));
    while j < mixed.len()
        invariant
            j <= mixed@.len(),
            out@ == a@.take(body_end as int) + mixed@.take(j as int),
        decreases mixed@.len() - j,
    {
        out.push(mixed[j]);
        j += 1;
        assert(out@ =~= a@.take(body_end as int) + mixed@.take(j as int));
    }
    assert(mixed@.take(j as int) =~= mixed@);
    let mut k: usize = head_end;
    assert(out@ =~= a@.take(body_end as int) + mixed@ + b@.subrange(head_end as int, k as int));
    while k < b.len()
        invariant
            head_end <= k <= b@.len(),
            out@ == a@.take(body_end as int) + mixed@ + b@.subrange(head_end as int, k as int),
        decreases b@.len() - k,
    {
        out.push(b[k]);
        k += 1;
        assert(out@ =~= a@.take(body_end as int) + mixed@ + b@.subrange(head_end as int, k as int));
    }
    assert(b@.subrange(head_end as int, k as int) =~= b@.skip(head_end as int));
    out
}

} // verus!
