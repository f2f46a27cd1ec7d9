//! Delivery of a firmware image: either persist it to a file, or run the
//! external flashing tool and stream the image through its standard input.
//! The decisions — which action to take, and the exact argument lists the
//! external tools are started with — are made here; performing the file
//! write and the subprocess calls is the caller's part.

use vstd::prelude::*;

verus! {

use vstd::string::StringExecFns;
use crate::image::PipelineError;

/// Where a firmware image is delivered.
pub enum Destination {
    /// Write the image to the file at this path instead of flashing.
    File { path: String },
    /// Stream the image to a live device through the flashing tool.
    Device,
}

/// How to deliver a firmware image; created once from resolved command-line
/// input and read-only thereafter.
pub struct FlashRequest {
    pub destination: Destination,
    /// Bound, in seconds, on the flashing tool's device discovery, passed
    /// through to it; absent means the tool's own default.
    pub discovery_timeout: Option<u64>,
}

/// The dispatch decision for one request.
pub enum FlashPlan {
    /// Write the whole image to this path, overwriting any existing file.
    WriteFile { path: String },
    /// Start the flashing tool with these arguments, write the whole image
    /// to its standard input, close that pipe, and wait for it to exit.
    RunFlasher { args: Vec<String> },
}

/// The character of a single decimal digit.
pub open spec fn digit_char(d: nat) -> char {
    if d == 0 {
        '0'
    } else if d == 1 {
        '1'
    } else if d == 2 {
        '2'
    } else if d == 3 {
        '3'
    } else if d == 4 {
        '4'
    } else if d == 5 {
        '5'
    } else if d == 6 {
        '6'
    } else if d == 7 {
        '7'
    } else if d == 8 {
        '8'
    } else {
        '9'
    }
}

/// The decimal rendering of a number: its digits in order, most significant
/// first, without leading zeros (zero renders as one zero digit).
pub open spec fn decimal_digits(v: nat) -> Seq<char>
    decreases v,
{
    if v < 10 {
        seq![digit_char(v)]
    } else {
        decimal_digits(v / 10).push(digit_char(v % 10))
    }
}

/// The one-character string of a single decimal digit.
fn digit_str(d: u64) -> (s: &'static str)
    requires
        d < 10,
    ensures
        s@ == seq![digit_char(d as nat)],
{
    proof {
        reveal_strlit("0");
        reveal_strlit("1");
        reveal_strlit("2");
        reveal_strlit("3");
        reveal_strlit("4");
        reveal_strlit("5");
        reveal_strlit("6");
        reveal_strlit("7");
        reveal_strlit("8");
        reveal_strlit("9");
    }
    let s = if d == 0 {
        "0"
    } else if d == 1 {
        "1"
    } else if d == 2 {
        "2"
    } else if d == 3 {
        "3"
    } else if d == 4 {
        "4"
    } else if d == 5 {
        "5"
    } else if d == 6 {
        "6"
    } else if d == 7 {
        "7"
    } else if d == 8 {
        "8"
    } else {
        "9"
    };
    proof {
        assert(s@ =~= seq![digit_char(d as nat)]);
    }
    s
}

/// Render a number as a decimal string.
pub fn decimal_string(v: u64) -> (s: String)
    ensures
        s@ == decimal_digits(v as nat),
    decreases v,
{
    if v < 10 {
        String::from_str(digit_str(v))
    } else {
        let mut s = decimal_string(v / 10);
        s.append(digit_str(v % 10));
        proof {
            assert(decimal_digits((v as nat) / 10) + seq![digit_char((v as nat) % 10)]
                =~= decimal_digits((v as nat) / 10).push(digit_char((v as nat) % 10)));
        }
        s
    }
}

/// Argument list for the flashing tool, in this exact order: if a discovery
/// timeout is present, the timeout flag followed by its value in decimal;
/// then the fixed flags selecting raw transfer mode, immediate execution
/// after flashing, non-interactive output, and the marker that the firmware
/// bytes arrive on standard input.
pub open spec fn flasher_args_spec(timeout: Option<u64>) -> Seq<Seq<char>> {
    let fixed = seq!["--type"@, "raw"@, "--run"@, "--no-ansi"@, "-"@];
    match timeout {
        Some(t) => seq!["--timeout"@, decimal_digits(t as nat)] + fixed,
        None => fixed,
    }
}

/// Build the flashing tool's argument list from the optional discovery
/// timeout.
pub fn flasher_args(timeout: Option<u64>) -> (args: Vec<String>)
    ensures
        args@.map_values(|s: String| s@) == flasher_args_spec(timeout),
{
    let mut args: Vec<String> = Vec::new();
    match timeout {
        Some(t) => {
            args.push(String::from_str("--timeout"));
            args.push(decimal_string(t));
        },
        None => {},
    }
    args.push(String::from_str("--type"));
    args.push(String::from_str("raw"));
    args.push(String::from_str("--run"));
    args.push(String::from_str("--no-ansi"));
    args.push(String::from_str("-"));
    proof {
        assert(args@.map_values(|s: String| s@) =~= flasher_args_spec(timeout));
    }
    args
}

/// Argument list for the object-copy tool: request hex-record output, name
/// the input object file, and direct the text to standard output.
pub open spec fn objcopy_args_spec(input: Seq<char>) -> Seq<Seq<char>> {
    seq!["--output-target=ihex"@, input, "/dev/stdout"@]
}

/// Build the object-copy tool's argument list for one input object file.
pub fn objcopy_args(input: &str) -> (args: Vec<String>)
    ensures
        args@.map_values(|s: String| s@) == objcopy_args_spec(input@),
{
    let mut args: Vec<String> = Vec::new();
    args.push(String::from_str("--output-target=ihex"));
    args.push(String::from_str(input));
    args.push(String::from_str("/dev/stdout"));
    proof {
        assert(args@.map_values(|s: String| s@) =~= objcopy_args_spec(input@));
    }
    args
}

/// Decide how a request delivers the image: a file destination becomes a
/// plain file write of the whole image to that path, with no subprocess
/// interaction; a device destination becomes a run of the flashing tool
/// with the argument list built from the request's timeout.
pub fn plan_dispatch(request: &FlashRequest) -> (plan: FlashPlan)
    ensures
        (request.destination matches Destination::File { path }
            ==> (plan matches FlashPlan::WriteFile { path: planned } && planned@ == path@)),
        (request.destination is Device ==> (plan matches FlashPlan::RunFlasher { args }
            && args@.map_values(|s: String| s@) == flasher_args_spec(
            request.discovery_timeout,
        ))),
{
    match &request.destination {
        Destination::File { path } => FlashPlan::WriteFile { path: path.clone() },
        Destination::Device => FlashPlan::RunFlasher {
            args: flasher_args(request.discovery_timeout),
        },
    }
}

/// What one invocation of the tool is asked to do.
pub enum Invocation {
    /// Convert the input object file and deliver the firmware image.
    Convert,
    /// Emit a shell-completion script instead of performing any conversion.
    Completions,
}

/// Resolve what the command line asks for: an input path means a conversion,
/// a completions request means emitting a completion script, and supplying
/// neither or both is a usage error.
pub fn resolve_invocation(has_input: bool, has_completions: bool) -> (r: Result<
    Invocation,
    PipelineError,
>)
    ensures
        has_input && !has_completions ==> (r matches Ok(m) && m is Convert),
        !has_input && has_completions ==> (r matches Ok(m) && m is Completions),
        (has_input <==> has_completions) ==> (r matches Err(e) && e is UsageError),
{
    if has_input && !has_completions {
        Ok(Invocation::Convert)
    } else if !has_input && has_completions {
        Ok(Invocation::Completions)
    } else {
        Err(PipelineError::UsageError)
    }
}

/// Surface the flashing tool's exit as success or failure: a non-zero exit
/// status fails with `ExternalToolFailed` carrying the status, and is not
/// retried.
pub fn flash_outcome(tool_success: bool, tool_code: Option<i32>) -> (r: Result<
    (),
    PipelineError,
>)
    ensures
        tool_success <==> r is Ok,
        !tool_success ==> (r matches Err(e)
            && e matches PipelineError::ExternalToolFailed { code } && code == tool_code),
{
    if tool_success {
        Ok(())
    } else {
        Err(PipelineError::ExternalToolFailed { code: tool_code })
    }
}

} // verus!
