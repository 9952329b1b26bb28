//! Converter invocation contract: the fixed command line handed to the
//! external subtitle converter, and the classification of its outcome into
//! usable subtitle bytes or a conversion error.

use vstd::prelude::*;

verus! {

/// What running the converter produced: the process could not be spawned, or
/// it finished with an exit status and its standard-output bytes.
#[derive(Debug)]
pub enum ConverterOutcome {
    SpawnFailed,
    Finished { success: bool, stdout: Vec<u8> },
}

/// Why a conversion yielded no subtitle.  `ToolFailed` carries the tool's
/// standard output, which is its diagnostic channel on failure.
#[derive(Debug)]
pub enum ConversionError {
    SpawnFailed,
    ToolFailed(Vec<u8>),
}

/// On success the standard-output bytes are the subtitle artifact content,
/// verbatim; a non-zero exit turns them into the failure diagnostic instead.
pub open spec fn conversion_result_spec(o: ConverterOutcome) -> Result<Vec<u8>, ConversionError> {
    match o {
        ConverterOutcome::SpawnFailed => Err(ConversionError::SpawnFailed),
        ConverterOutcome::Finished { success, stdout } => if success {
            Ok(stdout)
        } else {
            Err(ConversionError::ToolFailed(stdout))
        },
    }
}

/// Classifies one converter run; see `conversion_result_spec`.
pub fn classify_conversion(outcome: ConverterOutcome) -> (r: Result<Vec<u8>, ConversionError>)
    ensures
        r == conversion_result_spec(outcome),
{
    match outcome {
        ConverterOutcome::SpawnFailed => Err(ConversionError::SpawnFailed),
        ConverterOutcome::Finished { success, stdout } => if success {
            Ok(stdout)
        } else {
            Err(ConversionError::ToolFailed(stdout))
        },
    }
}

/// The fixed command line of one conversion: the converter program, flags
/// selecting raw standard-output delivery and no network fallback inside the
/// tool, and the resolved URL as the sole positional argument.
pub fn converter_invocation(url: &str) -> (r: (String, Vec<String>))
    ensures
        r.0@ == "danmu2ass"@,
        r.1@.len() == 4,
        r.1@[0]@ == "--no-web"@,
        r.1@[1]@ == "-o"@,
        r.1@[2]@ == "-"@,
        r.1@[3]@ == url@,
{
    let mut args: Vec<String> = Vec::new();
    args.push(String::from_str("--no-web"));
    args.push(String::from_str("-o"));
    args.push(String::from_str("-"));
    args.push(String::from_str(url));
    (String::from_str("danmu2ass"), args)
}

} // verus!
