//! The command-line recognition backend's argument construction and
//! outcome interpretation. Spawning the process and the temporary-file
//! lifecycle are the caller's edge work: it runs the tool with exactly
//! the arguments built here and hands back what happened.

use vstd::prelude::*;
use crate::error::Error;
use crate::lang::{map_tesseract_language, spec_tesseract_language};
use crate::ocr::OcrResult;
use crate::text::{chars_of, spec_trimmed, trim_window};
use crate::tsv::{parse_tesseract_tsv, spec_tsv_result};

verus! {

/// The argument list of one recognition run: the image path, output to
/// standard out, the mapped language when the hint yields one, and the
/// tabular output format.
pub open spec fn spec_tesseract_args(file_path: Seq<char>, hint: Option<Seq<char>>) -> Seq<
    Seq<char>,
> {
    let base = seq![file_path, "stdout"@];
    let with_lang = match spec_tesseract_language(hint) {
        Some(l) => base + seq!["-l"@, l],
        None => base,
    };
    with_lang.push("tsv"@)
}

/// Build the backend invocation's argument list.
pub fn tesseract_args(file_path: &str, language: Option<&str>) -> (args: Vec<String>)
    ensures
        args@.map_values(|s: String| s@) == spec_tesseract_args(
            file_path@,
            match language {
                Some(l) => Some(l@),
                None => None,
            },
        ),
{
    let mut args: Vec<String> = Vec::new();
    args.push(String::from_str(file_path));
    args.push(String::from_str("stdout"));
    match map_tesseract_language(language) {
        Some(lang) => {
            args.push(String::from_str("-l"));
            args.push(lang);
        },
        None => {},
    }
    args.push(String::from_str("tsv"));
    proof {
        assert(args@.map_values(|s: String| s@) =~= spec_tesseract_args(
            file_path@,
            match language {
                Some(l) => Some(l@),
                None => None,
            },
        ));
    }
    args
}

/// What happened at the edge when the backend was run.
#[derive(Debug)]
pub enum TesseractOutcome {
    /// The executable was not found on this system.
    ToolNotFound,
    /// The process could not be started for another reason.
    LaunchFailed { cause: String },
    /// The process ran to completion.
    Finished { success: bool, stdout: String, stderr: String },
}

/// Interpret one backend run: a missing tool is its own condition, a
/// failed run surfaces the trimmed diagnostic output, and a successful
/// run's tabular output is reconstructed into the unified result.
pub fn interpret_tesseract_outcome(outcome: TesseractOutcome) -> (out: Result<OcrResult, Error>)
    ensures
        outcome is ToolNotFound ==> out == Result::<OcrResult, Error>::Err(
            Error::BackendUnavailable,
        ),
        outcome is LaunchFailed ==> out is Err && (out->Err_0 matches
            Error::BackendExecutionFailed { stderr } && stderr@ == outcome->LaunchFailed_cause@),
        (outcome matches TesseractOutcome::Finished { success, stdout, stderr } ==> {
            &&& !success ==> out is Err && (out->Err_0 matches Error::BackendExecutionFailed {
                stderr: e,
            } && e@ == spec_trimmed(stderr@))
            &&& success ==> out is Ok && out->Ok_0@ == spec_tsv_result(stdout@)
        }),
{
    match outcome {
        TesseractOutcome::ToolNotFound => Err(Error::BackendUnavailable),
        TesseractOutcome::LaunchFailed { cause } => Err(
            Error::BackendExecutionFailed { stderr: cause },
        ),
        TesseractOutcome::Finished { success, stdout, stderr } => {
            if success {
                parse_tesseract_tsv(stdout.as_str())
            } else {
                let chars = chars_of(stderr.as_str());
                proof {
                    assert(chars@.subrange(0, chars@.len() as int) =~= chars@);
                }
                let (a, b) = trim_window(&chars, 0, chars.len());
                let trimmed = String::from_str(stderr.as_str().substring_char(a, b));
                Err(Error::BackendExecutionFailed { stderr: trimmed })
            }
        },
    }
}

} // verus!
