//! The failure conditions of capture and recognition. Every failure is
//! terminal for the call that produced it; none is retried internally.

use vstd::prelude::*;

verus! {

/// Why a capture or recognition call failed.
#[derive(Debug)]
pub enum Error {
    /// The OS screen-recording consent is missing; granting it requires
    /// user action and an application restart.
    PermissionDenied,
    /// Display enumeration returned an empty list.
    NoDisplaysFound,
    /// Reading one display's geometry failed; the cause is kept verbatim.
    DisplayQueryFailed { index: usize, cause: String },
    /// Capturing one display's pixels failed; the cause is kept verbatim.
    CaptureFailed { index: usize, cause: String },
    /// Zero extent or a pixel buffer of the wrong size reached the encoder.
    EncodingInvariantViolation,
    /// The external recognition tool is not installed.
    BackendUnavailable,
    /// The external recognition tool ran and failed; its stderr is kept.
    BackendExecutionFailed { stderr: String },
    /// The recognition backend's output could not be read at all.
    MalformedBackendOutput,
}

/// The decimal digits of `n`, most significant first.
pub open spec fn spec_decimal(n: nat) -> Seq<char>
    decreases n,
{
    if n < 10 {
        seq![spec_digit_char(n)]
    } else {
        spec_decimal(n / 10).push(spec_digit_char(n % 10))
    }
}

pub open spec fn spec_digit_char(d: nat) -> char
    recommends
        d < 10,
{
    ((48 + d) as u8) as char
}

/// Append the decimal rendering of `n` to `out`.
pub fn append_decimal(out: &mut String, n: usize)
    ensures
        final(out)@ == old(out)@ + spec_decimal(n as nat),
    decreases n,
{
    if n >= 10 {
        append_decimal(out, n / 10);
    }
    let d: usize = n % 10;
    let digit: &str = match d {
        0 => "0",
        1 => "1",
        2 => "2",
        3 => "3",
        4 => "4",
        5 => "5",
        6 => "6",
        7 => "7",
        8 => "8",
        _ => "9",
    };
    proof {
        reveal_strlit("0");
        reveal_strlit("1");
        reveal_strlit("2");
        reveal_strlit("3");
        reveal_strlit("4");
        reveal_strlit("5");
        reveal_strlit("6");
        reveal_strlit("7");
        reveal_strlit("8");
        reveal_strlit("9");
    }
    out.append(digit);
    proof {
        assert(digit@ =~= seq![spec_digit_char(d as nat)]);
        assert(final(out)@ =~= old(out)@ + spec_decimal(n as nat));
    }
}

impl Error {
    /// What `message` returns for each failure.
    pub open spec fn spec_message(self) -> Seq<char> {
        match self {
            Error::PermissionDenied => "screen recording permission is missing; grant it in the system privacy settings, then fully restart the application"@,
            Error::NoDisplaysFound => "no displays found"@,
            Error::DisplayQueryFailed { index, cause } => "display query failed["@ + spec_decimal(
                index as nat,
            ) + "]: "@ + cause@,
            Error::CaptureFailed { index, cause } => "screen capture failed["@ + spec_decimal(
                index as nat,
            ) + "]: "@ + cause@,
            Error::EncodingInvariantViolation => "capture produced a zero extent or an undersized pixel buffer"@,
            Error::BackendUnavailable => "tesseract executable not found; please install tesseract first"@,
            Error::BackendExecutionFailed { stderr } => "tesseract recognition failed: "@
                + stderr@,
            Error::MalformedBackendOutput => "OCR backend output could not be read"@,
        }
    }

    /// A human-readable description; underlying causes appear verbatim.
    pub fn message(&self) -> (out: String)
        ensures
            out@ == self.spec_message(),
    {
        match self {
            Error::PermissionDenied => String::from_str(
                "screen recording permission is missing; grant it in the system privacy settings, then fully restart the application",
            ),
            Error::NoDisplaysFound => String::from_str("no displays found"),
            Error::DisplayQueryFailed { index, cause } => {
                let mut out = String::from_str("display query failed[");
                append_decimal(&mut out, *index);
                out.append("]: ");
                out.append(cause.as_str());
                out
            },
            Error::CaptureFailed { index, cause } => {
                let mut out = String::from_str("screen capture failed[");
                append_decimal(&mut out, *index);
                out.append("]: ");
                out.append(cause.as_str());
                out
            },
            Error::EncodingInvariantViolation => String::from_str(
                "capture produced a zero extent or an undersized pixel buffer",
            ),
            Error::BackendUnavailable => String::from_str(
                "tesseract executable not found; please install tesseract first",
            ),
            Error::BackendExecutionFailed { stderr } => {
                let mut out = String::from_str("tesseract recognition failed: ");
                out.append(stderr.as_str());
                out
            },
            Error::MalformedBackendOutput => String::from_str(
                "OCR backend output could not be read",
            ),
        }
    }
}

} // verus!
