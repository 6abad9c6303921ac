//! Language-hint mapping. A hint is a BCP-47-style tag, so the prefix
//! tests are case-insensitive ASCII comparisons: a "zh"-prefixed hint
//! selects Simplified Chinese, an "en"-prefixed hint US English.

use vstd::prelude::*;
use crate::text::{chars_of, spec_trimmed, trim_window};

verus! {

/// Case-insensitive match of one character against a lower-case ASCII
/// letter.
pub open spec fn spec_ci_eq(c: char, lower: char) -> bool {
    c == lower || c as u32 + 32 == lower as u32
}

/// Whether `s` starts, case-insensitively, with the lower-case ASCII
/// prefix `p`.
pub open spec fn spec_has_ci_prefix(s: Seq<char>, p: Seq<char>) -> bool {
    s.len() >= p.len() && forall|i: int| 0 <= i < p.len() ==> spec_ci_eq(s[i], #[trigger] p[i])
}

/// The command-line backend's language code for a hint: trimmed; empty
/// selects the backend default; "zh"-prefixed maps to `chi_sim`;
/// "en"-prefixed maps to `eng`; anything else passes through unchanged.
pub open spec fn spec_tesseract_language(hint: Option<Seq<char>>) -> Option<Seq<char>> {
    match hint {
        None => None,
        Some(h) => {
            let t = spec_trimmed(h);
            if t.len() == 0 {
                None
            } else if spec_has_ci_prefix(t, "zh"@) {
                Some("chi_sim"@)
            } else if spec_has_ci_prefix(t, "en"@) {
                Some("eng"@)
            } else {
                Some(t)
            }
        },
    }
}

/// The vision framework's language-preference list for a hint:
/// "zh"-prefixed requests Simplified Chinese, "en"-prefixed US English,
/// anything else — or no hint — requests both, Chinese first.
pub open spec fn spec_vision_hints(hint: Option<Seq<char>>) -> Seq<Seq<char>> {
    match hint {
        None => seq!["zh-Hans"@, "en-US"@],
        Some(h) => {
            let t = spec_trimmed(h);
            if spec_has_ci_prefix(t, "zh"@) {
                seq!["zh-Hans"@]
            } else if spec_has_ci_prefix(t, "en"@) {
                seq!["en-US"@]
            } else {
                seq!["zh-Hans"@, "en-US"@]
            }
        },
    }
}

/// Case-insensitive test of the window `[lo, hi)` of `chars` against a
/// two-letter lower-case ASCII prefix.
fn has_ci_prefix2(chars: &Vec<char>, lo: usize, hi: usize, p0: char, p1: char) -> (b: bool)
    requires
        lo <= hi <= chars@.len(),
        97 <= p0 as u32 <= 122,
        97 <= p1 as u32 <= 122,
    ensures
        b == spec_has_ci_prefix(chars@.subrange(lo as int, hi as int), seq![p0, p1]),
{
    if hi - lo < 2 {
        return false;
    }
    let c0 = chars[lo];
    let c1 = chars[lo + 1];
    let m0 = c0 == p0 || (c0 as u32) == (p0 as u32) - 32;
    let m1 = c1 == p1 || (c1 as u32) == (p1 as u32) - 32;
    proof {
        let w = chars@.subrange(lo as int, hi as int);
        let p = seq![p0, p1];
        assert(w[0] == chars@[lo as int] && w[1] == chars@[lo + 1]);
        if m0 && m1 {
            assert(forall|i: int| 0 <= i < p.len() ==> spec_ci_eq(w[i], #[trigger] p[i])) by {
                assert(p[0] == p0 && p[1] == p1);
            }
        }
    }
    m0 && m1
}

/// Map a hint to the command-line backend's language code.
pub fn map_tesseract_language(language: Option<&str>) -> (out: Option<String>)
    ensures
        out is Some <==> spec_tesseract_language(
            match language {
                Some(l) => Some(l@),
                None => None,
            },
        ) is Some,
        out is Some ==> out->Some_0@ == spec_tesseract_language(
            match language {
                Some(l) => Some(l@),
                None => None,
            },
        )->Some_0,
{
    let l = match language {
        Some(l) => l,
        None => {
            return None;
        },
    };
    let chars = chars_of(l);
    proof {
        assert(chars@.subrange(0, chars@.len() as int) =~= chars@);
    }
    let (a, b) = trim_window(&chars, 0, chars.len());
    if a == b {
        return None;
    }
    proof {
        reveal_strlit("zh");
        reveal_strlit("en");
        reveal_strlit("chi_sim");
        reveal_strlit("eng");
    }
    if has_ci_prefix2(&chars, a, b, 'z', 'h') {
        proof {
            assert(seq!['z', 'h'] =~= "zh"@);
        }
        Some(String::from_str("chi_sim"))
    } else if has_ci_prefix2(&chars, a, b, 'e', 'n') {
        proof {
            assert(seq!['z', 'h'] =~= "zh"@);
            assert(seq!['e', 'n'] =~= "en"@);
        }
        Some(String::from_str("eng"))
    } else {
        proof {
            assert(seq!['z', 'h'] =~= "zh"@);
            assert(seq!['e', 'n'] =~= "en"@);
        }
        let trimmed = l.substring_char(a, b);
        Some(String::from_str(trimmed))
    }
}

/// Build the vision framework's language-preference list for a hint.
pub fn vision_language_hints(language: Option<&str>) -> (out: Vec<String>)
    ensures
        out@.map_values(|s: String| s@) == spec_vision_hints(
            match language {
                Some(l) => Some(l@),
                None => None,
            },
        ),
{
    proof {
        reveal_strlit("zh");
        reveal_strlit("en");
        reveal_strlit("zh-Hans");
        reveal_strlit("en-US");
    }
    let mut out: Vec<String> = Vec::new();
    match language {
        Some(l) => {
            let chars = chars_of(l);
            proof {
                assert(chars@.subrange(0, chars@.len() as int) =~= chars@);
            }
            let (a, b) = trim_window(&chars, 0, chars.len());
            if has_ci_prefix2(&chars, a, b, 'z', 'h') {
                proof {
                    assert(seq!['z', 'h'] =~= "zh"@);
                }
                out.push(String::from_str("zh-Hans"));
                proof {
                    assert(out@.map_values(|s: String| s@) =~= seq!["zh-Hans"@]);
                }
            } else if has_ci_prefix2(&chars, a, b, 'e', 'n') {
                proof {
                    assert(seq!['z', 'h'] =~= "zh"@);
                    assert(seq!['e', 'n'] =~= "en"@);
                }
                out.push(String::from_str("en-US"));
                proof {
                    assert(out@.map_values(|s: String| s@) =~= seq!["en-US"@]);
                }
            } else {
                proof {
                    assert(seq!['z', 'h'] =~= "zh"@);
                    assert(seq!['e', 'n'] =~= "en"@);
                }
                out.push(String::from_str("zh-Hans"));
                out.push(String::from_str("en-US"));
                proof {
                    assert(out@.map_values(|s: String| s@) =~= seq!["zh-Hans"@, "en-US"@]);
                }
            }
        },
        None => {
            out.push(String::from_str("zh-Hans"));
            out.push(String::from_str("en-US"));
            proof {
                assert(out@.map_values(|s: String| s@) =~= seq!["zh-Hans"@, "en-US"@]);
            }
        },
    }
    out
}

} // verus!
