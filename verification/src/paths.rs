//! Stored-path handling: hashing-oriented normalization, and the pure
//! part of resolving a stored path against the data directory. What needs
//! the file system — the platform's absolute-path test, the data
//! directory itself, and existence probes — the caller passes in or
//! carries out on the returned plan.

use vstd::prelude::*;
use crate::text::{chars_of, split_window, spec_join, spec_split, spec_trimmed, trim_window};

verus! {

/// `s` with every occurrence of `from` replaced by `to`.
pub open spec fn spec_replace(s: Seq<char>, from: char, to: char) -> Seq<char> {
    Seq::new(
        s.len(),
        |i: int|
            if s[i] == from {
                to
            } else {
                s[i]
            },
    )
}

/// Whether `pat` occurs in `s` at position `i`.
pub open spec fn spec_matches_at(s: Seq<char>, pat: Seq<char>, i: int) -> bool {
    0 <= i && i + pat.len() <= s.len() && s.subrange(i, i + pat.len()) == pat
}

/// The first position at or after `i` where `pat` occurs in `s`, or a
/// negative value when it never does.
pub open spec fn spec_find_from(s: Seq<char>, pat: Seq<char>, i: int) -> int
    decreases s.len() - i,
{
    if i + pat.len() > s.len() {
        -1
    } else if spec_matches_at(s, pat, i) {
        i
    } else if i >= s.len() {
        -1
    } else {
        spec_find_from(s, pat, i + 1)
    }
}

/// The image-store normalization: separators unified to slashes, and
/// everything before a known image-directory marker cut away, so that the
/// same stored image hashes alike wherever its store lives.
pub open spec fn spec_normalize_path(p: Seq<char>) -> Seq<char> {
    let n = spec_replace(p, '\\', '/');
    let ci = spec_find_from(n, "clipboard_images/"@, 0);
    if ci >= 0 {
        n.subrange(ci, n.len() as int)
    } else {
        let pi = spec_find_from(n, "pin_images/"@, 0);
        if pi >= 0 {
            n.subrange(pi, n.len() as int)
        } else {
            n
        }
    }
}

fn matches_at(chars: &Vec<char>, pat: &Vec<char>, i: usize) -> (b: bool)
    requires
        i <= chars@.len(),
    ensures
        b == spec_matches_at(chars@, pat@, i as int),
{
    if pat.len() > chars.len() - i {
        return false;
    }
    let mut k: usize = 0;
    while k < pat.len()
        invariant
            chars@.len() <= usize::MAX,
            i + pat@.len() <= chars@.len(),
            k <= pat@.len(),
            forall|j: int| 0 <= j < k ==> chars@[i + j] == pat@[j],
        decreases pat@.len() - k,
    {
        if chars[i + k] != pat[k] {
            proof {
                assert(chars@.subrange(i as int, i + pat@.len())[k as int] != pat@[k as int]);
            }
            return false;
        }
        k = k + 1;
    }
    proof {
        assert(chars@.subrange(i as int, i + pat@.len()) =~= pat@);
    }
    true
}

fn find_sub(chars: &Vec<char>, pat: &Vec<char>) -> (r: Option<usize>)
    ensures
        r is Some ==> r->Some_0 as int == spec_find_from(chars@, pat@, 0) && spec_find_from(
            chars@,
            pat@,
            0,
        ) >= 0 && r->Some_0 + pat@.len() <= chars@.len(),
        r is None ==> spec_find_from(chars@, pat@, 0) < 0,
{
    if pat.len() > chars.len() {
        return None;
    }
    let bound: usize = chars.len() - pat.len();
    let mut i: usize = 0;
    while i <= bound
        invariant
            pat@.len() <= chars@.len(),
            bound == chars@.len() - pat@.len(),
            i <= bound + 1,
            spec_find_from(chars@, pat@, 0) == spec_find_from(chars@, pat@, i as int),
        decreases bound + 1 - i,
    {
        if matches_at(chars, pat, i) {
            return Some(i);
        }
        if i == bound {
            proof {
                if pat@.len() > 0 {
                    assert(spec_find_from(chars@, pat@, i as int + 1) == -1);
                }
            }
            return None;
        }
        i = i + 1;
    }
    None
}

/// Unify separators and cut everything before a known image-directory
/// marker.
pub fn normalize_path_for_hash(path: &str) -> (out: String)
    ensures
        out@ == spec_normalize_path(path@),
{
    let chars = chars_of(path);
    let mut rchars: Vec<char> = Vec::new();
    let mut rstr = String::new();
    let mut i: usize = 0;
    proof {
        reveal_strlit("/");
    }
    while i < chars.len()
        invariant
            chars@ == path@,
            i <= chars@.len(),
            rchars@ == spec_replace(path@, '\\', '/').take(i as int),
            rstr@ == rchars@,
        decreases chars@.len() - i,
    {
        let c = chars[i];
        if c == '\\' {
            rchars.push('/');
            rstr.append("/");
            proof {
                reveal_strlit("/");
                assert("/"@ =~= seq!['/']);
            }
        } else {
            rchars.push(c);
            let piece = path.substring_char(i, i + 1);
            rstr.append(piece);
            proof {
                assert(piece@ =~= seq![path@[i as int]]);
            }
        }
        proof {
            assert(rchars@ =~= spec_replace(path@, '\\', '/').take(i + 1));
        }
        i = i + 1;
    }
    proof {
        assert(rchars@ =~= spec_replace(path@, '\\', '/'));
    }
    let cpat = chars_of("clipboard_images/");
    match find_sub(&rchars, &cpat) {
        Some(ci) => {
            let cut = rstr.as_str().substring_char(ci, rchars.len());
            proof {
                assert(cut@ =~= spec_normalize_path(path@));
            }
            return String::from_str(cut);
        },
        None => {},
    }
    let ppat = chars_of("pin_images/");
    match find_sub(&rchars, &ppat) {
        Some(pi) => {
            let cut = rstr.as_str().substring_char(pi, rchars.len());
            proof {
                assert(cut@ =~= spec_normalize_path(path@));
            }
            return String::from_str(cut);
        },
        None => {},
    }
    rstr
}

/// A path component survives joining unless it is empty or the
/// current-directory marker.
pub open spec fn spec_keep_comp(c: Seq<char>) -> bool {
    c.len() > 0 && c != "."@
}

/// The components that survive, in order.
pub open spec fn spec_kept_comps(cs: Seq<Seq<char>>) -> Seq<Seq<char>>
    decreases cs.len(),
{
    if cs.len() == 0 {
        Seq::empty()
    } else {
        let rest = spec_kept_comps(cs.drop_last());
        if spec_keep_comp(cs.last()) {
            rest.push(cs.last())
        } else {
            rest
        }
    }
}

/// The data directory with a store-relative path appended, component by
/// component, slash-separated.
pub open spec fn spec_join_data(data_dir: Seq<char>, rel: Seq<char>) -> Seq<char> {
    let comps = spec_kept_comps(spec_split(rel, '/'));
    if comps.len() == 0 {
        data_dir
    } else {
        data_dir + "/"@ + spec_join(comps, "/"@)
    }
}

/// How a stored path is resolved: either nothing needs probing and
/// `fallback` is the answer, or each probe is tried against the file
/// system in order, the first existing one wins, and `fallback` answers
/// when none exists.
pub struct ResolvePlan {
    pub probes: Vec<String>,
    pub fallback: String,
}

pub ghost struct ResolvePlanView {
    pub probes: Seq<Seq<char>>,
    pub fallback: Seq<char>,
}

impl View for ResolvePlan {
    type V = ResolvePlanView;

    open spec fn view(&self) -> ResolvePlanView {
        ResolvePlanView {
            probes: self.probes@.map_values(|p: String| p@),
            fallback: self.fallback@,
        }
    }
}

/// The plan for one stored path: blank input resolves to nothing; an
/// absolute input stands as it is; an input that begins with a known
/// image-store marker joins onto the data directory outright; otherwise a
/// marker found further in yields a candidate to probe, and the trimmed
/// input is the fallback. With no data directory, only the trimmed input
/// remains.
pub open spec fn spec_resolve_plan(
    input: Seq<char>,
    input_is_absolute: bool,
    data_dir: Option<Seq<char>>,
) -> ResolvePlanView {
    let t = spec_trimmed(input);
    if t.len() == 0 {
        ResolvePlanView { probes: Seq::empty(), fallback: Seq::empty() }
    } else if input_is_absolute {
        ResolvePlanView { probes: Seq::empty(), fallback: t }
    } else {
        let n = spec_replace(t, '\\', '/');
        match data_dir {
            Some(dd) => {
                if spec_matches_at(n, "clipboard_images/"@, 0) || spec_matches_at(
                    n,
                    "pin_images/"@,
                    0,
                ) {
                    ResolvePlanView { probes: Seq::empty(), fallback: spec_join_data(dd, n) }
                } else {
                    let ci = spec_find_from(n, "clipboard_images/"@, 0);
                    let pi = spec_find_from(n, "pin_images/"@, 0);
                    let cprobe: Seq<Seq<char>> = if ci >= 0 {
                        seq![spec_join_data(dd, n.subrange(ci, n.len() as int))]
                    } else {
                        Seq::empty()
                    };
                    let pprobe: Seq<Seq<char>> = if pi >= 0 {
                        seq![spec_join_data(dd, n.subrange(pi, n.len() as int))]
                    } else {
                        Seq::empty()
                    };
                    ResolvePlanView { probes: cprobe + pprobe, fallback: t }
                }
            },
            None => ResolvePlanView { probes: Seq::empty(), fallback: t },
        }
    }
}

/// Join a store-relative path onto the data directory.
fn join_data_path(data_dir: &str, rel_str: &str, rel_chars: &Vec<char>, lo: usize, hi: usize) -> (out:
    String)
    requires
        rel_chars@ == rel_str@,
        lo <= hi <= rel_chars@.len(),
    ensures
        out@ == spec_join_data(data_dir@, rel_str@.subrange(lo as int, hi as int)),
{
    let ghost rel = rel_str@.subrange(lo as int, hi as int);
    let ws = split_window(rel_chars, lo, hi, '/');
    let ghost parts = spec_split(rel, '/');
    let mut out = String::from_str(data_dir);
    let wn = ws.len();
    let mut kept: usize = 0;
    let mut k: usize = 0;
    proof {
        reveal_strlit("/");
        reveal_strlit(".");
        assert(spec_kept_comps(parts.take(0)) =~= Seq::<Seq<char>>::empty());
    }
    while k < ws.len()
        invariant
            rel_chars@ == rel_str@,
            lo <= hi <= rel_chars@.len(),
            rel == rel_str@.subrange(lo as int, hi as int),
            parts == spec_split(rel, '/'),
            ws@.len() == parts.len(),
            forall|j: int|
                0 <= j < ws@.len() ==> lo <= (#[trigger] ws@[j]).0 <= ws@[j].1 <= hi
                    && rel_chars@.subrange(ws@[j].0 as int, ws@[j].1 as int) == parts[j],
            k <= ws@.len(),
            ws@.len() <= usize::MAX,
            kept <= k,
            kept == spec_kept_comps(parts.take(k as int)).len(),
            out@ == (if kept == 0 {
                data_dir@
            } else {
                data_dir@ + "/"@ + spec_join(spec_kept_comps(parts.take(k as int)), "/"@)
            }),
        decreases ws@.len() - k,
    {
        let (a, b) = ws[k];
        let keep = b - a > 1 || (b - a == 1 && rel_chars[a] != '.');
        proof {
            reveal_strlit(".");
            assert("."@ =~= seq!['.']);
            assert(parts.take(k + 1).drop_last() =~= parts.take(k as int));
            assert(parts.take(k + 1).last() == parts[k as int]);
            assert(parts[k as int] == rel_chars@.subrange(a as int, b as int));
            assert(parts[k as int].len() == b - a);
            if b - a == 1 {
                assert(rel_chars@.subrange(a as int, b as int) =~= seq![rel_chars@[a as int]]);
                if rel_chars@[a as int] != '.' {
                    assert(parts[k as int][0] != "."@[0]);
                    assert(parts[k as int] != "."@);
                } else {
                    assert(parts[k as int] =~= "."@);
                }
            }
            assert(keep == spec_keep_comp(parts[k as int]));
        }
        if keep {
            let ghost kc = spec_kept_comps(parts.take(k as int));
            out.append("/");
            let piece = rel_str.substring_char(a, b);
            out.append(piece);
            proof {
                reveal_strlit("/");
                let kc2 = spec_kept_comps(parts.take(k + 1));
                assert(kc2 =~= kc.push(parts[k as int]));
                assert(kc2.drop_last() =~= kc);
                assert(out@ =~= data_dir@ + "/"@ + spec_join(kc2, "/"@));
            }
            kept = kept + 1;
        } else {
            proof {
                assert(spec_kept_comps(parts.take(k + 1)) =~= spec_kept_comps(
                    parts.take(k as int),
                ));
            }
        }
        k = k + 1;
    }
    proof {
        assert(parts.take(parts.len() as int) =~= parts);
    }
    out
}

/// Build the resolution plan for one stored path. The caller supplies
/// whether the trimmed input is an absolute path on this platform, and
/// the data directory when one is known.
pub fn resolve_stored_path(stored_path: &str, input_is_absolute: bool, data_dir: Option<&str>) -> (plan:
    ResolvePlan)
    ensures
        plan@ == spec_resolve_plan(
            stored_path@,
            input_is_absolute,
            match data_dir {
                Some(d) => Some(d@),
                None => None,
            },
        ),
{
    let chars = chars_of(stored_path);
    proof {
        assert(chars@.subrange(0, chars@.len() as int) =~= chars@);
    }
    let (ta, tb) = trim_window(&chars, 0, chars.len());
    if ta == tb {
        let plan = ResolvePlan { probes: Vec::new(), fallback: String::new() };
        proof {
            assert(plan@.probes =~= Seq::<Seq<char>>::empty());
        }
        return plan;
    }
    let trimmed_str = String::from_str(stored_path.substring_char(ta, tb));
    if input_is_absolute {
        let plan = ResolvePlan { probes: Vec::new(), fallback: trimmed_str };
        proof {
            assert(plan@.probes =~= Seq::<Seq<char>>::empty());
        }
        return plan;
    }
    let dd = match data_dir {
        Some(d) => d,
        None => {
            let plan = ResolvePlan { probes: Vec::new(), fallback: trimmed_str };
            proof {
                assert(plan@.probes =~= Seq::<Seq<char>>::empty());
            }
            return plan;
        },
    };
    // separators of the trimmed input unified to slashes
    let ghost t = spec_trimmed(stored_path@);
    let mut nchars: Vec<char> = Vec::new();
    let mut nstr = String::new();
    let mut i: usize = ta;
    while i < tb
        invariant
            chars@ == stored_path@,
            ta <= i <= tb <= chars@.len(),
            t == spec_trimmed(stored_path@),
            t == chars@.subrange(ta as int, tb as int),
            nchars@ == spec_replace(t, '\\', '/').take(i - ta),
            nstr@ == nchars@,
        decreases tb - i,
    {
        let c = chars[i];
        if c == '\\' {
            nchars.push('/');
            nstr.append("/");
            proof {
                reveal_strlit("/");
                assert("/"@ =~= seq!['/']);
            }
        } else {
            nchars.push(c);
            let piece = stored_path.substring_char(i, i + 1);
            nstr.append(piece);
            proof {
                assert(piece@ =~= seq![chars@[i as int]]);
            }
        }
        proof {
            assert(nchars@ =~= spec_replace(t, '\\', '/').take(i + 1 - ta));
        }
        i = i + 1;
    }
    proof {
        assert(nchars@ =~= spec_replace(t, '\\', '/'));
    }
    let ghost n = spec_replace(t, '\\', '/');
    let cpat = chars_of("clipboard_images/");
    let ppat = chars_of("pin_images/");
    let starts_clip = matches_at(&nchars, &cpat, 0);
    let starts_pin = matches_at(&nchars, &ppat, 0);
    if starts_clip || starts_pin {
        let joined = join_data_path(dd, nstr.as_str(), &nchars, 0, nchars.len());
        proof {
            assert(nstr@.subrange(0, nstr@.len() as int) =~= n);
        }
        let plan = ResolvePlan { probes: Vec::new(), fallback: joined };
        proof {
            assert(plan@.probes =~= Seq::<Seq<char>>::empty());
        }
        return plan;
    }
    let mut probes: Vec<String> = Vec::new();
    match find_sub(&nchars, &cpat) {
        Some(ci) => {
            let joined = join_data_path(dd, nstr.as_str(), &nchars, ci, nchars.len());
            proof {
                assert(nstr@.subrange(ci as int, nstr@.len() as int) =~= n.subrange(
                    ci as int,
                    n.len() as int,
                ));
            }
            probes.push(joined);
        },
        None => {},
    }
    match find_sub(&nchars, &ppat) {
        Some(pi) => {
            let joined = join_data_path(dd, nstr.as_str(), &nchars, pi, nchars.len());
            proof {
                assert(nstr@.subrange(pi as int, nstr@.len() as int) =~= n.subrange(
                    pi as int,
                    n.len() as int,
                ));
            }
            probes.push(joined);
        },
        None => {},
    }
    let plan = ResolvePlan { probes, fallback: trimmed_str };
    proof {
        let sp = spec_resolve_plan(
            stored_path@,
            input_is_absolute,
            match data_dir {
                Some(d) => Some(d@),
                None => None,
            },
        );
        assert(plan@.probes =~= sp.probes);
    }
    plan
}

} // verus!
