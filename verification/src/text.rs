//! Character-level text utilities: the exact pieces of string handling the
//! OCR layout reconstruction needs, each pinned to a sequence-level
//! specification.

use vstd::prelude::*;

verus! {

broadcast use vstd::string::group_string_axioms;

/// The characters of `s`, in order.
pub fn chars_of(s: &str) -> (out: Vec<char>)
    ensures
        out@ == s@,
{
    let mut out: Vec<char> = Vec::new();
    for c in it: s.chars()
        invariant
            it.seq() == s@,
            out@ == it.seq().take(it.index()),
    {
        out.push(c);
        proof {
            assert(out@ =~= it.seq().take(it.index() + 1));
        }
    }
    proof {
        assert(out@ =~= s@);
    }
    out
}

/// The whitespace characters: exactly the code points with the Unicode
/// white-space property.
pub open spec fn spec_is_space(c: char) -> bool {
    let u = c as u32;
    ||| (0x09 <= u && u <= 0x0d)
    ||| u == 0x20
    ||| u == 0x85
    ||| u == 0xa0
    ||| u == 0x1680
    ||| (0x2000 <= u && u <= 0x200a)
    ||| u == 0x2028
    ||| u == 0x2029
    ||| u == 0x202f
    ||| u == 0x205f
    ||| u == 0x3000
}

pub fn is_space(c: char) -> (b: bool)
    ensures
        b == spec_is_space(c),
{
    let u = c as u32;
    (0x09 <= u && u <= 0x0d) || u == 0x20 || u == 0x85 || u == 0xa0 || u == 0x1680 || (0x2000 <= u
        && u <= 0x200a) || u == 0x2028 || u == 0x2029 || u == 0x202f || u == 0x205f || u == 0x3000
}

/// `s` without its leading whitespace.
pub open spec fn spec_trim_front(s: Seq<char>) -> Seq<char>
    decreases s.len(),
{
    if s.len() == 0 {
        s
    } else if spec_is_space(s[0]) {
        spec_trim_front(s.drop_first())
    } else {
        s
    }
}

/// `s` without its trailing whitespace.
pub open spec fn spec_trim_back(s: Seq<char>) -> Seq<char>
    decreases s.len(),
{
    if s.len() == 0 {
        s
    } else if spec_is_space(s.last()) {
        spec_trim_back(s.drop_last())
    } else {
        s
    }
}

/// `s` without leading and trailing whitespace.
pub open spec fn spec_trimmed(s: Seq<char>) -> Seq<char> {
    spec_trim_back(spec_trim_front(s))
}

/// Narrow the window `[lo, hi)` of `chars` to its whitespace-trimmed core.
pub fn trim_window(chars: &Vec<char>, lo: usize, hi: usize) -> (res: (usize, usize))
    requires
        lo <= hi <= chars@.len(),
    ensures
        lo <= res.0 <= res.1 <= hi,
        chars@.subrange(res.0 as int, res.1 as int) == spec_trimmed(
            chars@.subrange(lo as int, hi as int),
        ),
{
    let mut a: usize = lo;
    while a < hi && is_space(chars[a])
        invariant
            lo <= a <= hi <= chars@.len(),
            spec_trim_front(chars@.subrange(a as int, hi as int)) == spec_trim_front(
                chars@.subrange(lo as int, hi as int),
            ),
        decreases hi - a,
    {
        proof {
            assert(chars@.subrange(a as int, hi as int).drop_first() =~= chars@.subrange(
                a + 1,
                hi as int,
            ));
        }
        a = a + 1;
    }
    let mut b: usize = hi;
    while b > a && is_space(chars[b - 1])
        invariant
            lo <= a <= b <= hi <= chars@.len(),
            spec_trim_front(chars@.subrange(a as int, hi as int)) == spec_trim_front(
                chars@.subrange(lo as int, hi as int),
            ),
            a < hi ==> !spec_is_space(chars@[a as int]),
            spec_trim_back(chars@.subrange(a as int, b as int)) == spec_trim_back(
                spec_trim_front(chars@.subrange(lo as int, hi as int)),
            ),
        decreases b,
    {
        proof {
            assert(chars@.subrange(a as int, b as int).drop_last() =~= chars@.subrange(
                a as int,
                b - 1,
            ));
        }
        b = b - 1;
    }
    proof {
        let w = chars@.subrange(a as int, b as int);
        if b > a {
            assert(w == spec_trim_back(w));
        } else {
            assert(w =~= Seq::<char>::empty());
        }
        assert(chars@.subrange(a as int, b as int) == spec_trimmed(
            chars@.subrange(lo as int, hi as int),
        ));
    }
    (a, b)
}

/// A decimal digit.
pub open spec fn spec_is_digit(c: char) -> bool {
    48 <= c as u32 <= 57
}

/// The value of a digit string, most significant digit first.
pub open spec fn spec_digits_val(s: Seq<char>) -> int
    decreases s.len(),
{
    if s.len() == 0 {
        0
    } else {
        spec_digits_val(s.drop_last()) * 10 + (s.last() as u32 - 48)
    }
}

pub open spec fn spec_all_digits(s: Seq<char>) -> bool {
    s.len() > 0 && forall|i: int| 0 <= i < s.len() ==> spec_is_digit(#[trigger] s[i])
}

/// What parsing a 32-bit signed decimal yields, with the fallback the
/// layout reconstruction uses: any string that is not a valid in-range
/// decimal — empty, stray characters, or overflow — counts as zero.
pub open spec fn spec_parse_i32_or_zero(s: Seq<char>) -> i32 {
    if s.len() > 0 && s[0] == '-' {
        let digits = s.drop_first();
        if spec_all_digits(digits) && spec_digits_val(digits) <= 2147483648 {
            (-spec_digits_val(digits)) as i32
        } else {
            0
        }
    } else {
        let digits = if s.len() > 0 && s[0] == '+' {
            s.drop_first()
        } else {
            s
        };
        if spec_all_digits(digits) && spec_digits_val(digits) <= 2147483647 {
            spec_digits_val(digits) as i32
        } else {
            0
        }
    }
}

proof fn lemma_digits_val_nonneg(s: Seq<char>)
    requires
        forall|i: int| 0 <= i < s.len() ==> spec_is_digit(#[trigger] s[i]),
    ensures
        spec_digits_val(s) >= 0,
    decreases s.len(),
{
    if s.len() > 0 {
        lemma_digits_val_nonneg(s.drop_last());
    }
}

proof fn lemma_digits_val_extend_grows(s: Seq<char>, i: int)
    requires
        forall|k: int| 0 <= k < s.len() ==> spec_is_digit(#[trigger] s[k]),
        0 <= i <= s.len(),
    ensures
        spec_digits_val(s) >= spec_digits_val(s.take(i)),
    decreases s.len() - i,
{
    if i < s.len() {
        lemma_digits_val_extend_grows(s, i + 1);
        let t = s.take(i + 1);
        assert(t.drop_last() =~= s.take(i));
        lemma_digits_val_nonneg(s.take(i));
    } else {
        assert(s.take(i) =~= s);
    }
}

/// Parse the window `[lo, hi)` of `chars` as a 32-bit signed decimal,
/// yielding zero for anything that is not one.
pub fn parse_i32_window(chars: &Vec<char>, lo: usize, hi: usize) -> (v: i32)
    requires
        lo <= hi <= chars@.len(),
    ensures
        v == spec_parse_i32_or_zero(chars@.subrange(lo as int, hi as int)),
{
    let ghost s = chars@.subrange(lo as int, hi as int);
    let mut pos: usize = lo;
    let mut negative: bool = false;
    if pos < hi && (chars[pos] == '-' || chars[pos] == '+') {
        negative = chars[pos] == '-';
        pos = pos + 1;
    }
    let ghost digits = if s.len() > 0 && (s[0] == '-' || s[0] == '+') {
        s.drop_first()
    } else {
        s
    };
    proof {
        assert(digits =~= chars@.subrange(pos as int, hi as int));
    }
    if pos == hi {
        // no digits at all
        return 0;
    }
    let mut acc: u64 = 0;
    let mut over: bool = false;
    let mut i: usize = pos;
    while i < hi
        invariant
            lo <= pos <= i <= hi <= chars@.len(),
            s == chars@.subrange(lo as int, hi as int),
            digits == chars@.subrange(pos as int, hi as int),
            digits == (if s.len() > 0 && (s[0] == '-' || s[0] == '+') {
                s.drop_first()
            } else {
                s
            }),
            negative <==> (s.len() > 0 && s[0] == '-'),
            forall|k: int| 0 <= k < i - pos ==> spec_is_digit(#[trigger] digits[k]),
            !over ==> acc == spec_digits_val(digits.take(i - pos)) && acc <= u32::MAX,
            over ==> spec_digits_val(digits.take(i - pos)) > u32::MAX,
        decreases hi - i,
    {
        let c = chars[i];
        let u = c as u32;
        if u < 48 || u > 57 {
            proof {
                assert(!spec_is_digit(digits[i - pos as int]));
                assert(!spec_all_digits(digits));
            }
            return 0;
        }
        let d: u64 = (u - 48) as u64;
        proof {
            assert(digits.take(i + 1 - pos).drop_last() =~= digits.take(i - pos));
            if over {
                lemma_digits_val_nonneg(digits.take(i - pos));
            }
        }
        if !over {
            let next: u64 = acc * 10 + d;
            if next > u32::MAX as u64 {
                over = true;
            } else {
                acc = next;
            }
        }
        i = i + 1;
    }
    proof {
        assert(digits.take(hi - pos as int) =~= digits);
        assert(spec_all_digits(digits));
    }
    if over {
        return 0;
    }
    if negative {
        if acc <= 2147483648u64 {
            (-(acc as i64)) as i32
        } else {
            0
        }
    } else {
        if acc <= 2147483647u64 {
            acc as i32
        } else {
            0
        }
    }
}

/// `s` split at every occurrence of `sep`: always one more part than there
/// are separators, with empty parts kept.
pub open spec fn spec_split(s: Seq<char>, sep: char) -> Seq<Seq<char>>
    decreases s.len(),
{
    if s.len() == 0 {
        seq![Seq::<char>::empty()]
    } else if s.last() == sep {
        spec_split(s.drop_last(), sep).push(Seq::empty())
    } else {
        let r = spec_split(s.drop_last(), sep);
        r.update(r.len() - 1, r.last().push(s.last()))
    }
}

pub proof fn lemma_split_len_pos(s: Seq<char>, sep: char)
    ensures
        spec_split(s, sep).len() >= 1,
    decreases s.len(),
{
    if s.len() > 0 {
        lemma_split_len_pos(s.drop_last(), sep);
    }
}

/// Split the window `[lo, hi)` of `chars` at `sep`, yielding the parts as
/// index windows into `chars`.
pub fn split_window(chars: &Vec<char>, lo: usize, hi: usize, sep: char) -> (parts: Vec<
    (usize, usize),
>)
    requires
        lo <= hi <= chars@.len(),
    ensures
        parts@.len() == spec_split(chars@.subrange(lo as int, hi as int), sep).len(),
        forall|k: int|
            0 <= k < parts@.len() ==> lo <= (#[trigger] parts@[k]).0 <= parts@[k].1 <= hi
                && chars@.subrange(parts@[k].0 as int, parts@[k].1 as int) == spec_split(
                chars@.subrange(lo as int, hi as int),
                sep,
            )[k],
{
    let mut parts: Vec<(usize, usize)> = Vec::new();
    let mut start: usize = lo;
    let mut i: usize = lo;
    while i < hi
        invariant
            lo <= start <= i <= hi <= chars@.len(),
            parts@.len() + 1 == spec_split(chars@.subrange(lo as int, i as int), sep).len(),
            spec_split(chars@.subrange(lo as int, i as int), sep).last() == chars@.subrange(
                start as int,
                i as int,
            ),
            forall|k: int|
                0 <= k < parts@.len() ==> lo <= (#[trigger] parts@[k]).0 <= parts@[k].1 <= i
                    && chars@.subrange(parts@[k].0 as int, parts@[k].1 as int) == spec_split(
                    chars@.subrange(lo as int, i as int),
                    sep,
                )[k],
        decreases hi - i,
    {
        let ghost pre = chars@.subrange(lo as int, i as int);
        let ghost post = chars@.subrange(lo as int, i + 1);
        proof {
            assert(post.drop_last() =~= pre);
            lemma_split_len_pos(pre, sep);
        }
        if chars[i] == sep {
            parts.push((start, i));
            start = i + 1;
        } else {
            proof {
                assert(spec_split(post, sep).last() =~= chars@.subrange(start as int, i + 1));
            }
        }
        i = i + 1;
    }
    parts.push((start, hi));
    proof {
        lemma_split_len_pos(chars@.subrange(lo as int, hi as int), sep);
    }
    parts
}

/// A part with one trailing carriage return removed, as a line terminator
/// of the carriage-return-then-newline form leaves one behind.
pub open spec fn spec_strip_cr(p: Seq<char>) -> Seq<char> {
    if p.len() > 0 && p.last() == '\r' {
        p.drop_last()
    } else {
        p
    }
}

/// The lines of `s`: parts split at newlines, each without a trailing
/// carriage return, and without the empty part a trailing newline leaves.
pub open spec fn spec_lines(s: Seq<char>) -> Seq<Seq<char>> {
    let parts = spec_split(s, '\n');
    let kept = if parts.last().len() == 0 {
        parts.drop_last()
    } else {
        parts
    };
    kept.map_values(|p: Seq<char>| spec_strip_cr(p))
}

/// The lines of `chars`, as index windows into `chars`.
pub fn lines_windows(chars: &Vec<char>) -> (parts: Vec<(usize, usize)>)
    ensures
        parts@.len() == spec_lines(chars@).len(),
        forall|k: int|
            0 <= k < parts@.len() ==> (#[trigger] parts@[k]).0 <= parts@[k].1 <= chars@.len()
                && chars@.subrange(parts@[k].0 as int, parts@[k].1 as int) == spec_lines(chars@)[k],
{
    let raw = split_window(chars, 0, chars.len(), '\n');
    proof {
        assert(chars@.subrange(0, chars@.len() as int) =~= chars@);
        lemma_split_len_pos(chars@, '\n');
    }
    let last = raw[raw.len() - 1];
    let n: usize = if last.1 == last.0 {
        raw.len() - 1
    } else {
        raw.len()
    };
    let ghost kept = if spec_split(chars@, '\n').last().len() == 0 {
        spec_split(chars@, '\n').drop_last()
    } else {
        spec_split(chars@, '\n')
    };
    proof {
        assert(spec_lines(chars@) == kept.map_values(|p: Seq<char>| spec_strip_cr(p)));
        assert(kept.len() == n);
    }
    let mut out: Vec<(usize, usize)> = Vec::new();
    let mut k: usize = 0;
    while k < n
        invariant
            k <= n == kept.len() <= raw@.len(),
            kept == (if spec_split(chars@, '\n').last().len() == 0 {
                spec_split(chars@, '\n').drop_last()
            } else {
                spec_split(chars@, '\n')
            }),
            raw@.len() == spec_split(chars@, '\n').len(),
            forall|j: int|
                0 <= j < raw@.len() ==> (#[trigger] raw@[j]).0 <= raw@[j].1 <= chars@.len()
                    && chars@.subrange(raw@[j].0 as int, raw@[j].1 as int) == spec_split(
                    chars@,
                    '\n',
                )[j],
            out@.len() == k,
            forall|j: int|
                0 <= j < k ==> (#[trigger] out@[j]).0 <= out@[j].1 <= chars@.len()
                    && chars@.subrange(out@[j].0 as int, out@[j].1 as int) == spec_strip_cr(
                    kept[j],
                ),
        decreases n - k,
    {
        let (a, b) = raw[k];
        let trimmed_b: usize = if b > a && chars[b - 1] == '\r' {
            b - 1
        } else {
            b
        };
        proof {
            if b > a && chars@[b - 1] == '\r' {
                assert(chars@.subrange(a as int, b - 1) =~= spec_strip_cr(
                    chars@.subrange(a as int, b as int),
                ));
            }
        }
        out.push((a, trimmed_b));
        k = k + 1;
    }
    proof {
        assert(forall|j: int|
            0 <= j < n ==> spec_lines(chars@)[j] == spec_strip_cr(kept[j]));
    }
    out
}

/// The parts joined with `sep` between consecutive parts.
pub open spec fn spec_join(parts: Seq<Seq<char>>, sep: Seq<char>) -> Seq<char>
    decreases parts.len(),
{
    if parts.len() == 0 {
        Seq::empty()
    } else if parts.len() == 1 {
        parts[0]
    } else {
        spec_join(parts.drop_last(), sep) + sep + parts.last()
    }
}

/// Join the given texts with `sep` between consecutive texts.
pub fn join_with(parts: &Vec<String>, sep: &str) -> (out: String)
    ensures
        out@ == spec_join(parts@.map_values(|p: String| p@), sep@),
{
    let ghost goal = parts@.map_values(|p: String| p@);
    let mut out = String::new();
    let mut k: usize = 0;
    while k < parts.len()
        invariant
            k <= parts@.len(),
            goal == parts@.map_values(|p: String| p@),
            out@ == spec_join(goal.take(k as int), sep@),
        decreases parts@.len() - k,
    {
        if k > 0 {
            out.append(sep);
        }
        out.append(parts[k].as_str());
        proof {
            assert(goal.take(k + 1).drop_last() =~= goal.take(k as int));
            assert(goal.take(k + 1).last() == goal[k as int]);
            assert(out@ =~= spec_join(goal.take(k + 1), sep@));
        }
        k = k + 1;
    }
    proof {
        assert(goal.take(parts@.len() as int) =~= goal);
    }
    out
}

} // verus!
