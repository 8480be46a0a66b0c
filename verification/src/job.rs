//! Reading the log of a job: how far it has come, whether it has ended and
//! whether it has failed.

use vstd::prelude::*;
use crate::lines::{join, join_chars, lines, lines_of};
use crate::numbers::{decimal, parse_u32, parse_u32_spec, push_decimal};
use crate::text::{
    chars_of, contains, find_char, find_from, lemma_find_from, push_str, slice_of, starts_with,
    string_of, vec_contains, vec_starts_with, views,
};

verus! {

// ---------------------------------------------------------------------------
// Progress
// ---------------------------------------------------------------------------

/// The progress token that starts at index `i` of the line: an opening
/// bracket, the count of finished steps, a slash, the count of all steps and
/// a closing bracket, as in `[12/22]`. The bracket closes at the first `]`
/// behind it and the counts part at the first `/` between the brackets; both
/// counts are unsigned 32-bit numbers.
pub open spec fn token_at(line: Seq<char>, i: int) -> Option<(u32, u32)> {
    if 0 <= i < line.len() && line[i] == '[' {
        let close = find_from(line, ']', i);
        if i < close < line.len() {
            let inner = line.subrange(i + 1, close);
            let slash = find_from(inner, '/', 0);
            if 0 <= slash < inner.len() {
                match (
                    parse_u32_spec(inner.subrange(0, slash)),
                    parse_u32_spec(inner.subrange(slash + 1, inner.len() as int)),
                ) {
                    (Some(current), Some(total)) => Some((current, total)),
                    _ => None,
                }
            } else {
                None
            }
        } else {
            None
        }
    } else {
        None
    }
}

/// The last progress token that starts before index `upto` of the line.
pub open spec fn last_token(line: Seq<char>, upto: int) -> Option<(u32, u32)>
    decreases upto,
{
    if upto <= 0 {
        None
    } else {
        match token_at(line, upto - 1) {
            Some(t) => Some(t),
            None => last_token(line, upto - 1),
        }
    }
}

/// The last progress token of the last of the first `upto` lines that has
/// one.
pub open spec fn last_progress(all: Seq<Seq<char>>, upto: int) -> Option<(u32, u32)>
    decreases upto,
{
    if upto <= 0 || upto > all.len() {
        None
    } else {
        match last_token(all[upto - 1], all[upto - 1].len() as int) {
            Some(t) => Some(t),
            None => last_progress(all, upto - 1),
        }
    }
}

/// The progress that a log shows: its last progress token. Brackets that
/// hold no two counts are passed over.
pub open spec fn progress_of(logs: Seq<char>) -> Option<(u32, u32)> {
    last_progress(lines(logs), lines(logs).len() as int)
}

/// The last token wins: a progress token behind which no other token
/// starts in its line, in a line behind which no line holds a token, is the
/// progress of the log.
pub proof fn lemma_last_token_wins(all: Seq<Seq<char>>, line: int, at: int, upto: int)
    requires
        0 <= line < upto <= all.len(),
        0 <= at < all[line].len(),
        token_at(all[line], at) is Some,
        forall|i: int| at < i < all[line].len() ==> token_at(all[line], i) is None,
        forall|k: int| line < k < upto ==> last_token(#[trigger] all[k], all[k].len() as int) is None,
    ensures
        last_progress(all, upto) == token_at(all[line], at),
    decreases upto - line,
{
    if upto - 1 > line {
        lemma_last_token_wins(all, line, at, upto - 1);
    } else {
        lemma_last_token_in_line(all[line], at, all[line].len() as int);
    }
}

/// In a line the last token wins.
pub proof fn lemma_last_token_in_line(line: Seq<char>, at: int, upto: int)
    requires
        0 <= at < upto <= line.len(),
        token_at(line, at) is Some,
        forall|i: int| at < i < upto ==> token_at(line, i) is None,
    ensures
        last_token(line, upto) == token_at(line, at),
    decreases upto - at,
{
    if upto - 1 > at {
        lemma_last_token_in_line(line, at, upto - 1);
    }
}

fn read_token(line: &Vec<char>, i: usize) -> (r: Option<(u32, u32)>)
    requires
        i < line.len(),
    ensures
        r == token_at(line@, i as int),
{
    if line[i] != '[' {
        return None;
    }
    let close = find_char(line, ']', i);
    if close >= line.len() {
        return None;
    }
    proof {
        lemma_find_from(line@, ']', i as int);
    }
    let inner = slice_of(line, i + 1, close);
    let slash = find_char(&inner, '/', 0);
    if slash >= inner.len() {
        return None;
    }
    let left = slice_of(&inner, 0, slash);
    let right = slice_of(&inner, slash + 1, inner.len());
    match parse_u32(&left) {
        None => None,
        Some(current) => match parse_u32(&right) {
            None => None,
            Some(total) => Some((current, total)),
        },
    }
}

fn read_line(line: &Vec<char>) -> (r: Option<(u32, u32)>)
    ensures
        r == last_token(line@, line@.len() as int),
{
    let mut i: usize = line.len();
    while i > 0
        invariant
            i <= line.len(),
            last_token(line@, line@.len() as int) == last_token(line@, i as int),
        decreases i,
    {
        match read_token(line, i - 1) {
            Some(t) => {
                return Some(t);
            },
            None => {},
        }
        i -= 1;
    }
    None
}

/// The progress that a log shows, as finished steps and all steps: what its
/// last progress token says, such as `(3, 22)` for `[3/22]`. `None` when the
/// log holds no progress token.
pub fn parse_progress(logs: &str) -> (r: Option<(u32, u32)>)
    ensures
        r == progress_of(logs@),
{
    let text = chars_of(logs);
    let all = lines_of(&text);
    let mut i: usize = all.len();
    while i > 0
        invariant
            i <= all.len(),
            views(all@) == lines(logs@),
            progress_of(logs@) == last_progress(lines(logs@), i as int),
        decreases i,
    {
        assert(views(all@)[i - 1] == all@[i - 1]@);
        match read_line(&all[i - 1]) {
            Some(t) => {
                return Some(t);
            },
            None => {},
        }
        i -= 1;
    }
    None
}

// ---------------------------------------------------------------------------
// End and failure
// ---------------------------------------------------------------------------

/// Whether the log holds one of the marks of a benchmark run that has ended:
/// the heading of the summary, the line that tells where the results are, the
/// name of the results file, or the line of the total.
pub open spec fn shows_finish(logs: Seq<char>) -> bool {
    ||| contains(logs, "R\u{c9}SUM\u{c9} BENCHMARK"@)
    ||| contains(logs, "R\u{e9}sultats dans:"@)
    ||| contains(logs, "benchmark_results.csv"@)
    ||| contains(logs, "Total:"@)
}

/// Whether the log shows that the job has ended.
pub fn detect_job_finished(logs: &str) -> (finished: bool)
    ensures
        finished == shows_finish(logs@),
{
    let text = chars_of(logs);
    vec_contains(&text, &chars_of("R\u{c9}SUM\u{c9} BENCHMARK")) || vec_contains(
        &text,
        &chars_of("R\u{e9}sultats dans:"),
    ) || vec_contains(&text, &chars_of("benchmark_results.csv")) || vec_contains(
        &text,
        &chars_of("Total:"),
    )
}

/// Whether the log holds one of the marks of a failure.
pub open spec fn shows_error(logs: Seq<char>) -> bool {
    ||| contains(logs, "Traceback"@)
    ||| contains(logs, "Error:"@)
    ||| contains(logs, "Exception:"@)
}

/// The last `n` items of `all`; all of them when there are no more.
pub open spec fn last_items(all: Seq<Seq<char>>, n: int) -> Seq<Seq<char>> {
    if all.len() > n {
        all.skip(all.len() - n)
    } else {
        all
    }
}

/// The last `n` lines of the log, one below the other.
pub open spec fn tail_of(logs: Seq<char>, n: int) -> Seq<char> {
    join(last_items(lines(logs), n), "\n"@)
}

/// The last `n` lines of the log, one below the other.
pub fn tail_text(logs: &str, n: usize) -> (tail: String)
    ensures
        tail@ == tail_of(logs@, n as int),
{
    let text = chars_of(logs);
    let all = lines_of(&text);
    let from: usize = if all.len() > n {
        all.len() - n
    } else {
        0
    };
    proof {
        assert(views(all@).skip(0) =~= views(all@));
    }
    let sep = chars_of("\n");
    let out = join_chars(&all, from, &sep);
    string_of(&out)
}

/// The failure that the log shows: its last five lines, where the message
/// that matters usually stands. `None` when the log holds no mark of a
/// failure.
pub fn detect_job_error(logs: &str) -> (error: Option<String>)
    ensures
        error is Some == shows_error(logs@),
        error is Some ==> error->0@ == tail_of(logs@, 5),
{
    let text = chars_of(logs);
    if vec_contains(&text, &chars_of("Traceback")) || vec_contains(&text, &chars_of("Error:"))
        || vec_contains(&text, &chars_of("Exception:")) {
        Some(tail_text(logs, 5))
    } else {
        None
    }
}

// ---------------------------------------------------------------------------
// Durations
// ---------------------------------------------------------------------------

/// A duration in words: seconds below a minute, minutes and seconds below an
/// hour, hours and minutes from then on.
pub open spec fn duration_text(secs: nat) -> Seq<char> {
    if secs < 60 {
        decimal(secs) + "s"@
    } else if secs < 3600 {
        decimal(secs / 60) + "m "@ + decimal(secs % 60) + "s"@
    } else {
        decimal(secs / 3600) + "h "@ + decimal((secs % 3600) / 60) + "m"@
    }
}

/// A duration in words, such as `45s`, `2m 5s` or `1h 2m`.
pub fn format_duration(secs: u64) -> (s: String)
    ensures
        s@ == duration_text(secs as nat),
{
    let mut v: Vec<char> = Vec::new();
    if secs < 60 {
        push_decimal(&mut v, secs);
        push_str(&mut v, "s");
    } else if secs < 3600 {
        push_decimal(&mut v, secs / 60);
        push_str(&mut v, "m ");
        push_decimal(&mut v, secs % 60);
        push_str(&mut v, "s");
    } else {
        push_decimal(&mut v, secs / 3600);
        push_str(&mut v, "h ");
        push_decimal(&mut v, (secs % 3600) / 60);
        push_str(&mut v, "m");
    }
    proof {
        assert(v@ =~= duration_text(secs as nat));
    }
    string_of(&v)
}

// ---------------------------------------------------------------------------
// Benchmark files
// ---------------------------------------------------------------------------

/// Whether a file name is that of a benchmark: it begins with `benchmark_`
/// and ends with `.py`, in upper or lower case.
pub open spec fn benchmark_name(name: Seq<char>) -> bool {
    let n = name.len() as int;
    &&& starts_with(name, "benchmark_"@)
    &&& n >= 3
    &&& name[n - 3] == '.'
    &&& (name[n - 2] == 'p' || name[n - 2] == 'P')
    &&& (name[n - 1] == 'y' || name[n - 1] == 'Y')
}

/// Whether a file name is that of a benchmark.
pub fn is_benchmark_file(name: &str) -> (b: bool)
    ensures
        b == benchmark_name(name@),
{
    let v = chars_of(name);
    let n = v.len();
    vec_starts_with(&v, &chars_of("benchmark_")) && n >= 3 && v[n - 3] == '.' && (v[n - 2] == 'p'
        || v[n - 2] == 'P') && (v[n - 1] == 'y' || v[n - 1] == 'Y')
}

} // verus!
