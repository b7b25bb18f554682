use crate::glyph_string::{all_whitespace, GlyphString};
use crate::text::TestResult;
use vstd::prelude::*;

verus! {

/// Sample size used while no attempt of more than five glyphs has been logged.
pub const STARTING_SAMPLE_SIZE: usize = 100;

/// Glyphs covered by an attempt; an entry whose end precedes its start covers none.
pub open spec fn attempt_len(t: TestResult) -> int {
    if t.end_index >= t.start_index {
        t.end_index - t.start_index
    } else {
        0
    }
}

/// An attempt counts towards the statistics when it covered more than five glyphs.
pub open spec fn qualifies(t: TestResult) -> bool {
    attempt_len(t) > 5
}

/// Where the next sample starts, looking at the first `j` entries: the end of the
/// latest successful one, or 0.
pub open spec fn progress(log: Seq<TestResult>, j: int) -> int
    decreases j,
{
    if j <= 0 {
        0
    } else if log[j - 1].succeeded {
        log[j - 1].end_index as int
    } else {
        progress(log, j - 1)
    }
}

pub open spec fn start_index_of(log: Seq<TestResult>) -> int {
    progress(log, log.len() as int)
}

/// Sum of the lengths of the last `k` qualifying entries among the first `j`.
pub open spec fn sum_last(log: Seq<TestResult>, j: int, k: int) -> int
    decreases j,
{
    if j <= 0 || k <= 0 {
        0
    } else if qualifies(log[j - 1]) {
        attempt_len(log[j - 1]) + sum_last(log, j - 1, k - 1)
    } else {
        sum_last(log, j - 1, k)
    }
}

/// How many qualifying entries there are among the first `j`, up to `k`.
pub open spec fn count_last(log: Seq<TestResult>, j: int, k: int) -> int
    decreases j,
{
    if j <= 0 || k <= 0 {
        0
    } else if qualifies(log[j - 1]) {
        1 + count_last(log, j - 1, k - 1)
    } else {
        count_last(log, j - 1, k)
    }
}

/// Largest length among the last `k` qualifying entries of the first `j` (0 if none).
pub open spec fn max_last(log: Seq<TestResult>, j: int, k: int) -> int
    decreases j,
{
    if j <= 0 || k <= 0 {
        0
    } else if qualifies(log[j - 1]) {
        let rest = max_last(log, j - 1, k - 1);
        if attempt_len(log[j - 1]) > rest {
            attempt_len(log[j - 1])
        } else {
            rest
        }
    } else {
        max_last(log, j - 1, k)
    }
}

/// Number of qualifying entries in the run of failures that ends the first `j`.
pub open spec fn failures_at_tail(log: Seq<TestResult>, j: int) -> int
    decreases j,
{
    if j <= 0 || log[j - 1].succeeded {
        0
    } else if qualifies(log[j - 1]) {
        1 + failures_at_tail(log, j - 1)
    } else {
        failures_at_tail(log, j - 1)
    }
}

/// Sum of the last 50 qualifying lengths, divided by 50 (not by how many there are).
pub open spec fn avg_50_of(log: Seq<TestResult>) -> int {
    sum_last(log, log.len() as int, 50) / 50
}

/// Longest of the last 10 qualifying lengths, or the starting size if there is none.
pub open spec fn max_10_of(log: Seq<TestResult>) -> int {
    if count_last(log, log.len() as int, 10) == 0 {
        STARTING_SAMPLE_SIZE as int
    } else {
        max_last(log, log.len() as int, 10)
    }
}

pub open spec fn best_of(log: Seq<TestResult>) -> int {
    if avg_50_of(log) > max_10_of(log) {
        avg_50_of(log) + 5
    } else {
        max_10_of(log) + 5
    }
}

pub open spec fn wrong_num_of(log: Seq<TestResult>) -> int {
    failures_at_tail(log, log.len() as int)
}

/// The number of glyphs a sample takes before it looks for the end of a word.
pub open spec fn remaining_of(log: Seq<TestResult>) -> int {
    if best_of(log) > 5 * wrong_num_of(log) {
        best_of(log) - 5 * wrong_num_of(log)
    } else {
        0
    }
}

/// The first glyph at or after `i` that is white space, or the end of the text.
pub open spec fn word_end(text: GlyphString, i: int) -> int
    decreases text.spec_len() - i,
{
    if i < 0 || i >= text.spec_len() || all_whitespace(text.glyph(i)) {
        i
    } else {
        word_end(text, i + 1)
    }
}

/// The first glyph at or after `i` that is not white space, or the end of the text.
pub open spec fn space_end(text: GlyphString, i: int) -> int
    decreases text.spec_len() - i,
{
    if i < 0 || i >= text.spec_len() || !all_whitespace(text.glyph(i)) {
        i
    } else {
        space_end(text, i + 1)
    }
}

/// Where the budget of `remaining` glyphs from `start` runs out (at most the end).
pub open spec fn budget_end(text: GlyphString, start: int, remaining: int) -> int {
    if start + remaining >= text.spec_len() {
        text.spec_len() as int
    } else {
        start + remaining
    }
}

/// Length of a sample from `start` with a budget of `remaining` glyphs: the budget,
/// then the rest of the word it ends in, then the white space after that word.
pub open spec fn sample_len(text: GlyphString, start: int, remaining: int) -> int {
    space_end(text, word_end(text, budget_end(text, start, remaining))) - start
}

proof fn lemma_word_end_bounds(text: GlyphString, i: int)
    requires
        0 <= i <= text.spec_len(),
    ensures
        i <= word_end(text, i) <= text.spec_len(),
    decreases text.spec_len() - i,
{
    if i < text.spec_len() && !all_whitespace(text.glyph(i)) {
        lemma_word_end_bounds(text, i + 1);
    }
}

proof fn lemma_space_end_bounds(text: GlyphString, i: int)
    requires
        0 <= i <= text.spec_len(),
    ensures
        i <= space_end(text, i) <= text.spec_len(),
    decreases text.spec_len() - i,
{
    if i < text.spec_len() && all_whitespace(text.glyph(i)) {
        lemma_space_end_bounds(text, i + 1);
    }
}

proof fn lemma_word_end_stops(text: GlyphString, i: int)
    requires
        0 <= i <= text.spec_len(),
    ensures
        word_end(text, i) == text.spec_len() || all_whitespace(text.glyph(word_end(text, i))),
    decreases text.spec_len() - i,
{
    if i < text.spec_len() && !all_whitespace(text.glyph(i)) {
        lemma_word_end_stops(text, i + 1);
    }
}

proof fn lemma_space_end_stops(text: GlyphString, i: int)
    requires
        0 <= i <= text.spec_len(),
    ensures
        space_end(text, i) == text.spec_len() || !all_whitespace(text.glyph(space_end(text, i))),
        space_end(text, i) > i ==> all_whitespace(text.glyph(space_end(text, i) - 1)),
    decreases text.spec_len() - i,
{
    if i < text.spec_len() && all_whitespace(text.glyph(i)) {
        lemma_space_end_stops(text, i + 1);
    }
}

/// A sample ends at the end of the text, or right after white space that a glyph
/// which is not white space follows: never inside a word.
pub proof fn lemma_sample_ends_after_space(text: GlyphString, start: int, remaining: int)
    requires
        0 <= start < text.spec_len(),
        remaining >= 0,
    ensures
        ({
            let e = start + sample_len(text, start, remaining);
            e == text.spec_len() || (all_whitespace(text.glyph(e - 1)) && !all_whitespace(
                text.glyph(e),
            ))
        }),
{
    let b = budget_end(text, start, remaining);
    lemma_word_end_bounds(text, b);
    lemma_word_end_stops(text, b);
    let x = word_end(text, b);
    lemma_space_end_stops(text, x);
    if x < text.spec_len() {
        lemma_space_end_bounds(text, x + 1);
        assert(space_end(text, x) == space_end(text, x + 1));
    }
}

/// The start of the next sample is never negative and fits a `usize`.
pub proof fn lemma_progress_bounds(log: Seq<TestResult>, j: int)
    ensures
        0 <= progress(log, j) <= usize::MAX,
    decreases j,
{
    if j > 0 && !log[j - 1].succeeded {
        lemma_progress_bounds(log, j - 1);
    }
}

/// A sample that starts inside the text covers at least one glyph and stays inside it.
pub proof fn lemma_sample_len_bounds(text: GlyphString, start: int, remaining: int)
    requires
        0 <= start < text.spec_len(),
        remaining >= 0,
    ensures
        1 <= sample_len(text, start, remaining) <= text.spec_len() - start,
        sample_len(text, start, remaining) >= budget_end(text, start, remaining) - start,
{
    let b = budget_end(text, start, remaining);
    lemma_word_end_bounds(text, b);
    lemma_space_end_bounds(text, word_end(text, b));
    if b == start {
        assert(remaining == 0);
        if all_whitespace(text.glyph(start)) {
            assert(word_end(text, start) == start);
            assert(space_end(text, start) == space_end(text, start + 1));
            lemma_space_end_bounds(text, start + 1);
        } else {
            assert(word_end(text, start) == word_end(text, start + 1));
            lemma_word_end_bounds(text, start + 1);
        }
    }
}

proof fn lemma_sum_last_bound(log: Seq<TestResult>, j: int, k: int)
    requires
        j <= log.len(),
        k >= 0,
        forall|i: int| 0 <= i < log.len() ==> (#[trigger] log[i]).end_index <= usize::MAX,
    ensures
        0 <= sum_last(log, j, k) <= k * usize::MAX,
    decreases j,
{
    if j > 0 && k > 0 {
        if qualifies(log[j - 1]) {
            lemma_sum_last_bound(log, j - 1, k - 1);
            assert(attempt_len(log[j - 1]) <= usize::MAX);
            assert((k - 1) * usize::MAX + usize::MAX == k * usize::MAX) by (nonlinear_arith);
        } else {
            lemma_sum_last_bound(log, j - 1, k);
        }
    } else {
        assert(0 <= k * usize::MAX) by (nonlinear_arith)
            requires
                k >= 0,
        ;
    }
}

proof fn lemma_max_last_bound(log: Seq<TestResult>, j: int, k: int)
    requires
        j <= log.len(),
    ensures
        0 <= max_last(log, j, k) <= usize::MAX,
        0 <= failures_at_tail(log, j) <= (if j > 0 {
            j
        } else {
            0
        }),
    decreases j,
{
    if j > 0 {
        if k > 0 {
            if qualifies(log[j - 1]) {
                lemma_max_last_bound(log, j - 1, k - 1);
            } else {
                lemma_max_last_bound(log, j - 1, k);
            }
        }
        lemma_max_last_bound(log, j - 1, 0);
    }
}

/// The best recent length is never negative, so the best plus five is at least five,
/// and the budget never exceeds it.
pub proof fn lemma_budget_bounds(log: Seq<TestResult>)
    ensures
        best_of(log) >= 5,
        wrong_num_of(log) >= 0,
        0 <= remaining_of(log) <= best_of(log),
{
    lemma_sum_last_bound(log, log.len() as int, 50);
    lemma_max_last_bound(log, log.len() as int, 10);
}

/// Glyphs covered by one attempt.
pub fn attempt_length(t: &TestResult) -> (r: usize)
    ensures
        r == attempt_len(*t),
{
    if t.end_index >= t.start_index {
        t.end_index - t.start_index
    } else {
        0
    }
}

/// Where the next sample starts: the end of the latest successful attempt, or 0.
pub fn start_index(log: &Vec<TestResult>) -> (r: usize)
    ensures
        r == start_index_of(log@),
{
    let mut j: usize = log.len();
    while j > 0 && !log[j - 1].succeeded
        invariant
            j <= log@.len(),
            progress(log@, j as int) == start_index_of(log@),
        decreases j,
    {
        j = j - 1;
    }
    if j == 0 {
        0
    } else {
        log[j - 1].end_index
    }
}

/// Sum of the lengths of the last `k` qualifying attempts.
fn sum_of_last(log: &Vec<TestResult>, k: usize) -> (r: u128)
    requires
        k <= 50,
    ensures
        r == sum_last(log@, log@.len() as int, k as int),
        r <= k * usize::MAX,
{
    let mut j: usize = log.len();
    let mut left: usize = k;
    let mut sum: u128 = 0;
    proof {
        lemma_sum_last_bound(log@, log@.len() as int, k as int);
    }
    while j > 0 && left > 0
        invariant
            j <= log@.len(),
            left <= k <= 50,
            sum + sum_last(log@, j as int, left as int) == sum_last(log@, log@.len() as int, k as int),
            sum <= (k - left) * usize::MAX,
        decreases j,
    {
        let len = attempt_length(&log[j - 1]);
        if len > 5 {
            proof {
                assert(sum + len <= (k - left + 1) * usize::MAX) by (nonlinear_arith)
                    requires
                        sum <= (k - left) * usize::MAX,
                        len <= usize::MAX,
                ;
            }
            sum = sum + len as u128;
            left = left - 1;
        }
        j = j - 1;
    }
    sum
}

/// Sum of the last 50 qualifying lengths divided by 50.
pub fn average_of_last_50(log: &Vec<TestResult>) -> (r: usize)
    ensures
        r == avg_50_of(log@),
{
    let sum = sum_of_last(log, 50);
    proof {
        assert(sum / 50 <= usize::MAX) by (nonlinear_arith)
            requires
                sum <= 50 * usize::MAX,
        ;
    }
    (sum / 50) as usize
}

/// Sum of the last 10 qualifying lengths divided by 10.
pub fn average_of_last_10(log: &Vec<TestResult>) -> (r: usize)
    ensures
        r == sum_last(log@, log@.len() as int, 10) / 10,
{
    let sum = sum_of_last(log, 10);
    proof {
        assert(sum / 10 <= usize::MAX) by (nonlinear_arith)
            requires
                sum <= 10 * usize::MAX,
        ;
    }
    (sum / 10) as usize
}

/// Longest of the last 10 qualifying lengths, or the starting size if there is none.
pub fn max_of_last_10(log: &Vec<TestResult>) -> (r: usize)
    ensures
        r == max_10_of(log@),
{
    let mut j: usize = log.len();
    let mut left: usize = 10;
    let mut best: usize = 0;
    let mut found: bool = false;
    proof {
        lemma_max_last_bound(log@, log@.len() as int, 10);
    }
    while j > 0 && left > 0
        invariant
            j <= log@.len(),
            left <= 10,
            found == (left < 10),
            max_last(log@, log@.len() as int, 10) == (if max_last(log@, j as int, left as int)
                > best {
                max_last(log@, j as int, left as int)
            } else {
                best as int
            }),
            count_last(log@, log@.len() as int, 10) == (10 - left) + count_last(
                log@,
                j as int,
                left as int,
            ),
            best >= 0,
        decreases j,
    {
        let len = attempt_length(&log[j - 1]);
        proof {
            lemma_max_last_bound(log@, j - 1, left - 1);
        }
        if len > 5 {
            if len > best {
                best = len;
            }
            left = left - 1;
            found = true;
        }
        j = j - 1;
    }
    if found {
        best
    } else {
        STARTING_SAMPLE_SIZE
    }
}

/// Qualifying attempts in the run of failures at the end of the log.
pub fn tail_failures(log: &Vec<TestResult>) -> (r: usize)
    ensures
        r == wrong_num_of(log@),
{
    let mut j: usize = log.len();
    let mut count: usize = 0;
    let total = log.len();
    while j > 0 && !log[j - 1].succeeded
        invariant
            j <= log@.len(),
            total == log@.len(),
            count + failures_at_tail(log@, j as int) == wrong_num_of(log@),
            count <= log@.len() - j,
        decreases j,
    {
        if attempt_length(&log[j - 1]) > 5 {
            count = count + 1;
        }
        j = j - 1;
    }
    count
}

/// The budget of the next sample: the best recent length plus five, less five for
/// each qualifying failure at the end of the log, and never below zero.
pub fn sample_budget(log: &Vec<TestResult>) -> (r: u128)
    ensures
        r == remaining_of(log@),
{
    let avg_50 = average_of_last_50(log);
    let max_10 = max_of_last_10(log);
    let best: u128 = if avg_50 > max_10 {
        avg_50 as u128 + 5
    } else {
        max_10 as u128 + 5
    };
    let wrong_num = tail_failures(log);
    let penalty: u128 = wrong_num as u128 * 5;
    if best > penalty {
        best - penalty
    } else {
        0
    }
}

/// Length of the sample that starts at glyph `start` with a budget of `remaining`
/// glyphs: the budget, then the rest of the word, then the white space after it.
pub fn sample_length(text: &GlyphString, start: usize, remaining: u128) -> (r: usize)
    requires
        text.wf(),
        start < text.spec_len(),
    ensures
        r == sample_len(*text, start as int, remaining as int),
        1 <= r <= text.spec_len() - start,
{
    let n = text.len();
    let mut i: usize = if remaining >= (n - start) as u128 {
        n
    } else {
        start + remaining as usize
    };
    let ghost b = i as int;
    proof {
        assert(b == budget_end(*text, start as int, remaining as int));
        lemma_word_end_bounds(*text, b);
        lemma_sample_len_bounds(*text, start as int, remaining as int);
    }
    while i < n && !text.glyph_is_whitespace(i)
        invariant
            text.wf(),
            n == text.spec_len(),
            b <= i <= n,
            word_end(*text, i as int) == word_end(*text, b),
        decreases n - i,
    {
        i = i + 1;
    }
    let ghost w = i as int;
    while i < n && text.glyph_is_whitespace(i)
        invariant
            text.wf(),
            n == text.spec_len(),
            w <= i <= n,
            w == word_end(*text, b),
            space_end(*text, i as int) == space_end(*text, w),
        decreases n - i,
    {
        i = i + 1;
    }
    i - start
}

} // verus!
