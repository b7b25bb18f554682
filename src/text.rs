use crate::glyph_string::{all_whitespace, utf8_len, GlyphString};
use crate::sampling::{
    average_of_last_10, best_of, budget_end, lemma_budget_bounds, lemma_progress_bounds, lemma_sample_ends_after_space, lemma_sample_len_bounds, remaining_of, sample_budget,
    sample_len, sample_length, start_index, start_index_of, sum_last, wrong_num_of,
};
use crate::text_wrapper::{
    cursor_target, line_offset, offset_view, range_view, window, wrap_ranges, Dir, TextWrapper,
};
use vstd::prelude::*;

verus! {

/// The outcome of one sample: whether it was typed through, the glyph range typed
/// correctly, and when it started and ended (microseconds since the Unix epoch).
#[derive(Clone, Copy, Debug, PartialEq, Eq)]
pub struct TestResult {
    pub succeeded: bool,
    pub start_index: usize,
    pub end_index: usize,
    pub started: i64,
    pub completed: i64,
}

/// One keystroke typed during a sample, and whether it matched the text.
#[derive(Clone, Copy, Debug, PartialEq, Eq)]
pub struct KeyPress {
    pub correct: bool,
    pub key: char,
    pub time: i64,
}

/// The sample being typed: `length` glyphs from `start_index`, of which the first
/// `cur_char` have been typed correctly.
#[derive(Clone, Copy, Debug, PartialEq, Eq)]
pub struct Test {
    pub start_index: usize,
    pub length: usize,
    pub cur_char: usize,
    pub start_time: i64,
}

/// Where finished samples go: called once for each, with the keystrokes typed for it.
///
/// A verified implementation models what it has been handed in `received` and what
/// it reports in `reply`; the defaults are for implementations outside verified code,
/// which nothing here checks.
pub trait Persister {
    /// The records handed over so far, each with its keystrokes, oldest first.
    open spec fn received(&self) -> Seq<(TestResult, Seq<KeyPress>)> {
        Seq::empty()
    }

    /// What handing over `result` with `keypresses` reports, in this state.
    open spec fn reply(&self, result: TestResult, keypresses: Seq<KeyPress>) -> Result<(), String> {
        Ok(())
    }

    fn on_test_complete(&mut self, result: TestResult, keypresses: Vec<KeyPress>) -> (r: Result<
        (),
        String,
    >)
        ensures
            final(self).received() == old(self).received().push((result, keypresses@)),
            r == old(self).reply(result, keypresses@),
    ;
}

/// Keeps every record, with its keystrokes, in memory.
pub struct RecordLog {
    pub records: Vec<(TestResult, Vec<KeyPress>)>,
}

impl RecordLog {
    pub fn new() -> (r: Self)
        ensures
            r.records@.len() == 0,
    {
        RecordLog { records: Vec::new() }
    }
}

impl Persister for RecordLog {
    open spec fn received(&self) -> Seq<(TestResult, Seq<KeyPress>)> {
        self.records@.map_values(|p: (TestResult, Vec<KeyPress>)| (p.0, p.1@))
    }

    open spec fn reply(&self, result: TestResult, keypresses: Seq<KeyPress>) -> Result<(), String> {
        Ok(())
    }

    fn on_test_complete(&mut self, result: TestResult, keypresses: Vec<KeyPress>) -> (r: Result<
        (),
        String,
    >) {
        self.records.push((result, keypresses));
        proof {
            assert(self.received() =~= old(self).received().push((result, keypresses@)));
        }
        Ok(())
    }
}

/// Relies on `chrono::Utc::now` and `DateTime::timestamp_micros`: the current time in
/// microseconds since the Unix epoch, which nothing here constrains.
#[verifier::external_body]
fn now_micros() -> (r: i64) {
    chrono::Utc::now().timestamp_micros()
}

/// The sample chosen after `log`, started at `now`; none once the successful samples
/// have reached the end of the text.
pub open spec fn next_test_for(text: GlyphString, log: Seq<TestResult>, now: i64) -> Option<Test> {
    let start = start_index_of(log);
    if start >= text.spec_len() {
        None
    } else {
        Some(
            Test {
                start_index: start as usize,
                length: sample_len(text, start, remaining_of(log)) as usize,
                cur_char: 0,
                start_time: now,
            },
        )
    }
}

/// `next_test_for` at some moment: the time is the only thing left open.
pub open spec fn is_next_test(text: GlyphString, log: Seq<TestResult>, test: Option<Test>) -> bool {
    match test {
        Some(t) => test == next_test_for(text, log, t.start_time),
        None => next_test_for(text, log, 0) is None,
    }
}

/// The glyph to show as focused: the next one to type, or the last glyph once the
/// text is used up (0 for an empty text).
pub open spec fn focus_for(test: Option<Test>, n: int) -> int {
    match test {
        Some(t) => t.start_index + t.cur_char,
        None => if n > 0 {
            n - 1
        } else {
            0
        },
    }
}

/// Whether `c` is the glyph that `t` waits for.
pub open spec fn is_correct(text: GlyphString, t: Test, c: char) -> bool {
    text.glyph(t.start_index + t.cur_char) == seq![c]
}

/// `t` after a keystroke: one glyph further when it was right, and timed from the
/// first right keystroke.
pub open spec fn advanced(t: Test, correct: bool, now: i64) -> Test {
    if correct {
        Test {
            cur_char: (t.cur_char + 1) as usize,
            start_time: if t.cur_char == 0 {
                now
            } else {
                t.start_time
            },
            ..t
        }
    } else {
        t
    }
}

/// A keystroke ends the sample when it is wrong or types its last glyph.
pub open spec fn ends_test(t: Test, correct: bool) -> bool {
    !correct || t.cur_char + 1 == t.length
}

/// The record of a sample that ends with a keystroke at `now`.
pub open spec fn result_for(t: Test, correct: bool, now: i64) -> TestResult {
    let a = advanced(t, correct, now);
    TestResult {
        succeeded: correct,
        start_index: t.start_index,
        end_index: (t.start_index + a.cur_char) as usize,
        started: a.start_time,
        completed: now,
    }
}

pub open spec fn test_fits(t: Test, n: int) -> bool {
    &&& t.cur_char < t.length
    &&& t.start_index + t.length <= n
}

/// An open text being practised: the text, the sample under way, the focused glyph,
/// the wrap cache, the log of finished samples and the keystrokes of this sample.
pub struct OpenText<P: Persister> {
    pub text: GlyphString,
    pub test: Option<Test>,
    pub focused_glyph: usize,
    pub wrapper: TextWrapper,
    pub test_log: Vec<TestResult>,
    pub keypress_log: Vec<KeyPress>,
    pub save: P,
}

impl<P: Persister> OpenText<P> {
    pub open spec fn wf(&self) -> bool {
        &&& self.text.wf()
        &&& self.wrapper.wf(self.text)
        &&& self.test matches Some(t) ==> test_fits(t, self.text.spec_len() as int)
    }

    /// `after` is this text after a keystroke `c` at `now` that returned `r`.
    pub open spec fn char_step(&self, after: Self, c: char, now: i64, r: Result<(), String>) -> bool {
        &&& after.text == self.text
        &&& after.wrapper == self.wrapper
        &&& match self.test {
            None => {
                &&& after.test == self.test
                &&& after.test_log == self.test_log
                &&& after.keypress_log == self.keypress_log
                &&& after.focused_glyph == self.focused_glyph
                &&& after.save == self.save
                &&& r is Ok
            },
            Some(t) => {
                let correct = is_correct(self.text, t, c);
                let press = KeyPress { correct, key: c, time: now };
                let record = result_for(t, correct, now);
                &&& if ends_test(t, correct) {
                    &&& after.test_log@ == self.test_log@.push(record)
                    &&& after.save.received() == self.save.received().push(
                        (record, self.keypress_log@),
                    )
                    &&& r == self.save.reply(record, self.keypress_log@)
                    &&& after.keypress_log@ == seq![press]
                    &&& after.test == next_test_for(self.text, after.test_log@, now)
                } else {
                    &&& after.test_log@ == self.test_log@
                    &&& after.save == self.save
                    &&& r is Ok
                    &&& after.keypress_log@ == self.keypress_log@.push(press)
                    &&& after.test == Some(advanced(t, correct, now))
                }
                &&& after.focused_glyph == focus_for(after.test, self.text.spec_len() as int)
            },
        }
    }

    /// Picks the next sample after the log, started at `now`.
    fn next_test(&mut self, now: i64)
        requires
            old(self).text.wf(),
        ensures
            final(self).test == next_test_for(old(self).text, old(self).test_log@, now),
            final(self).text == old(self).text,
            final(self).wrapper == old(self).wrapper,
            final(self).test_log == old(self).test_log,
            final(self).keypress_log == old(self).keypress_log,
            final(self).focused_glyph == old(self).focused_glyph,
            final(self).save == old(self).save,
            final(self).test matches Some(t) ==> test_fits(t, old(self).text.spec_len() as int),
    {
        let start = start_index(&self.test_log);
        if start >= self.text.len() {
            self.test = None;
            return;
        }
        let remaining = sample_budget(&self.test_log);
        let length = sample_length(&self.text, start, remaining);
        self.test = Some(Test { start_index: start, cur_char: 0, length, start_time: now });
    }

    /// Opens `text` with the log of earlier samples, choosing the first sample at `now`.
    pub fn new_at(text: String, test_log: Vec<TestResult>, save: P, now: i64) -> (r: Self)
        requires
            utf8_len(text@) <= usize::MAX,
        ensures
            r.wf(),
            r.text.string@ == text@,
            r.test_log == test_log,
            r.save == save,
            r.keypress_log@.len() == 0,
            r.wrapper.w is None,
            r.test == next_test_for(r.text, test_log@, now),
            r.focused_glyph == focus_for(r.test, r.text.spec_len() as int),
    {
        let text = GlyphString::new(text);
        let mut ret = OpenText {
            focused_glyph: 0,
            text,
            test: None,
            wrapper: TextWrapper::new(),
            test_log,
            save,
            keypress_log: Vec::new(),
        };
        ret.next_test(now);
        ret.snap_to_cursor();
        ret
    }

    /// Opens `text` with the log of earlier samples and chooses the first sample.
    pub fn new(text: String, test_log: Vec<TestResult>, save: P) -> (r: Self)
        requires
            utf8_len(text@) <= usize::MAX,
        ensures
            r.wf(),
            r.text.string@ == text@,
            r.test_log == test_log,
            r.save == save,
            r.keypress_log@.len() == 0,
            r.wrapper.w is None,
            is_next_test(r.text, test_log@, r.test),
            r.focused_glyph == focus_for(r.test, r.text.spec_len() as int),
    {
        let now = now_micros();
        Self::new_at(text, test_log, save, now)
    }

    /// Moves the focus back to the next glyph to type (or to the last glyph once the
    /// text is used up).
    pub fn snap_to_cursor(&mut self)
        requires
            old(self).text.wf(),
            old(self).test matches Some(t) ==> test_fits(t, old(self).text.spec_len() as int),
        ensures
            final(self).focused_glyph == focus_for(old(self).test, old(self).text.spec_len() as int),
            final(self).text == old(self).text,
            final(self).test == old(self).test,
            final(self).wrapper == old(self).wrapper,
            final(self).test_log == old(self).test_log,
            final(self).keypress_log == old(self).keypress_log,
            final(self).save == old(self).save,
    {
        let n = self.text.len();
        match &self.test {
            Some(t) => {
                self.focused_glyph = t.start_index + t.cur_char;
            },
            None => {
                self.focused_glyph = if n > 0 {
                    n - 1
                } else {
                    0
                };
            },
        }
    }

    /// The sum of the last ten lengths over five glyphs, divided by ten.
    pub fn get_rolling_average(&self) -> (r: usize)
        ensures
            r == sum_last(self.test_log@, self.test_log@.len() as int, 10) / 10,
    {
        average_of_last_10(&self.test_log)
    }

    /// Takes keystroke `c`, typed at `now`. A right keystroke moves the sample on; a
    /// wrong one, or the one that completes the sample, ends it: its record is logged
    /// and handed to the persister with the sample's earlier keystrokes, and the next
    /// sample is chosen. What the persister returns is returned.
    #[verifier::rlimit(50)]
    pub fn handle_char_at(&mut self, c: char, now: i64) -> (r: Result<(), String>)
        requires
            old(self).wf(),
        ensures
            final(self).wf(),
            old(self).char_step(*final(self), c, now, r),
    {
        match self.test {
            None => Ok(()),
            Some(t) => {
                let correct = self.text.glyph_is_char(t.start_index + t.cur_char, c);
                let mut test = t;
                if correct {
                    if test.cur_char == 0 {
                        test.start_time = now;
                    }
                    test.cur_char = test.cur_char + 1;
                }
                let mut outcome: Result<(), String> = Ok(());
                if !correct || test.cur_char == test.length {
                    let res = TestResult {
                        succeeded: correct,
                        start_index: test.start_index,
                        end_index: test.start_index + test.cur_char,
                        started: test.start_time,
                        completed: now,
                    };
                    self.test_log.push(res);
                    let mut keypresses: Vec<KeyPress> = Vec::new();
                    std::mem::swap(&mut keypresses, &mut self.keypress_log);
                    outcome = self.save.on_test_complete(res, keypresses);
                    self.next_test(now);
                } else {
                    self.test = Some(test);
                }
                let log_entry = KeyPress { correct, key: c, time: now };
                self.keypress_log.push(log_entry);
                self.snap_to_cursor();
                proof {
                    assert(test == advanced(t, correct, now));
                }
                outcome
            },
        }
    }

    /// Takes keystroke `c`, typed now; see [`OpenText::handle_char_at`].
    pub fn handle_char(&mut self, c: char) -> (r: Result<(), String>)
        requires
            old(self).wf(),
        ensures
            final(self).wf(),
            exists|now: i64| old(self).char_step(*final(self), c, now, r),
    {
        let now = now_micros();
        self.handle_char_at(c, now)
    }

    /// Up to `num` display lines at `line_width` from line `first` on.
    pub fn lines(&mut self, line_width: u16, first: usize, num: usize) -> (r: Vec<(usize, usize)>)
        requires
            old(self).wf(),
        ensures
            final(self).wf(),
            final(self).wrapper.rewrapped(old(self).wrapper, old(self).text, line_width),
            range_view(final(self).wrapper.line_ranges()) == wrap_ranges(old(self).text, line_width),
            r@ == window(final(self).wrapper.line_ranges(), first as int, num as int),
            final(self).text == old(self).text,
            final(self).test == old(self).test,
            final(self).focused_glyph == old(self).focused_glyph,
            final(self).test_log == old(self).test_log,
            final(self).keypress_log == old(self).keypress_log,
            final(self).save == old(self).save,
    {
        self.wrapper.lines(&self.text, line_width, first, num)
    }

    /// The display line at `line_width` that holds glyph `idx`, and the glyph's place in
    /// it; `None` past the end of the text.
    pub fn line_offset_of_idx(&mut self, idx: usize, line_width: u16) -> (r: Option<(usize, usize)>)
        requires
            old(self).wf(),
        ensures
            final(self).wf(),
            final(self).wrapper.rewrapped(old(self).wrapper, old(self).text, line_width),
            range_view(final(self).wrapper.line_ranges()) == wrap_ranges(old(self).text, line_width),
            offset_view(r) == line_offset(final(self).wrapper.line_ranges(), idx as int),
            final(self).text == old(self).text,
            final(self).test == old(self).test,
            final(self).focused_glyph == old(self).focused_glyph,
            final(self).test_log == old(self).test_log,
            final(self).keypress_log == old(self).keypress_log,
            final(self).save == old(self).save,
    {
        self.wrapper.line_offset_of_idx(&self.text, line_width, idx)
    }

    /// Moves the focused glyph in `dir` over the display lines at `line_width`; where
    /// there is nowhere to go it stays.
    pub fn move_cursor(&mut self, line_width: u16, dir: Dir)
        requires
            old(self).wf(),
        ensures
            final(self).wf(),
            final(self).wrapper.rewrapped(old(self).wrapper, old(self).text, line_width),
            range_view(final(self).wrapper.line_ranges()) == wrap_ranges(old(self).text, line_width),
            final(self).focused_glyph == match cursor_target(
                final(self).wrapper.line_ranges(),
                old(self).focused_glyph as int,
                dir,
            ) {
                Some(g) => g,
                None => old(self).focused_glyph as int,
            },
            final(self).text == old(self).text,
            final(self).test == old(self).test,
            final(self).test_log == old(self).test_log,
            final(self).keypress_log == old(self).keypress_log,
            final(self).save == old(self).save,
    {
        if let Some(new_focused_glyph) = self.wrapper.move_cursor(
            &self.text,
            line_width,
            self.focused_glyph,
            dir,
        ) {
            self.focused_glyph = new_focused_glyph;
        }
    }
}

/// The sample chosen after any log stays inside the text, and it is at most five
/// glyphs longer than the best recent length unless the word and white space that
/// finish it run on for more than five glyphs past its budget.
pub proof fn lemma_sample_bound(text: GlyphString, log: Seq<TestResult>)
    requires
        text.wf(),
        0 <= start_index_of(log) < text.spec_len(),
    ensures
        ({
            let start = start_index_of(log);
            let len = sample_len(text, start, remaining_of(log));
            &&& 1 <= len
            &&& start + len <= text.spec_len()
            &&& len - (budget_end(text, start, remaining_of(log)) - start) <= 5 ==> len <= best_of(log)
                + 5
        }),
{
    lemma_budget_bounds(log);
    lemma_sample_len_bounds(text, start_index_of(log), remaining_of(log));
}

/// Each qualifying failure at the end of the log takes five glyphs off the budget, down
/// to zero: with none the budget is the best recent length plus five, with three it is
/// that less fifteen, or zero.
pub proof fn lemma_failure_shrink(log: Seq<TestResult>)
    ensures
        wrong_num_of(log) == 0 ==> remaining_of(log) == best_of(log),
        wrong_num_of(log) == 3 ==> remaining_of(log) == (if best_of(log) > 15 {
            best_of(log) - 15
        } else {
            0
        }),
{
    lemma_budget_bounds(log);
}

/// The sample chosen after any log starts where the last successful sample ended,
/// covers at least one glyph and at least its budget of `remaining_of(log)` glyphs (cut
/// at the end of the text), stays inside the text, and ends at the end of the text or
/// right after white space that a glyph which is not white space follows.
pub proof fn lemma_next_test_shape(text: GlyphString, log: Seq<TestResult>, now: i64)
    requires
        text.wf(),
    ensures
        next_test_for(text, log, now) matches Some(t) ==> ({
            let e = t.start_index + t.length;
            &&& t.start_index == start_index_of(log)
            &&& t.cur_char == 0
            &&& t.length >= 1
            &&& t.length == sample_len(text, t.start_index as int, remaining_of(log))
            &&& e <= text.spec_len()
            &&& e >= budget_end(text, t.start_index as int, remaining_of(log))
            &&& e == text.spec_len() || (all_whitespace(text.glyph(e - 1)) && !all_whitespace(
                text.glyph(e),
            ))
        }),
{
    let start = start_index_of(log);
    lemma_progress_bounds(log, log.len() as int);
    if start < text.spec_len() {
        lemma_budget_bounds(log);
        lemma_sample_len_bounds(text, start, remaining_of(log));
        lemma_sample_ends_after_space(text, start, remaining_of(log));
    }
}

} // verus!
