use scrivenwright::app::App;
use scrivenwright::handler::{KeyAction, KeyCode, KeyDown, KeyModifiers};
use scrivenwright::sampling::{
    average_of_last_50, max_of_last_10, sample_budget, sample_length, start_index, tail_failures,
};
use scrivenwright::settings::{Settings, FULL_TEXT_WIDTH_PERCENT};
use scrivenwright::glyph_string::GlyphString;
use scrivenwright::text::{KeyPress, OpenText, Persister, RecordLog, Test, TestResult};
use scrivenwright::text_wrapper::Dir;
use scrivenwright::ui::{get_window_size, viewport, GlyphClass, Viewport};

#[derive(Default)]
struct Recorder {
    saved: Vec<(TestResult, Vec<KeyPress>)>,
}

impl Persister for Recorder {
    fn on_test_complete(&mut self, result: TestResult, keypresses: Vec<KeyPress>) -> Result<(), String> {
        self.saved.push((result, keypresses));
        Ok(())
    }
}

struct Failing;

impl Persister for Failing {
    fn on_test_complete(&mut self, _result: TestResult, _keypresses: Vec<KeyPress>) -> Result<(), String> {
        Err("disk full".to_string())
    }
}

fn entry(succeeded: bool, start_index: usize, end_index: usize) -> TestResult {
    TestResult { succeeded, start_index, end_index, started: 0, completed: 0 }
}

fn open(text: &str, log: Vec<TestResult>) -> OpenText<Recorder> {
    OpenText::new_at(text.to_string(), log, Recorder::default(), 1000)
}

#[test]
fn first_sample_of_a_short_text_takes_all_of_it() {
    let text = "abcdefghij klmnopqrst";
    assert_eq!(text.chars().count(), 21);
    let t = open(text, Vec::new());
    let test = t.test.unwrap();
    assert_eq!(test.start_index, 0);
    assert_eq!(test.length, 21);
    assert_eq!(test.cur_char, 0);
    assert_eq!(test.start_time, 1000);
    assert_eq!(t.focused_glyph, 0);
}

#[test]
fn statistics_of_a_long_history() {
    let mut log = Vec::new();
    for _ in 0..49 {
        log.push(entry(true, 0, 8));
    }
    log.push(entry(true, 0, 12));
    assert_eq!(average_of_last_50(&log), 8);
    assert_eq!(max_of_last_10(&log), 12);
    assert_eq!(tail_failures(&log), 0);
    assert_eq!(sample_budget(&log), 17);
    assert_eq!(start_index(&log), 12);
    // From glyph 12 the budget ends inside "dddd": the sample runs on to the end of
    // that word and its space.
    let t = open("xxxxxxxxxxxxaaaa bbbb cccc dddd eeee", log);
    let test = t.test.unwrap();
    assert_eq!(test.start_index, 12);
    assert_eq!(test.length, 20);
}

#[test]
fn sample_ends_at_the_text_end() {
    let mut log = Vec::new();
    for _ in 0..49 {
        log.push(entry(true, 0, 8));
    }
    log.push(entry(true, 0, 12));
    let t = open("xxxxxxxxxxxxaaaa bbbb cccc dd", log);
    let test = t.test.unwrap();
    assert_eq!(test.length, 17);
    assert!(test.length <= 17);
}

#[test]
fn three_tail_failures_shrink_the_budget() {
    let log = vec![
        entry(true, 0, 20),
        entry(false, 20, 30),
        entry(false, 20, 30),
        entry(false, 20, 30),
    ];
    assert_eq!(tail_failures(&log), 3);
    assert_eq!(average_of_last_50(&log), 1);
    assert_eq!(max_of_last_10(&log), 20);
    assert_eq!(sample_budget(&log), 25 - 15);
    assert_eq!(start_index(&log), 20);
}

#[test]
fn failures_floor_the_budget_at_zero() {
    let mut log = Vec::new();
    for _ in 0..30 {
        log.push(entry(false, 0, 10));
    }
    assert_eq!(tail_failures(&log), 30);
    assert_eq!(sample_budget(&log), 0);
    let g = GlyphString::new("abc def ghi".to_string());
    assert_eq!(sample_length(&g, 0, 0), 4);
    assert_eq!(sample_length(&g, 3, 0), 1);
}

#[test]
fn short_attempts_do_not_count() {
    let log = vec![entry(true, 0, 30), entry(false, 30, 33), entry(false, 30, 35)];
    assert_eq!(tail_failures(&log), 0);
    assert_eq!(max_of_last_10(&log), 30);
    assert_eq!(sample_budget(&log), 35);
    assert_eq!(start_index(&log), 30);
    let none = vec![entry(true, 0, 5)];
    assert_eq!(max_of_last_10(&none), 100);
    assert_eq!(sample_budget(&none), 105);
}

#[test]
fn whitespace_glyphs_close_a_sample() {
    let g = GlyphString::new("ab\u{3000}\u{3000}cd".to_string());
    assert_eq!(sample_length(&g, 0, 1), 4);
    let g = GlyphString::new("ab\u{2603}\u{2603}cd".to_string());
    assert_eq!(sample_length(&g, 0, 1), 6);
}

#[test]
fn typing_a_whole_sample() {
    let mut t = open("ab cd", Vec::new());
    assert_eq!(t.test.unwrap().length, 5);
    for c in "ab cd".chars() {
        assert_eq!(t.handle_char_at(c, 2000), Ok(()));
    }
    assert_eq!(t.save.saved.len(), 1);
    let (result, keys) = &t.save.saved[0];
    assert!(result.succeeded);
    assert_eq!(result.start_index, 0);
    assert_eq!(result.end_index, 5);
    assert_eq!(result.started, 2000);
    assert_eq!(result.completed, 2000);
    assert_eq!(keys.len(), 4);
    assert_eq!(t.test_log.len(), 1);
    assert_eq!(t.keypress_log, vec![KeyPress { correct: true, key: 'd', time: 2000 }]);
    assert!(t.test.is_none());
    assert_eq!(t.focused_glyph, 4);
}

#[test]
fn finishing_a_sample_moves_on() {
    let log = vec![entry(false, 0, 6)];
    let text = "ab cd ef gh ij kl mn op";
    let mut t = open(text, log);
    let first = t.test.unwrap();
    assert_eq!(first.start_index, 0);
    assert_eq!(first.length, 9);
    let chars: Vec<char> = text.chars().collect();
    for i in 0..first.length {
        assert_eq!(t.handle_char_at(chars[i], 10), Ok(()));
    }
    let next = t.test.unwrap();
    assert_eq!(next.start_index, 9);
    assert_eq!(next.cur_char, 0);
    assert_eq!(t.focused_glyph, 9);
    assert_eq!(t.save.saved.len(), 1);
    assert_eq!(t.test_log[1], entry_at(true, 0, 9, 10, 10));
}

fn entry_at(succeeded: bool, start_index: usize, end_index: usize, started: i64, completed: i64) -> TestResult {
    TestResult { succeeded, start_index, end_index, started, completed }
}

#[test]
fn a_wrong_key_ends_the_sample_without_progress() {
    let mut t = open("abc def", Vec::new());
    assert_eq!(t.handle_char_at('a', 50), Ok(()));
    assert_eq!(t.focused_glyph, 1);
    assert_eq!(t.handle_char_at('x', 60), Ok(()));
    assert_eq!(t.save.saved.len(), 1);
    let (result, keys) = &t.save.saved[0];
    assert!(!result.succeeded);
    assert_eq!(result.start_index, 0);
    assert_eq!(result.end_index, 1);
    assert_eq!(result.started, 50);
    assert_eq!(result.completed, 60);
    assert_eq!(keys, &vec![KeyPress { correct: true, key: 'a', time: 50 }]);
    assert_eq!(t.keypress_log, vec![KeyPress { correct: false, key: 'x', time: 60 }]);
    let next = t.test.unwrap();
    assert_eq!(next.start_index, 0);
    assert_eq!(next.cur_char, 0);
    assert_eq!(t.focused_glyph, 0);
}

#[test]
fn timer_starts_at_the_first_right_key() {
    let mut t = open("abc def", Vec::new());
    assert_eq!(t.test.unwrap().start_time, 1000);
    t.handle_char_at('a', 1500).unwrap();
    assert_eq!(t.test.unwrap().start_time, 1500);
    t.handle_char_at('b', 1700).unwrap();
    assert_eq!(t.test.unwrap().start_time, 1500);
    assert_eq!(t.test.unwrap().cur_char, 2);
}

#[test]
fn persister_errors_are_returned() {
    let mut t = OpenText::new_at("ab".to_string(), Vec::new(), Failing, 0);
    assert_eq!(t.handle_char_at('z', 1), Err("disk full".to_string()));
    assert_eq!(t.test_log.len(), 1);
    assert_eq!(t.test.unwrap().start_index, 0);
}

#[test]
fn empty_text_is_used_up_from_the_start() {
    let mut t = open("", Vec::new());
    assert!(t.test.is_none());
    assert_eq!(t.focused_glyph, 0);
    assert_eq!(t.handle_char_at('a', 5), Ok(()));
    assert!(t.test_log.is_empty());
    assert!(t.keypress_log.is_empty());
}

#[test]
fn finished_text_focuses_the_last_glyph() {
    let t = open("abcd", vec![entry(true, 0, 4)]);
    assert!(t.test.is_none());
    assert_eq!(t.focused_glyph, 3);
}

#[test]
fn new_reads_the_clock() {
    let t = OpenText::new("abc".to_string(), Vec::new(), RecordLog::new());
    let test = t.test.unwrap();
    assert_eq!(test, Test { start_index: 0, length: 3, cur_char: 0, start_time: test.start_time });
    assert!(test.start_time > 0);
}

#[test]
fn rolling_average_over_ten() {
    let mut log = Vec::new();
    for _ in 0..12 {
        log.push(entry(true, 0, 7));
    }
    log.push(entry(true, 0, 2));
    let t = open("abc", log);
    assert_eq!(t.get_rolling_average(), 7);
    let t = open("abc", vec![entry(true, 0, 30)]);
    assert_eq!(t.get_rolling_average(), 3);
}

#[test]
fn focus_moves_and_snaps_back() {
    let mut t = open("hello world foo", Vec::new());
    t.move_cursor(8, Dir::Down);
    assert_eq!(t.focused_glyph, 6);
    t.move_cursor(8, Dir::Right);
    assert_eq!(t.focused_glyph, 7);
    assert_eq!(t.line_offset_of_idx(7, 8), Some((1, 1)));
    assert_eq!(t.lines(8, 0, 2), vec![(0, 6), (6, 12)]);
    t.snap_to_cursor();
    assert_eq!(t.focused_glyph, 0);
}

#[test]
fn keys_map_to_actions() {
    let ctrl = |c| KeyDown { code: KeyCode::Char(c), mods: KeyModifiers::Ctrl };
    let plain = |code| KeyDown { code, mods: KeyModifiers::Unimplemented };
    assert_eq!(ctrl('c').action(), KeyAction::Quit);
    assert_eq!(ctrl('f').action(), KeyAction::ToggleFullWidth);
    assert_eq!(ctrl('x').action(), KeyAction::Type('x'));
    assert_eq!(plain(KeyCode::Char('c')).action(), KeyAction::Type('c'));
    assert_eq!(plain(KeyCode::Up).action(), KeyAction::Move(Dir::Up));
    assert_eq!(plain(KeyCode::Esc).action(), KeyAction::Snap);
    assert_eq!(plain(KeyCode::Unimplemented).action(), KeyAction::Nothing);
}

#[test]
fn key_events_drive_the_app() {
    let mut app = App::new(());
    let mut t = open("hello world foo", Vec::new());
    let key = |code, mods| KeyDown { code, mods };
    app.handle_key_events(key(KeyCode::Char('h'), KeyModifiers::Unimplemented), &mut t, 100).unwrap();
    assert_eq!(t.focused_glyph, 1);
    app.handle_key_events(key(KeyCode::Char('f'), KeyModifiers::Ctrl), &mut t, 100).unwrap();
    assert!(app.settings.full_text_width);
    assert_eq!(app.settings.text_width_percent, FULL_TEXT_WIDTH_PERCENT);
    app.handle_key_events(key(KeyCode::Char('f'), KeyModifiers::Ctrl), &mut t, 100).unwrap();
    assert_eq!(app.settings.text_width_percent, 60);
    // 60% of 14 columns is 8.
    app.handle_key_events(key(KeyCode::Down, KeyModifiers::Unimplemented), &mut t, 14).unwrap();
    assert_eq!(t.focused_glyph, 7);
    app.handle_key_events(key(KeyCode::Esc, KeyModifiers::Unimplemented), &mut t, 14).unwrap();
    assert_eq!(t.focused_glyph, 1);
    assert!(app.running);
    app.handle_key_events(key(KeyCode::Char('c'), KeyModifiers::Ctrl), &mut t, 14).unwrap();
    assert!(!app.running);
    assert_eq!(t.test.unwrap().cur_char, 1);
}

#[test]
fn line_width_is_a_share_of_the_terminal() {
    let s = Settings::new();
    assert_eq!(s.line_width(100), 60);
    assert_eq!(s.line_width(14), 8);
    let full = Settings { text_width_percent: FULL_TEXT_WIDTH_PERCENT, full_text_width: true };
    assert_eq!(full.line_width(200), 192);
    assert_eq!(Settings::default().text_width_percent, 60);
}

#[test]
fn glyph_classes() {
    let mut t = open("abc def", Vec::new());
    t.handle_char_at('a', 1).unwrap();
    assert_eq!(t.glyph_class(0), GlyphClass::Typed);
    assert_eq!(t.glyph_class(1), GlyphClass::Cursor);
    assert_eq!(t.glyph_class(2), GlyphClass::Pending);
    assert_eq!(t.glyph_class(7), GlyphClass::OutsideSample);
    let done = open("ab", vec![entry(true, 0, 2)]);
    assert_eq!(done.glyph_class(1), GlyphClass::OutsideSample);
}

#[test]
fn viewport_centres_the_focus() {
    assert_eq!(viewport(10, 24), Viewport { first_line: 1, first_row: 0, num_lines: 22 });
    assert_eq!(viewport(3, 24), Viewport { first_line: 0, first_row: 6, num_lines: 16 });
    assert_eq!(viewport(0, 1), Viewport { first_line: 0, first_row: 0, num_lines: 0 });
}

#[test]
fn window_size_in_cells() {
    assert_eq!(get_window_size(1920, 1080), (96, 24));
    assert_eq!(get_window_size(19, 43), (0, 0));
}

#[test]
fn browser_key_names() {
    let plain = |code| KeyDown { code, mods: KeyModifiers::Unimplemented };
    assert_eq!(KeyDown::from_browser_key("Escape", false), plain(KeyCode::Esc));
    assert_eq!(KeyDown::from_browser_key("ArrowUp", false), plain(KeyCode::Up));
    assert_eq!(KeyDown::from_browser_key("ArrowLeft", false), plain(KeyCode::Left));
    assert_eq!(KeyDown::from_browser_key("q", false), plain(KeyCode::Char('q')));
    assert_eq!(KeyDown::from_browser_key("\u{e9}", false), plain(KeyCode::Unimplemented));
    assert_eq!(KeyDown::from_browser_key("Shift", false), plain(KeyCode::Unimplemented));
    assert_eq!(
        KeyDown::from_browser_key("c", true),
        KeyDown { code: KeyCode::Char('c'), mods: KeyModifiers::Ctrl }
    );
    assert_eq!(KeyDown::from_browser_key("=", true), plain(KeyCode::Unimplemented));
    assert_eq!(KeyDown::from_browser_key("=", false), plain(KeyCode::Char('=')));
}

#[test]
fn record_log_keeps_each_finished_sample() {
    let mut t = OpenText::new_at("ab".to_string(), Vec::new(), RecordLog::new(), 7);
    t.handle_char_at('a', 8).unwrap();
    assert!(t.save.records.is_empty());
    t.handle_char_at('x', 9).unwrap();
    assert_eq!(t.save.records.len(), 1);
    assert_eq!(t.save.records[0].0, entry_at(false, 0, 1, 8, 9));
    assert_eq!(t.save.records[0].1, vec![KeyPress { correct: true, key: 'a', time: 8 }]);
}
