use vstd::prelude::*;

verus! {

pub const DEFAULT_TEXT_WIDTH_PERCENT: u16 = 60;

pub const FULL_TEXT_WIDTH_PERCENT: u16 = 96;

/// How much of the terminal's width the text takes.
pub struct Settings {
    pub text_width_percent: u16,
    pub full_text_width: bool,
}

/// `percent` per cent of `terminal_width`, rounded down, as a `u16`.
pub open spec fn line_width_for(terminal_width: u16, percent: u16) -> u16 {
    ((terminal_width as int * percent as int) / 100) as u16
}

impl Settings {
    pub fn new() -> (r: Self)
        ensures
            r.text_width_percent == DEFAULT_TEXT_WIDTH_PERCENT,
            !r.full_text_width,
    {
        Self { text_width_percent: DEFAULT_TEXT_WIDTH_PERCENT, full_text_width: false }
    }

    /// The width of the text's lines in a terminal `terminal_width` columns wide.
    pub fn line_width(&self, terminal_width: u16) -> (r: u16)
        ensures
            r == line_width_for(terminal_width, self.text_width_percent),
    {
        proof {
            let (a, b) = (terminal_width as int, self.text_width_percent as int);
            assert(a * b <= 65535 * 65535) by (nonlinear_arith)
                requires
                    0 <= a <= 65535,
                    0 <= b <= 65535,
            ;
        }
        let product: u64 = terminal_width as u64 * self.text_width_percent as u64;
        (product / 100) as u16
    }
}

impl Default for Settings {
    fn default() -> (r: Self)
        ensures
            r.text_width_percent == DEFAULT_TEXT_WIDTH_PERCENT,
            !r.full_text_width,
    {
        Self::new()
    }
}

} // verus!
