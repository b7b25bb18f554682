use crate::settings::{Settings, DEFAULT_TEXT_WIDTH_PERCENT};
use vstd::prelude::*;

verus! {

/// A text that a platform offers to open.
pub struct TextHandle {
    pub name: String,
    pub length: usize,
    /// Microseconds since the Unix epoch.
    pub last_opened: i64,
}

/// What a platform (terminal, browser) provides to the application.
pub trait PlatformAdapter {
    fn get_texts(&self) -> Vec<TextHandle>;
}

/// No platform: no texts.
impl PlatformAdapter for () {
    fn get_texts(&self) -> Vec<TextHandle> {
        Vec::new()
    }
}

/// The application: whether it runs, its platform and its settings.
pub struct App<PA: PlatformAdapter> {
    pub running: bool,
    pub adapter: PA,
    pub settings: Settings,
}

impl<PA: PlatformAdapter> App<PA> {
    pub fn new(adapter: PA) -> (r: Self)
        ensures
            r.running,
            r.adapter == adapter,
            r.settings.text_width_percent == DEFAULT_TEXT_WIDTH_PERCENT,
            !r.settings.full_text_width,
    {
        Self { adapter, settings: Settings::default(), running: true }
    }

    pub fn quit(&mut self)
        ensures
            !final(self).running,
            final(self).adapter == old(self).adapter,
            final(self).settings == old(self).settings,
    {
        self.running = false;
    }
}

} // verus!
