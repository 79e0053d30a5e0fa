//! The observer's state: what the terminal interface shows, updated from the
//! engine's events.
use vstd::prelude::*;
use vstd::string::*;
use crate::events::{Event, WindowStat};

verus! {

/// How many log lines the interface keeps.
pub const LOG_CAPACITY: usize = 100;

/// Everything the interface displays.
pub struct App {
    pub logs: Vec<String>,
    pub status: String,
    /// The target text from the settings, shown in the header.
    pub target_window_title: String,
    pub should_quit: bool,
    pub visible_windows: Vec<WindowStat>,
    pub all_windows: Vec<String>,
    /// The matched button's name and the lines describing its neighbourhood.
    pub context_data: Option<(String, Vec<String>)>,
    pub processing_window: Option<String>,
    pub last_scan_ms: u64,
    /// The configured sleep between cycles, in milliseconds.
    pub sleep_interval_ms: u64,
}

impl App {
    pub fn new(target_window_title: String, sleep_interval_ms: u64) -> (r: App)
        ensures
            r.logs@.len() == 1,
            r.logs@[0]@ == "Welcome to Ag-Accept TUI"@,
            r.status@ == "Idle"@,
            r.target_window_title == target_window_title,
            !r.should_quit,
            r.visible_windows@.len() == 0,
            r.all_windows@.len() == 0,
            r.context_data is None,
            r.processing_window is None,
            r.last_scan_ms == 0,
            r.sleep_interval_ms == sleep_interval_ms,
    {
        App {
            logs: vec![String::from_str("Welcome to Ag-Accept TUI")],
            status: String::from_str("Idle"),
            target_window_title,
            should_quit: false,
            visible_windows: Vec::new(),
            all_windows: Vec::new(),
            context_data: None,
            processing_window: None,
            last_scan_ms: 0,
            sleep_interval_ms,
        }
    }

    pub fn on_visible_windows(&mut self, windows: Vec<WindowStat>)
        ensures
            final(self).visible_windows == windows,
            final(self).logs == old(self).logs,
            final(self).status == old(self).status,
            final(self).should_quit == old(self).should_quit,
    {
        self.visible_windows = windows;
    }

    pub fn on_all_windows(&mut self, windows: Vec<String>)
        ensures
            final(self).all_windows == windows,
            final(self).logs == old(self).logs,
            final(self).status == old(self).status,
            final(self).should_quit == old(self).should_quit,
    {
        self.all_windows = windows;
    }

    /// Appends a log line, dropping the oldest once more than
    /// `LOG_CAPACITY` are kept.
    pub fn on_log(&mut self, message: String)
        ensures
            final(self).logs@ == (if old(self).logs@.len() + 1 > LOG_CAPACITY {
                old(self).logs@.push(message).drop_first()
            } else {
                old(self).logs@.push(message)
            }),
            final(self).status == old(self).status,
            final(self).should_quit == old(self).should_quit,
    {
        self.logs.push(message);
        if self.logs.len() > LOG_CAPACITY {
            self.logs.remove(0);
            assert(old(self).logs@.push(message).remove(0) =~= old(self).logs@.push(
                message,
            ).drop_first());
        }
    }

    pub fn on_status(&mut self, status: String)
        ensures
            final(self).status == status,
            final(self).logs == old(self).logs,
            final(self).should_quit == old(self).should_quit,
    {
        self.status = status;
    }

    pub fn quit(&mut self)
        ensures
            final(self).should_quit,
            final(self).logs == old(self).logs,
            final(self).status == old(self).status,
    {
        self.should_quit = true;
    }

    pub fn on_context(&mut self, button: String, neighbors: Vec<String>)
        ensures
            final(self).context_data == Some((button, neighbors)),
            final(self).logs == old(self).logs,
            final(self).status == old(self).status,
            final(self).should_quit == old(self).should_quit,
    {
        self.context_data = Some((button, neighbors));
    }

    pub fn on_processing(&mut self, window_title: String)
        ensures
            final(self).processing_window == Some(window_title),
            final(self).logs == old(self).logs,
            final(self).status == old(self).status,
            final(self).should_quit == old(self).should_quit,
    {
        self.processing_window = Some(window_title);
    }

    pub fn on_timing(&mut self, scan_ms: u64)
        ensures
            final(self).last_scan_ms == scan_ms,
            final(self).logs == old(self).logs,
            final(self).status == old(self).status,
            final(self).should_quit == old(self).should_quit,
    {
        self.last_scan_ms = scan_ms;
    }

    /// Applies one event from the engine.
    pub fn on_event(&mut self, event: Event)
        ensures
            match event {
                Event::Log(m) => final(self).logs@ == (if old(self).logs@.len() + 1 > LOG_CAPACITY {
                    old(self).logs@.push(m).drop_first()
                } else {
                    old(self).logs@.push(m)
                }),
                Event::Status(s) => final(self).status == s,
                Event::VisibleWindows(w) => final(self).visible_windows == w,
                Event::AllWindows(w) => final(self).all_windows == w,
                Event::ContextData { button, neighbors } => final(self).context_data == Some(
                    (button, neighbors),
                ),
                Event::ProcessingWindow(w) => final(self).processing_window == Some(w),
                Event::Timing(ms) => final(self).last_scan_ms == ms,
            },
            final(self).should_quit == old(self).should_quit,
    {
        match event {
            Event::Log(m) => self.on_log(m),
            Event::Status(s) => self.on_status(s),
            Event::VisibleWindows(w) => self.on_visible_windows(w),
            Event::AllWindows(w) => self.on_all_windows(w),
            Event::ContextData { button, neighbors } => self.on_context(button, neighbors),
            Event::ProcessingWindow(w) => self.on_processing(w),
            Event::Timing(ms) => self.on_timing(ms),
        }
    }
}

} // verus!
