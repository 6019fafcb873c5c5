//! The viewer: the loaded lines, the filter being edited or in force, the
//! remembered patterns and the scroll offset, with the operations that key
//! presses stand for. What each operation does is stated over `AppView`.

use vstd::prelude::*;
use regex::Regex;
use crate::entry::LogEntry;
use crate::history::History;
use crate::model::{
    lemma_slot_zero_shows_all, lemma_unfiltered_shows_all, lets_through, shown_by, slot_text,
    status_text, status_upto, title_text, AppView, Key,
};
use crate::pattern::{compile, is_match};
use crate::text::{pop_char, push_char, push_decimal};

verus! {

/// The entries that a list of references points to.
pub open spec fn entries_of(refs: Seq<&LogEntry>) -> Seq<LogEntry> {
    refs.map_values(|r: &LogEntry| *r)
}

/// The entries whose flag is set, in order. A list of flags of another
/// length keeps nothing.
pub open spec fn kept(logs: Seq<LogEntry>, keep: Seq<bool>) -> Seq<LogEntry>
    decreases logs.len(),
{
    if logs.len() == 0 || keep.len() != logs.len() {
        Seq::empty()
    } else if keep.last() {
        kept(logs.drop_last(), keep.drop_last()).push(logs.last())
    } else {
        kept(logs.drop_last(), keep.drop_last())
    }
}

/// Keeping the entries whose flag is set is filtering by a test, where each
/// flag says whether its entry passes the test.
pub proof fn lemma_kept_is_filter(
    logs: Seq<LogEntry>,
    keep: Seq<bool>,
    pred: spec_fn(LogEntry) -> bool,
)
    requires
        keep.len() == logs.len(),
        forall|i: int| 0 <= i < logs.len() ==> keep[i] == pred(#[trigger] logs[i]),
    ensures
        kept(logs, keep) == logs.filter(pred),
    decreases logs.len(),
{
    reveal(Seq::filter);
    if logs.len() > 0 {
        let sub = logs.drop_last();
        assert forall|i: int| 0 <= i < sub.len() implies keep.drop_last()[i] == pred(
            #[trigger] sub[i],
        ) by {
            assert(sub[i] == logs[i]);
        }
        lemma_kept_is_filter(sub, keep.drop_last(), pred);
    } else {
        assert(logs.filter(pred) =~= Seq::<LogEntry>::empty());
    }
}

/// Picks the entries whose flag is set, in order.
pub fn select_logs<'a>(logs: &'a Vec<LogEntry>, keep: &Vec<bool>) -> (shown: Vec<&'a LogEntry>)
    ensures
        entries_of(shown@) == kept(logs@, keep@),
{
    let mut shown: Vec<&LogEntry> = Vec::new();
    let mut i: usize = 0;
    if keep.len() != logs.len() {
        assert(entries_of(shown@) =~= kept(logs@, keep@));
        return shown;
    }
    assert(entries_of(shown@) =~= kept(logs@.take(0), keep@.take(0)));
    while i < logs.len()
        invariant
            i <= logs.len(),
            keep@.len() == logs@.len(),
            entries_of(shown@) == kept(logs@.take(i as int), keep@.take(i as int)),
        decreases logs.len() - i,
    {
        let ghost before = entries_of(shown@);
        assert(logs@.take(i + 1).drop_last() =~= logs@.take(i as int));
        assert(keep@.take(i + 1).drop_last() =~= keep@.take(i as int));
        if keep[i] {
            shown.push(&logs[i]);
            assert(entries_of(shown@) =~= before.push(logs@[i as int]));
        }
        i += 1;
    }
    assert(logs@.take(i as int) =~= logs@);
    assert(keep@.take(i as int) =~= keep@);
    shown
}

/// The state of the viewer.
pub struct App {
    logs: Vec<LogEntry>,
    search_pattern: String,
    is_searching: bool,
    search_regex: Option<Regex>,
    saved_patterns: History,
    scroll: usize,
    viewport: usize,
}

impl View for App {
    type V = AppView;

    closed spec fn view(&self) -> AppView {
        AppView {
            logs: self.logs@,
            search_pattern: self.search_pattern@,
            is_searching: self.is_searching,
            search_regex: self.search_regex,
            saved_patterns: self.saved_patterns@,
            scroll: self.scroll as nat,
            viewport: self.viewport as nat,
        }
    }
}

impl App {
    /// The invariant that every operation keeps.
    pub open spec fn wf(&self) -> bool {
        self@.wf()
    }

    /// The viewer at start, over the loaded lines.
    pub fn new(logs: Vec<LogEntry>) -> (app: App)
        ensures
            app@ == AppView::initial(logs@),
            app.wf(),
    {
        App {
            logs,
            search_pattern: String::new(),
            is_searching: false,
            search_regex: None,
            saved_patterns: History::new(),
            scroll: 0,
            viewport: 0,
        }
    }

    /// The loaded lines, in file order.
    pub fn logs(&self) -> (logs: &Vec<LogEntry>)
        ensures
            logs@ == self@.logs,
    {
        &self.logs
    }

    /// The pattern being edited, or the last one put in force.
    pub fn search_pattern(&self) -> (pattern: &String)
        ensures
            pattern@ == self@.search_pattern,
    {
        &self.search_pattern
    }

    /// Whether a pattern is being edited.
    pub fn is_searching(&self) -> (b: bool)
        ensures
            b == self@.is_searching,
    {
        self.is_searching
    }

    /// Whether a filter is in force.
    pub fn has_filter(&self) -> (b: bool)
        ensures
            b == (self@.search_regex is Some),
    {
        self.search_regex.is_some()
    }

    /// The remembered patterns, oldest first.
    pub fn saved_patterns(&self) -> (history: &History)
        ensures
            history@ == self@.saved_patterns,
    {
        &self.saved_patterns
    }

    /// The scroll offset.
    pub fn scroll(&self) -> (offset: usize)
        ensures
            offset == self@.scroll,
    {
        self.scroll
    }

    /// Whether the filter in force lets an entry through.
    fn shows(&self, entry: &LogEntry) -> (shown: bool)
        ensures
            shown == lets_through(self@.search_regex, entry@.raw),
    {
        match &self.search_regex {
            Some(regex) => is_match(regex, entry.raw_content().as_str()),
            None => true,
        }
    }

    /// For each line, whether the filter in force lets it through.
    fn match_flags(&self) -> (flags: Vec<bool>)
        ensures
            flags@.len() == self@.logs.len(),
            forall|i: int|
                0 <= i < flags@.len() ==> flags@[i] == lets_through(
                    self@.search_regex,
                    (#[trigger] self@.logs[i])@.raw,
                ),
    {
        let mut flags: Vec<bool> = Vec::new();
        let mut i: usize = 0;
        while i < self.logs.len()
            invariant
                i <= self.logs.len(),
                flags@.len() == i,
                forall|k: int|
                    0 <= k < i ==> flags@[k] == lets_through(
                        self@.search_regex,
                        (#[trigger] self@.logs[k])@.raw,
                    ),
            decreases self.logs.len() - i,
        {
            let shown = self.shows(&self.logs[i]);
            flags.push(shown);
            i += 1;
        }
        flags
    }

    /// The lines that the filter lets through, in file order: every line if
    /// no filter is in force, else exactly those whose raw text matches.
    pub fn filtered_logs(&self) -> (shown: Vec<&LogEntry>)
        ensures
            entries_of(shown@) == self@.filtered(),
            self@.search_regex is None ==> entries_of(shown@) == self@.logs,
    {
        let flags = self.match_flags();
        proof {
            lemma_kept_is_filter(self.logs@, flags@, shown_by(self@.search_regex));
            if self@.search_regex is None {
                lemma_unfiltered_shows_all(self@);
            }
        }
        select_logs(&self.logs, &flags)
    }

    /// The largest scroll offset for the lines now shown.
    fn max_scroll(&self) -> (max: usize)
        ensures
            max == self@.max_scroll(),
    {
        let shown = self.filtered_logs();
        let count = shown.len();
        assert(entries_of(shown@).len() == shown@.len());
        if count > self.viewport {
            count - self.viewport
        } else {
            0
        }
    }

    /// Brings the scroll offset back within bounds.
    fn clamp_scroll(&mut self)
        ensures
            final(self)@ == old(self)@.clamped(),
    {
        let max = self.max_scroll();
        if self.scroll > max {
            self.scroll = max;
        }
    }

    /// Starts the edit of a pattern. During an edit nothing changes.
    pub fn begin_search(&mut self)
        requires
            old(self).wf(),
        ensures
            final(self)@ == old(self)@.begin_search(),
            final(self).wf(),
    {
        self.is_searching = true;
    }

    /// Appends a character to the pattern being edited; ignored when none
    /// is.
    pub fn push_search_char(&mut self, c: char)
        requires
            old(self).wf(),
        ensures
            final(self)@ == old(self)@.push_search_char(c),
            final(self).wf(),
    {
        if self.is_searching {
            push_char(&mut self.search_pattern, c);
        }
    }

    /// Removes the last character of the pattern being edited; ignored when
    /// none is, or when it is empty.
    pub fn pop_search_char(&mut self)
        requires
            old(self).wf(),
        ensures
            final(self)@ == old(self)@.pop_search_char(),
            final(self).wf(),
    {
        if self.is_searching {
            let _ = pop_char(&mut self.search_pattern);
        }
    }

    /// Cancels the edit: the pattern and the filter are cleared, so that
    /// every line is shown; the history stays as it is.
    pub fn cancel_search(&mut self)
        requires
            old(self).wf(),
        ensures
            final(self)@ == old(self)@.cancel_search(),
            final(self).wf(),
    {
        if self.is_searching {
            self.is_searching = false;
            self.search_pattern = String::new();
            self.search_regex = None;
            self.clamp_scroll();
        }
    }

    /// Ends the edit, given what compiling the pattern gave. With a compiled
    /// pattern that is not empty, it becomes the filter and is remembered;
    /// with `None`, or an empty pattern, filter and history stay.
    pub fn confirm_search_with(&mut self, outcome: Option<Regex>)
        requires
            old(self).wf(),
        ensures
            final(self)@ == old(self)@.confirm_search_with(outcome),
            final(self).wf(),
    {
        if !self.is_searching {
            return ;
        }
        self.is_searching = false;
        if !self.search_pattern.as_str().is_empty() {
            if let Some(regex) = outcome {
                self.search_regex = Some(regex);
                self.saved_patterns.remember(&self.search_pattern);
                self.clamp_scroll();
            }
        }
    }

    /// Ends the edit. A pattern that is not empty and compiles becomes the
    /// filter and is remembered; an empty or malformed one leaves the filter
    /// and the history as they were.
    pub fn confirm_search(&mut self)
        requires
            old(self).wf(),
        ensures
            final(self)@ == old(self)@.confirm_search(),
            final(self).wf(),
    {
        let outcome = if self.is_searching && !self.search_pattern.as_str().is_empty() {
            match compile(self.search_pattern.as_str()) {
                Ok(regex) => Some(regex),
                Err(_) => None,
            }
        } else {
            None
        };
        self.confirm_search_with(outcome);
    }

    /// Recalls slot `key`, given what compiling the pattern in that slot
    /// gave.
    pub fn load_pattern_with(&mut self, key: u8, outcome: Option<Regex>)
        requires
            old(self).wf(),
        ensures
            final(self)@ == old(self)@.load_pattern_with(key, outcome),
            final(self).wf(),
    {
        if self.is_searching {
            return ;
        }
        let idx: usize = key as usize;
        if key == 0 {
            self.search_pattern = String::new();
            self.search_regex = None;
            self.clamp_scroll();
        } else if idx <= self.saved_patterns.len() {
            self.search_pattern = self.saved_patterns.get(idx - 1).clone();
            if let Some(regex) = outcome {
                self.search_regex = Some(regex);
            }
            self.clamp_scroll();
        }
    }

    /// Recalls slot `key`: slot 0 shows every line again; a slot in use
    /// makes its pattern the current one and, once compiled, the filter; any
    /// other slot changes nothing. Ignored during an edit.
    pub fn load_pattern(&mut self, key: u8)
        requires
            old(self).wf(),
        ensures
            final(self)@ == old(self)@.load_pattern(key),
            final(self).wf(),
            key == 0 && !old(self)@.is_searching ==> final(self)@.filtered() == old(self)@.logs,
    {
        proof {
            if key == 0 && !self@.is_searching {
                lemma_slot_zero_shows_all(self@);
            }
        }
        let idx: usize = key as usize;
        let outcome = if !self.is_searching && 1 <= idx && idx <= self.saved_patterns.len() {
            match compile(self.saved_patterns.get(idx - 1).as_str()) {
                Ok(regex) => Some(regex),
                Err(_) => None,
            }
        } else {
            None
        };
        self.load_pattern_with(key, outcome);
    }

    /// Scrolls up by one line, not above the first.
    pub fn scroll_up(&mut self)
        requires
            old(self).wf(),
        ensures
            final(self)@ == old(self)@.scroll_up(),
            final(self).wf(),
    {
        if self.scroll > 0 {
            self.scroll -= 1;
        }
    }

    /// Scrolls down by one line, not past the last full viewport.
    pub fn scroll_down(&mut self, height: usize)
        requires
            old(self).wf(),
        ensures
            final(self)@ == old(self)@.scroll_down(height as nat),
            final(self).wf(),
    {
        self.viewport = height;
        let max = self.max_scroll();
        if self.scroll < max {
            self.scroll += 1;
        } else {
            self.scroll = max;
        }
    }

    /// Scrolls up by one viewport, not above the first line.
    pub fn page_up(&mut self, height: usize)
        requires
            old(self).wf(),
        ensures
            final(self)@ == old(self)@.page_up(height as nat),
            final(self).wf(),
    {
        self.viewport = height;
        self.scroll = if self.scroll > height {
            self.scroll - height
        } else {
            0
        };
        self.clamp_scroll();
    }

    /// Scrolls down by one viewport, not past the last full viewport.
    pub fn page_down(&mut self, height: usize)
        requires
            old(self).wf(),
        ensures
            final(self)@ == old(self)@.page_down(height as nat),
            final(self).wf(),
    {
        self.viewport = height;
        let max = self.max_scroll();
        if self.scroll >= max || height >= max - self.scroll {
            self.scroll = max;
        } else {
            self.scroll += height;
        }
    }

    /// Applies one key press in a viewport of the given height, and tells
    /// whether the viewer is to end.
    pub fn handle_key(&mut self, key: Key, height: usize) -> (quit: bool)
        requires
            old(self).wf(),
        ensures
            quit == old(self)@.quits_on(key),
            final(self)@ == old(self)@.after_key(key, height as nat),
            final(self).wf(),
    {
        match key {
            Key::Up => self.scroll_up(),
            Key::Down => self.scroll_down(height),
            Key::PageUp => self.page_up(height),
            Key::PageDown => self.page_down(height),
            Key::Enter => self.confirm_search(),
            Key::Esc => self.cancel_search(),
            Key::Backspace => self.pop_search_char(),
            Key::Char(c) => {
                if self.is_searching {
                    self.push_search_char(c);
                } else if c == 'q' {
                    return true;
                } else if c == '/' {
                    self.begin_search();
                } else if '0' <= c && c <= '9' {
                    let slot: u8 = (c as u32 - '0' as u32) as u8;
                    self.load_pattern(slot);
                } else if c == ' ' {
                    self.page_down(height);
                }
            },
            Key::Other => {},
        }
        false
    }

    /// The status line: the remembered patterns, each with its slot.
    pub fn get_status_text(&self) -> (status: String)
        ensures
            status@ == status_text(self@.saved_patterns),
    {
        let mut status = String::from_str("Searches: ");
        let mut i: usize = 0;
        while i < self.saved_patterns.len()
            invariant
                i <= self.saved_patterns@.len(),
                status@ == status_upto(self.saved_patterns@, i as nat),
            decreases self.saved_patterns@.len() - i,
        {
            let ghost before = status@;
            push_char(&mut status, '[');
            push_decimal(&mut status, i + 1);
            push_char(&mut status, ':');
            push_char(&mut status, '\'');
            status.append(self.saved_patterns.get(i).as_str());
            push_char(&mut status, '\'');
            push_char(&mut status, ']');
            push_char(&mut status, ' ');
            assert(status@ =~= before + slot_text((i + 1) as nat, self.saved_patterns@[i as int]));
            i += 1;
        }
        status
    }

    /// The title above the lines.
    pub fn title(&self) -> (title: String)
        ensures
            title@ == title_text(self@),
    {
        if self.is_searching {
            let mut title = String::from_str("Search: ");
            title.append(self.search_pattern.as_str());
            push_char(&mut title, '_');
            assert(title@ =~= title_text(self@));
            title
        } else {
            let mut title = String::from_str("Log Viewer - ");
            title.append(self.get_status_text().as_str());
            title
        }
    }

    /// The lines on screen in a viewport of the given height.
    pub fn visible_logs(&self, height: usize) -> (rows: Vec<&LogEntry>)
        ensures
            entries_of(rows@) == self@.visible(height as nat),
    {
        let shown = self.filtered_logs();
        let count = shown.len();
        assert(entries_of(shown@).len() == shown@.len());
        let from: usize = if self.scroll <= count {
            self.scroll
        } else {
            count
        };
        let to: usize = if height <= count - from {
            from + height
        } else {
            count
        };
        let mut rows: Vec<&LogEntry> = Vec::new();
        let mut i: usize = from;
        while i < to
            invariant
                from <= i <= to <= shown.len(),
                entries_of(rows@) =~= entries_of(shown@).subrange(from as int, i as int),
            decreases to - i,
        {
            let ghost before = entries_of(rows@);
            rows.push(shown[i]);
            assert(entries_of(rows@) =~= before.push(*shown@[i as int]));
            assert(entries_of(shown@)[i as int] == *shown@[i as int]);
            i += 1;
        }
        rows
    }
}

} // verus!
