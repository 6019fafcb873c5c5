//! The viewer's state as plain values, what each operation makes of it, and
//! what holds of every state that the operations can reach.

use vstd::prelude::*;
use regex::Regex;
use crate::entry::LogEntry;
use crate::history::{bounded_distinct, lemma_remembered_bounded, remembered};
use crate::pattern::{compiled, regex_matches};
use crate::text::decimal;

verus! {

/// The viewer's state as plain values.
pub ghost struct AppView {
    /// The loaded lines, in file order.
    pub logs: Seq<LogEntry>,
    /// The pattern being edited, or the last one put in force.
    pub search_pattern: Seq<char>,
    /// Whether a pattern is being edited.
    pub is_searching: bool,
    /// The filter in force; `None` shows every line.
    pub search_regex: Option<Regex>,
    /// The remembered patterns, oldest first.
    pub saved_patterns: Seq<Seq<char>>,
    /// The index, among the lines shown, of the first one on screen.
    pub scroll: nat,
    /// The height of the viewport as the last scroll operation gave it.
    pub viewport: nat,
}

/// A key press, as the viewer tells keys apart.
#[derive(Clone, Copy, Debug, PartialEq, Eq)]
pub enum Key {
    Up,
    Down,
    PageUp,
    PageDown,
    Enter,
    Esc,
    Backspace,
    /// A printable character, the space included.
    Char(char),
    /// Any other key.
    Other,
}

/// True for `0`-`9`.
pub open spec fn is_digit(c: char) -> bool {
    '0' <= c && c <= '9'
}

/// The number that a digit stands for.
pub open spec fn digit_value(c: char) -> u8 {
    (c as u32 - '0' as u32) as u8
}

/// Whether a filter lets a line with the given raw text through. The raw
/// text still holds its escape sequences.
pub open spec fn lets_through(filter: Option<Regex>, raw: Seq<char>) -> bool {
    match filter {
        None => true,
        Some(regex) => regex_matches(regex, raw),
    }
}

/// The test that `filter` puts to an entry.
pub open spec fn shown_by(filter: Option<Regex>) -> spec_fn(LogEntry) -> bool {
    |entry: LogEntry| lets_through(filter, entry@.raw)
}

impl AppView {
    /// The lines that the filter lets through, in file order.
    pub open spec fn filtered(self) -> Seq<LogEntry> {
        self.logs.filter(shown_by(self.search_regex))
    }

    /// The largest scroll offset: what the filtered lines exceed the
    /// viewport by, or zero.
    pub open spec fn max_scroll(self) -> nat {
        if self.filtered().len() > self.viewport {
            (self.filtered().len() - self.viewport) as nat
        } else {
            0
        }
    }

    /// The invariant of the state: the history is bounded and holds no
    /// pattern twice, and the scroll offset does not pass the last full
    /// viewport of filtered lines.
    pub open spec fn wf(self) -> bool {
        &&& bounded_distinct(self.saved_patterns)
        &&& self.scroll <= self.max_scroll()
    }

    /// The state with its scroll offset brought back within bounds.
    pub open spec fn clamped(self) -> AppView {
        AppView {
            scroll: if self.scroll <= self.max_scroll() {
                self.scroll
            } else {
                self.max_scroll()
            },
            ..self
        }
    }

    /// The state at start: every line shown, nothing edited or remembered.
    pub open spec fn initial(logs: Seq<LogEntry>) -> AppView {
        AppView {
            logs,
            search_pattern: Seq::empty(),
            is_searching: false,
            search_regex: None,
            saved_patterns: Seq::empty(),
            scroll: 0,
            viewport: 0,
        }
    }

    /// After the user starts to edit a pattern.
    pub open spec fn begin_search(self) -> AppView {
        AppView { is_searching: true, ..self }
    }

    /// After a character is typed: appended while editing, ignored otherwise.
    pub open spec fn push_search_char(self, c: char) -> AppView {
        if self.is_searching {
            AppView { search_pattern: self.search_pattern.push(c), ..self }
        } else {
            self
        }
    }

    /// After backspace: the last character goes while editing a non-empty
    /// pattern, nothing happens otherwise.
    pub open spec fn pop_search_char(self) -> AppView {
        if self.is_searching && self.search_pattern.len() > 0 {
            AppView { search_pattern: self.search_pattern.drop_last(), ..self }
        } else {
            self
        }
    }

    /// After the edit is cancelled: pattern and filter are cleared, the
    /// history stays. Ignored when nothing is being edited.
    pub open spec fn cancel_search(self) -> AppView {
        if self.is_searching {
            AppView {
                is_searching: false,
                search_pattern: Seq::empty(),
                search_regex: None,
                ..self
            }.clamped()
        } else {
            self
        }
    }

    /// After the edit is confirmed, when compiling the pattern gave
    /// `outcome`. An empty pattern or a failed compilation only ends the
    /// edit; a compiled pattern becomes the filter and is remembered.
    pub open spec fn confirm_search_with(self, outcome: Option<Regex>) -> AppView {
        if !self.is_searching {
            self
        } else if self.search_pattern.len() == 0 {
            AppView { is_searching: false, ..self }
        } else {
            match outcome {
                Some(regex) => AppView {
                    is_searching: false,
                    search_regex: Some(regex),
                    saved_patterns: remembered(self.saved_patterns, self.search_pattern),
                    ..self
                }.clamped(),
                None => AppView { is_searching: false, ..self },
            }
        }
    }

    /// After the edit is confirmed.
    pub open spec fn confirm_search(self) -> AppView {
        self.confirm_search_with(compiled(self.search_pattern))
    }

    /// True if `key` names a remembered pattern: slot 1 is the oldest.
    pub open spec fn slot_in_use(self, key: u8) -> bool {
        1 <= key && key <= self.saved_patterns.len()
    }

    /// After slot `key` is recalled, when compiling the pattern in that slot
    /// gave `outcome`. Slot 0 clears pattern and filter; a slot in use makes
    /// its pattern the current one, and the filter too if it compiled; any
    /// other slot, or a recall during an edit, changes nothing.
    pub open spec fn load_pattern_with(self, key: u8, outcome: Option<Regex>) -> AppView {
        if self.is_searching {
            self
        } else if key == 0 {
            AppView { search_pattern: Seq::empty(), search_regex: None, ..self }.clamped()
        } else if self.slot_in_use(key) {
            AppView {
                search_pattern: self.saved_patterns[key - 1],
                search_regex: match outcome {
                    Some(regex) => Some(regex),
                    None => self.search_regex,
                },
                ..self
            }.clamped()
        } else {
            self
        }
    }

    /// After slot `key` is recalled.
    pub open spec fn load_pattern(self, key: u8) -> AppView {
        if self.slot_in_use(key) {
            self.load_pattern_with(key, compiled(self.saved_patterns[key - 1]))
        } else {
            self.load_pattern_with(key, None)
        }
    }

    /// After scrolling up by one line.
    pub open spec fn scroll_up(self) -> AppView {
        AppView {
            scroll: if self.scroll > 0 {
                (self.scroll - 1) as nat
            } else {
                0
            },
            ..self
        }
    }

    /// After scrolling down by one line in a viewport of the given height.
    pub open spec fn scroll_down(self, height: nat) -> AppView {
        AppView { scroll: self.scroll + 1, viewport: height, ..self }.clamped()
    }

    /// After scrolling up by one viewport of the given height.
    pub open spec fn page_up(self, height: nat) -> AppView {
        AppView {
            scroll: if self.scroll > height {
                (self.scroll - height) as nat
            } else {
                0
            },
            viewport: height,
            ..self
        }.clamped()
    }

    /// After scrolling down by one viewport of the given height.
    pub open spec fn page_down(self, height: nat) -> AppView {
        AppView { scroll: self.scroll + height, viewport: height, ..self }.clamped()
    }

    /// Whether a key press ends the viewer: `q`, outside an edit.
    pub open spec fn quits_on(self, key: Key) -> bool {
        !self.is_searching && key == Key::Char('q')
    }

    /// The state after a key press in a viewport of the given height.
    ///
    /// The arrow and page keys scroll, during an edit too. During an edit,
    /// Enter confirms, Esc cancels, Backspace removes a character and any
    /// character is appended. Outside an edit, `/` starts one, a digit
    /// recalls its slot, the space pages down, and `q` and every other key
    /// leave the state as it is.
    pub open spec fn after_key(self, key: Key, height: nat) -> AppView {
        match key {
            Key::Up => self.scroll_up(),
            Key::Down => self.scroll_down(height),
            Key::PageUp => self.page_up(height),
            Key::PageDown => self.page_down(height),
            Key::Enter => self.confirm_search(),
            Key::Esc => self.cancel_search(),
            Key::Backspace => self.pop_search_char(),
            Key::Char(c) => if self.is_searching {
                self.push_search_char(c)
            } else if c == '/' {
                self.begin_search()
            } else if is_digit(c) {
                self.load_pattern(digit_value(c))
            } else if c == ' ' {
                self.page_down(height)
            } else {
                self
            },
            Key::Other => self,
        }
    }

    /// The lines on screen in a viewport of the given height: those of the
    /// filtered lines from the scroll offset on, as many as fit.
    pub open spec fn visible(self, height: nat) -> Seq<LogEntry> {
        let all = self.filtered();
        let from = if self.scroll <= all.len() {
            self.scroll
        } else {
            all.len()
        };
        let to = if from + height <= all.len() {
            from + height
        } else {
            all.len()
        };
        all.subrange(from as int, to as int)
    }
}

/// What the status line says of the pattern in slot `slot`.
pub open spec fn slot_text(slot: nat, pattern: Seq<char>) -> Seq<char> {
    seq!['['] + decimal(slot) + seq![':', '\''] + pattern + seq!['\'', ']', ' ']
}

/// The status line over the first `n` remembered patterns: a heading, then
/// each pattern with the number of its slot.
pub open spec fn status_upto(saved: Seq<Seq<char>>, n: nat) -> Seq<char>
    decreases n,
{
    if n == 0 {
        "Searches: "@
    } else {
        status_upto(saved, (n - 1) as nat) + slot_text(n, saved[n - 1])
    }
}

/// The status line: the heading and every remembered pattern.
pub open spec fn status_text(saved: Seq<Seq<char>>) -> Seq<char> {
    status_upto(saved, saved.len())
}

/// The title above the lines: the pattern being edited with a cursor mark,
/// or the status line.
pub open spec fn title_text(state: AppView) -> Seq<char> {
    if state.is_searching {
        "Search: "@ + state.search_pattern + seq!['_']
    } else {
        "Log Viewer - "@ + status_text(state.saved_patterns)
    }
}

/// One more line read: the lines shown among the first `i + 1` are those
/// among the first `i`, followed by line `i` if the test lets it through.
proof fn lemma_filter_step<A>(s: Seq<A>, pred: spec_fn(A) -> bool, i: int)
    requires
        0 <= i < s.len(),
    ensures
        s.take(i + 1).filter(pred) == if pred(s[i]) {
            s.take(i).filter(pred).push(s[i])
        } else {
            s.take(i).filter(pred)
        },
{
    reveal(Seq::filter);
    assert(s.take(i + 1).drop_last() =~= s.take(i));
}

/// With no filter in force the filtered lines are all the lines, in file
/// order.
pub proof fn lemma_unfiltered_shows_all(state: AppView)
    requires
        state.search_regex is None,
    ensures
        state.filtered() == state.logs,
{
    let pred = shown_by(state.search_regex);
    lemma_all_pass_upto(state.logs, pred, state.logs.len() as int);
    assert(state.logs.take(state.logs.len() as int) =~= state.logs);
}

proof fn lemma_all_pass_upto<A>(s: Seq<A>, pred: spec_fn(A) -> bool, i: int)
    requires
        0 <= i <= s.len(),
        forall|k: int| 0 <= k < s.len() ==> pred(#[trigger] s[k]),
    ensures
        s.take(i).filter(pred) == s.take(i),
    decreases i,
{
    if i == 0 {
        reveal(Seq::filter);
        assert(s.take(0).filter(pred) =~= s.take(0));
    } else {
        lemma_all_pass_upto(s, pred, i - 1);
        lemma_filter_step(s, pred, i - 1);
        assert(s.take(i - 1).push(s[i - 1]) =~= s.take(i));
    }
}

/// The place in `s` of the line that comes `k`-th, counted from zero, among
/// those that pass `pred`.
pub open spec fn position_in(s: Seq<LogEntry>, pred: spec_fn(LogEntry) -> bool, k: int) -> int
    decreases s.len(),
{
    if s.len() == 0 {
        0
    } else if pred(s.last()) && s.drop_last().filter(pred).len() <= k {
        s.len() - 1
    } else {
        position_in(s.drop_last(), pred, k)
    }
}

proof fn lemma_positions(s: Seq<LogEntry>, pred: spec_fn(LogEntry) -> bool)
    ensures
        forall|k: int|
            0 <= k < s.filter(pred).len() ==> 0 <= #[trigger] position_in(s, pred, k) < s.len()
                && s.filter(pred)[k] == s[position_in(s, pred, k)],
        forall|j: int, k: int|
            0 <= j < k < s.filter(pred).len() ==> position_in(s, pred, j) < position_in(
                s,
                pred,
                k,
            ),
    decreases s.len(),
{
    reveal(Seq::filter);
    if s.len() > 0 {
        let sub = s.drop_last();
        lemma_positions(sub, pred);
        assert forall|k: int| 0 <= k < s.filter(pred).len() implies 0 <= #[trigger] position_in(
            s,
            pred,
            k,
        ) < s.len() && s.filter(pred)[k] == s[position_in(s, pred, k)] by {
            if !(pred(s.last()) && sub.filter(pred).len() <= k) {
                let p = position_in(sub, pred, k);
                assert(position_in(s, pred, k) == p);
                assert(sub.filter(pred)[k] == sub[p]);
                assert(sub[p] == s[p]);
            }
        }
        assert forall|j: int, k: int| 0 <= j < k < s.filter(pred).len() implies position_in(
            s,
            pred,
            j,
        ) < position_in(s, pred, k) by {
            let pj = position_in(sub, pred, j);
            assert(position_in(s, pred, j) == pj);
            assert(0 <= pj < sub.len());
            if !(pred(s.last()) && sub.filter(pred).len() <= k) {
                assert(position_in(s, pred, k) == position_in(sub, pred, k));
            }
        }
    }
}

/// The filtered lines are the lines that the filter lets through and no
/// others, each as often as the file holds it, in file order: every filtered
/// line passes the filter; every line that passes is among them; and the
/// filtered lines stand at increasing positions of the file.
pub proof fn lemma_filtered_is_matching_subsequence(state: AppView)
    ensures
        forall|k: int|
            0 <= k < state.filtered().len() ==> lets_through(
                state.search_regex,
                (#[trigger] state.filtered()[k])@.raw,
            ),
        forall|i: int|
            0 <= i < state.logs.len() && lets_through(state.search_regex, state.logs[i]@.raw)
                ==> state.filtered().contains(#[trigger] state.logs[i]),
        forall|k: int|
            0 <= k < state.filtered().len() ==> 0 <= #[trigger] position_in(
                state.logs,
                shown_by(state.search_regex),
                k,
            ) < state.logs.len() && state.filtered()[k] == state.logs[position_in(
                state.logs,
                shown_by(state.search_regex),
                k,
            )],
        forall|j: int, k: int|
            0 <= j < k < state.filtered().len() ==> position_in(
                state.logs,
                shown_by(state.search_regex),
                j,
            ) < position_in(state.logs, shown_by(state.search_regex), k),
{
    let pred = shown_by(state.search_regex);
    broadcast use vstd::seq_lib::group_filter_ensures;
    lemma_positions(state.logs, pred);
    assert forall|k: int| 0 <= k < state.filtered().len() implies lets_through(
        state.search_regex,
        (#[trigger] state.filtered()[k])@.raw,
    ) by {
        assert(pred(state.filtered()[k]));
    }
    assert forall|i: int|
        0 <= i < state.logs.len() && lets_through(
            state.search_regex,
            state.logs[i]@.raw,
        ) implies state.filtered().contains(#[trigger] state.logs[i]) by {
        assert(pred(state.logs[i]));
    }
}

/// Recalling slot 0 outside an edit shows every line, whatever is
/// remembered and whatever filter was in force.
pub proof fn lemma_slot_zero_shows_all(state: AppView)
    requires
        !state.is_searching,
    ensures
        state.load_pattern(0).search_regex is None,
        state.load_pattern(0).search_pattern == Seq::<char>::empty(),
        state.load_pattern(0).saved_patterns == state.saved_patterns,
        state.load_pattern(0).filtered() == state.logs,
{
    lemma_unfiltered_shows_all(state.load_pattern(0));
}

/// Confirming an empty pattern ends the edit and changes nothing else: the
/// filter in force stays, and nothing is remembered.
pub proof fn lemma_confirm_empty_changes_nothing(state: AppView)
    requires
        state.is_searching,
        state.search_pattern.len() == 0,
    ensures
        state.confirm_search() == (AppView { is_searching: false, ..state }),
{
}

/// Confirming a pattern that does not compile ends the edit and changes
/// nothing else: the filter in force and the history stay.
pub proof fn lemma_confirm_malformed_changes_nothing(state: AppView)
    requires
        state.is_searching,
        compiled(state.search_pattern) is None,
    ensures
        state.confirm_search() == (AppView { is_searching: false, ..state }),
{
}

/// A state within bounds has its scroll offset at most the number of
/// filtered lines less the viewport's height, or zero, and at most ten
/// remembered patterns.
pub proof fn lemma_wf_bounds(state: AppView)
    requires
        state.wf(),
    ensures
        state.scroll == 0 || state.scroll + state.viewport <= state.filtered().len(),
        state.saved_patterns.len() <= 10,
{
}

/// Every key press keeps a state within bounds, in a viewport of any height.
pub proof fn lemma_after_key_wf(state: AppView, key: Key, height: nat)
    requires
        state.wf(),
    ensures
        state.after_key(key, height).wf(),
{
    lemma_remembered_bounded(state.saved_patterns, state.search_pattern);
}

} // verus!
