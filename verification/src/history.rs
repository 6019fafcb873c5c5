//! The most recently confirmed patterns: at most ten, none twice, oldest
//! first.

use vstd::prelude::*;

verus! {

/// How many patterns are remembered.
pub const CAPACITY: usize = 10;

/// A history after `pattern` was confirmed: unchanged if it is already there;
/// else the pattern comes last, and the oldest entry leaves if the history
/// was full.
pub open spec fn remembered(history: Seq<Seq<char>>, pattern: Seq<char>) -> Seq<Seq<char>> {
    if history.contains(pattern) {
        history
    } else if history.len() >= CAPACITY {
        history.drop_first().push(pattern)
    } else {
        history.push(pattern)
    }
}

/// True of a history that holds at most ten patterns, none of them twice.
pub open spec fn bounded_distinct(history: Seq<Seq<char>>) -> bool {
    history.len() <= CAPACITY && history.no_duplicates()
}

/// Remembering a pattern keeps a history bounded and free of duplicates, and
/// the pattern is in it afterwards.
pub proof fn lemma_remembered_bounded(history: Seq<Seq<char>>, pattern: Seq<char>)
    requires
        bounded_distinct(history),
    ensures
        bounded_distinct(remembered(history, pattern)),
        remembered(history, pattern).contains(pattern),
{
    let after = remembered(history, pattern);
    if history.contains(pattern) {
    } else {
        let kept = if history.len() >= CAPACITY {
            history.drop_first()
        } else {
            history
        };
        assert(after == kept.push(pattern));
        assert forall|i: int| 0 <= i < kept.len() implies history.contains(#[trigger] kept[i]) by {
            if history.len() >= CAPACITY {
                assert(kept[i] == history[i + 1]);
            } else {
                assert(kept[i] == history[i]);
            }
        }
        assert forall|i: int, j: int| 0 <= i < j < after.len() implies after[i] != after[j] by {
            if j < kept.len() {
                if history.len() >= CAPACITY {
                    assert(kept[i] == history[i + 1] && kept[j] == history[j + 1]);
                }
            } else {
                assert(history.contains(kept[i]));
            }
        }
        assert(after[after.len() - 1] == pattern);
    }
}

/// A new pattern confirmed on a full history pushes out the oldest entry and
/// no other: the nine that followed it keep their order, and the new pattern
/// comes last.
pub proof fn lemma_remembered_evicts_oldest(history: Seq<Seq<char>>, pattern: Seq<char>)
    requires
        bounded_distinct(history),
        history.len() == CAPACITY,
        !history.contains(pattern),
    ensures
        remembered(history, pattern).len() == CAPACITY,
        !remembered(history, pattern).contains(history[0]),
        forall|i: int| 1 <= i < CAPACITY ==> remembered(history, pattern)[i - 1] == history[i],
        remembered(history, pattern)[CAPACITY - 1] == pattern,
{
    let after = remembered(history, pattern);
    assert(history.contains(history[0]));
    assert forall|i: int| 0 <= i < after.len() implies after[i] != history[0] by {
        if i < CAPACITY - 1 {
            assert(after[i] == history[i + 1]);
        }
    }
}

/// The bounded list of remembered patterns.
#[derive(Debug)]
pub struct History {
    entries: Vec<String>,
}

impl View for History {
    type V = Seq<Seq<char>>;

    closed spec fn view(&self) -> Seq<Seq<char>> {
        self.entries@.map_values(|s: String| s@)
    }
}

impl History {
    /// The invariant: at most ten patterns, none twice.
    pub open spec fn wf(&self) -> bool {
        bounded_distinct(self@)
    }

    /// The empty history.
    pub fn new() -> (h: History)
        ensures
            h@ == Seq::<Seq<char>>::empty(),
            h.wf(),
    {
        let h = History { entries: Vec::new() };
        assert(h@ =~= Seq::<Seq<char>>::empty());
        h
    }

    /// The number of remembered patterns.
    pub fn len(&self) -> (n: usize)
        ensures
            n == self@.len(),
    {
        self.entries.len()
    }

    /// The pattern at index `i`, counted from the oldest.
    pub fn get(&self, i: usize) -> (pattern: &String)
        requires
            i < self@.len(),
        ensures
            pattern@ == self@[i as int],
    {
        &self.entries[i]
    }

    /// True if `pattern` is remembered.
    pub fn contains(&self, pattern: &String) -> (found: bool)
        ensures
            found == self@.contains(pattern@),
    {
        let mut i: usize = 0;
        while i < self.entries.len()
            invariant
                i <= self.entries.len(),
                forall|k: int| 0 <= k < i ==> self@[k] != pattern@,
            decreases self.entries.len() - i,
        {
            if self.entries[i] == *pattern {
                assert(self@[i as int] == pattern@);
                return true;
            }
            i += 1;
        }
        false
    }

    /// Remembers a confirmed pattern: nothing changes if it is remembered
    /// already; else it comes last, and the oldest leaves a full history.
    pub fn remember(&mut self, pattern: &String)
        requires
            old(self).wf(),
        ensures
            final(self)@ == remembered(old(self)@, pattern@),
            final(self).wf(),
    {
        proof {
            lemma_remembered_bounded(self@, pattern@);
        }
        if !self.contains(pattern) {
            if self.entries.len() >= CAPACITY {
                self.entries.remove(0);
            }
            self.entries.push(pattern.clone());
            assert(self@ =~= remembered(old(self)@, pattern@));
        }
    }
}

} // verus!
