//! Console screen state management.
//!
//! Manages the G-code console: command input buffer,
//! command history recall, and printer response display.
use vstd::prelude::*;
use vstd::string::StringExecFns;
use crate::text::{join_lines, lines, pop_char, trim, trimmed, chars_of, split_lines, push_joined_lines, push_char, push_chars};

verus! {

pub const MAX_HISTORY: usize = 50;

/// Number of response lines kept on screen.
pub const MAX_RESPONSE_LINES: usize = 50;

/// The abstract state of the console.
pub struct ConsoleModel {
    pub input: Seq<char>,
    pub response: Seq<char>,
    pub history: Seq<Seq<char>>,
    /// Position in history recall (`None` = not recalling).
    pub index: Option<nat>,
    /// The in-progress command saved when recall began.
    pub saved: Seq<char>,
}

/// History after a command is recorded: not repeated when it equals the
/// most recent entry, and the oldest entry dropped once past `MAX_HISTORY`.
pub open spec fn record(history: Seq<Seq<char>>, cmd: Seq<char>) -> Seq<Seq<char>> {
    if history.len() > 0 && history.last() == cmd {
        history
    } else if history.len() + 1 > MAX_HISTORY {
        history.push(cmd).drop_first()
    } else {
        history.push(cmd)
    }
}

/// Recall the previous command.
pub open spec fn recall_up_model(m: ConsoleModel) -> ConsoleModel {
    if m.history.len() == 0 {
        m
    } else {
        match m.index {
            None => ConsoleModel {
                saved: m.input,
                input: m.history.last(),
                index: Some((m.history.len() - 1) as nat),
                ..m
            },
            Some(i) => if i == 0 {
                m
            } else {
                ConsoleModel { input: m.history[i - 1], index: Some((i - 1) as nat), ..m }
            },
        }
    }
}

/// Recall the next command; past the most recent one the saved input returns.
pub open spec fn recall_down_model(m: ConsoleModel) -> ConsoleModel {
    match m.index {
        None => m,
        Some(i) => if i + 1 < m.history.len() {
            ConsoleModel { input: m.history[i + 1int], index: Some((i + 1) as nat), ..m }
        } else {
            ConsoleModel { input: m.saved, index: None, ..m }
        },
    }
}

/// The response text after `line` is appended: joined with '\n' and cut
/// to its last `MAX_RESPONSE_LINES` lines.
pub open spec fn respond(text: Seq<char>, line: Seq<char>) -> Seq<char> {
    let t = if text.len() > 0 { text + seq!['\n'] + line } else { text + line };
    let ls = lines(t);
    if ls.len() > MAX_RESPONSE_LINES {
        join_lines(ls.skip(ls.len() - MAX_RESPONSE_LINES))
    } else {
        t
    }
}

/// Starting recall and then stepping past the newest entry gives back the
/// command that was being typed, and ends recall.
pub proof fn lemma_recall_round_trip(m: ConsoleModel)
    requires
        m.index is None,
        m.history.len() > 0,
    ensures
        recall_down_model(recall_up_model(m)).input == m.input,
        recall_down_model(recall_up_model(m)).index is None,
        recall_down_model(recall_up_model(m)).history == m.history,
{
}

/// The console after `k` presses of history-up.
pub open spec fn ups(m: ConsoleModel, k: nat) -> ConsoleModel
    decreases k,
{
    if k == 0 {
        m
    } else {
        recall_up_model(ups(m, (k - 1) as nat))
    }
}

/// The console after `j` presses of history-down.
pub open spec fn downs(m: ConsoleModel, j: nat) -> ConsoleModel
    decreases j,
{
    if j == 0 {
        m
    } else {
        recall_down_model(downs(m, (j - 1) as nat))
    }
}

proof fn lemma_ups(m: ConsoleModel, k: nat)
    requires
        m.index is None,
        m.history.len() >= 1,
        k >= 1,
    ensures
        ({
            let n = m.history.len();
            let top = if k < n { k } else { n };
            let u = ups(m, k);
            &&& u.index == Some((n - top) as nat)
            &&& u.input == m.history[n - top]
            &&& u.saved == m.input
            &&& u.history == m.history
            &&& u.response == m.response
        }),
    decreases k,
{
    let n = m.history.len();
    if k > 1 {
        lemma_ups(m, (k - 1) as nat);
        let prev = ups(m, (k - 1) as nat);
        assert(ups(m, k) == recall_up_model(prev));
        let tp = if k - 1 < n { (k - 1) as nat } else { n };
        assert(prev.index == Some((n - tp) as nat));
        if n - tp == 0 {
            assert(ups(m, k) == prev);
        }
    } else {
        assert(ups(m, 0) == m);
        assert(ups(m, 1) == recall_up_model(m));
    }
}

proof fn lemma_downs(s: ConsoleModel, p: nat, j: nat)
    requires
        s.index == Some(p),
        p < s.history.len(),
        s.input == s.history[p as int],
    ensures
        ({
            let d = downs(s, j);
            &&& p + j < s.history.len() ==> d.index == Some(p + j) && d.input == s.history[(p + j) as int]
            &&& p + j >= s.history.len() ==> d.index is None && d.input == s.saved
            &&& d.history == s.history
            &&& d.saved == s.saved
            &&& d.response == s.response
        }),
    decreases j,
{
    if j > 0 {
        lemma_downs(s, p, (j - 1) as nat);
        assert(downs(s, j) == recall_down_model(downs(s, (j - 1) as nat)));
    } else {
        assert(downs(s, 0) == s);
    }
}

/// Walking the history: from a console that is not recalling, `k >= 1`
/// presses of history-up reach the entry `min(k, n)` from the end (`n`
/// entries); then each press of history-down moves one entry newer, and
/// the press that would pass the newest entry restores the command that
/// was being typed and ends recall, after which history-down changes
/// nothing. The history itself never changes.
pub proof fn lemma_recall_walk(m: ConsoleModel, k: nat, j: nat)
    requires
        m.index is None,
        m.history.len() >= 1,
        k >= 1,
    ensures
        ({
            let n = m.history.len();
            let top = if k < n { k } else { n };
            let d = downs(ups(m, k), j);
            &&& ups(m, k).input == m.history[n - top]
            &&& j < top ==> d.input == m.history[n - top + j] && d.index == Some((n - top + j) as nat)
            &&& j >= top ==> d.input == m.input && d.index is None
            &&& d.history == m.history
            &&& d.response == m.response
        }),
{
    lemma_ups(m, k);
    let n = m.history.len();
    let top = if k < n { k } else { n };
    lemma_downs(ups(m, k), (n - top) as nat, j);
}

/// Recording keeps the most recent commands: a command equal to the newest
/// entry changes nothing; any other is appended, and the history then
/// holds the newest `min(n + 1, 50)` commands of the old history followed
/// by the new one, oldest first.
pub proof fn lemma_record_keeps_recent(history: Seq<Seq<char>>, cmd: Seq<char>)
    requires
        history.len() <= MAX_HISTORY,
    ensures
        history.len() > 0 && history.last() == cmd ==> record(history, cmd) == history,
        !(history.len() > 0 && history.last() == cmd) ==> {
            let r = record(history, cmd);
            &&& r.len() == if history.len() + 1 <= 50 { history.len() + 1 } else { 50 }
            &&& r.last() == cmd
            &&& forall|i: int| 0 <= i < r.len() - 1 ==> #[trigger] r[i] == history[history.len() - (r.len() - 1) + i]
        },
{
}

/// No two consecutive history entries are equal.
pub open spec fn no_consecutive_repeats(h: Seq<Seq<char>>) -> bool {
    forall|i: int| 0 <= i < h.len() - 1 ==> #[trigger] h[i] != h[i + 1]
}

/// Recording a command keeps the history within `MAX_HISTORY` entries,
/// keeps it free of consecutive repeats, and leaves the command newest.
pub proof fn lemma_record_bounded(history: Seq<Seq<char>>, cmd: Seq<char>)
    requires
        history.len() <= MAX_HISTORY,
        no_consecutive_repeats(history),
    ensures
        record(history, cmd).len() <= MAX_HISTORY,
        no_consecutive_repeats(record(history, cmd)),
        record(history, cmd).last() == cmd,
{
    let r = record(history, cmd);
    if !(history.len() > 0 && history.last() == cmd) {
        let p = history.push(cmd);
        assert(no_consecutive_repeats(p)) by {
            assert forall|i: int| 0 <= i < p.len() - 1 implies #[trigger] p[i] != p[i + 1] by {
                if i < history.len() - 1 {
                    assert(p[i] == history[i] && p[i + 1] == history[i + 1]);
                } else {
                    assert(p[i + 1] == cmd);
                    assert(p[i] == history.last());
                }
            }
        }
        if history.len() + 1 > MAX_HISTORY {
            assert forall|i: int| 0 <= i < r.len() - 1 implies #[trigger] r[i] != r[i + 1] by {
                assert(r[i] == p[i + 1] && r[i + 1] == p[i + 2]);
            }
        }
    }
}

/// State for the G-code console screen.
#[derive(Debug, Clone)]
pub struct ConsoleState {
    pub command_input: String,
    /// Accumulated response text from the printer (most recent at bottom).
    pub response_text: String,
    pub command_history: Vec<String>,
    /// Current position in history recall (`None` = not recalling).
    pub history_index: Option<usize>,
    /// Snapshot of the in-progress command, restored when cancelling recall.
    pub pre_recall_buffer: String,
}

impl View for ConsoleState {
    type V = ConsoleModel;

    open spec fn view(&self) -> ConsoleModel {
        ConsoleModel {
            input: self.command_input@,
            response: self.response_text@,
            history: self.command_history.deep_view(),
            index: match self.history_index {
                Some(i) => Some(i as nat),
                None => None,
            },
            saved: self.pre_recall_buffer@,
        }
    }
}

impl ConsoleState {
    /// The recall position, if any, points into the history.
    pub open spec fn recall_in_range(&self) -> bool {
        self@.index matches Some(i) ==> i < self@.history.len()
    }

    pub fn new() -> (c: Self)
        ensures
            c@.input == Seq::<char>::empty(),
            c@.response == Seq::<char>::empty(),
            c@.history == Seq::<Seq<char>>::empty(),
            c@.index is None,
            c@.saved == Seq::<char>::empty(),
    {
        let c = ConsoleState {
            command_input: String::new(),
            response_text: String::new(),
            command_history: Vec::new(),
            history_index: None,
            pre_recall_buffer: String::new(),
        };
        assert(c@.history =~= Seq::<Seq<char>>::empty());
        c
    }

    /// The current recall position (`None` = not recalling).
    pub fn history_index(&self) -> (r: Option<usize>)
        ensures
            r matches Some(i) ==> self@.index == Some(i as nat),
            r is None ==> self@.index is None,
    {
        self.history_index
    }

    /// Typing cancels recall and appends to the input.
    pub fn append_char(&mut self, ch: &str)
        ensures
            final(self)@ == (ConsoleModel { input: old(self)@.input + ch@, index: None, ..old(self)@ }),
    {
        self.history_index = None;
        self.command_input.append(ch);
    }

    pub fn backspace(&mut self)
        ensures
            final(self)@ == (ConsoleModel {
                input: if old(self)@.input.len() > 0 { old(self)@.input.drop_last() } else { old(self)@.input },
                index: None,
                ..old(self)@
            }),
    {
        self.history_index = None;
        pop_char(&mut self.command_input);
    }

    pub fn clear_input(&mut self)
        ensures
            final(self)@ == (ConsoleModel { input: Seq::empty(), index: None, ..old(self)@ }),
    {
        self.history_index = None;
        self.command_input = String::new();
    }

    /// Finalize and return the current command for sending.
    ///
    /// Returns `None` (changing nothing) if the trimmed input is empty.
    /// Otherwise records the trimmed command in history, clears the input
    /// and ends any recall.
    pub fn finalize_command(&mut self) -> (r: Option<String>)
        ensures
            trim(old(self)@.input).len() == 0 ==> r is None && final(self)@ == old(self)@,
            trim(old(self)@.input).len() > 0 ==> {
                &&& r matches Some(c) && c@ == trim(old(self)@.input)
                &&& final(self)@ == (ConsoleModel {
                    input: Seq::empty(),
                    history: record(old(self)@.history, trim(old(self)@.input)),
                    index: None,
                    saved: Seq::empty(),
                    ..old(self)@
                })
            },
    {
        let cmd = trimmed(self.command_input.as_str());
        if cmd.as_str().is_empty() {
            return None;
        }
        let n = self.command_history.len();
        let repeat = n > 0 && self.command_history[n - 1] == cmd;
        let ghost h0 = self.command_history.deep_view();
        if !repeat {
            self.command_history.push(cmd.clone());
            let ghost h1 = self.command_history.deep_view();
            assert(h1 =~= h0.push(cmd@)) by {
                assert forall|j: int| 0 <= j < h1.len() implies h1[j] == h0.push(cmd@)[j] by {
                    if j < h0.len() {
                        assert(self.command_history@[j] == old(self).command_history@[j]);
                    }
                }
            }
            if self.command_history.len() > MAX_HISTORY {
                self.command_history.remove(0);
                assert(self.command_history.deep_view() =~= h1.drop_first()) by {
                    assert forall|j: int| 0 <= j < h1.len() - 1 implies #[trigger] self.command_history.deep_view()[j] == h1.drop_first()[j] by {
                        assert(self.command_history@[j] == old(self).command_history@.push(cmd)[j + 1]);
                    }
                }
            }
        } else {
            assert(h0.last() == self.command_history@[n - 1]@);
        }
        self.history_index = None;
        self.pre_recall_buffer = String::new();
        self.command_input = String::new();
        Some(cmd)
    }

    /// Recall the previous command (history up). The recall position may
    /// not lie past the end of a non-empty history (the history entry
    /// before it is read).
    pub fn recall_up(&mut self)
        requires
            old(self)@.history.len() == 0 || (old(self)@.index matches Some(i) ==> i
                <= old(self)@.history.len()),
        ensures
            final(self)@ == recall_up_model(old(self)@),
            (old(self)@.history.len() > 0 || old(self).recall_in_range())
                ==> final(self).recall_in_range(),
    {
        let n = self.command_history.len();
        if n == 0 {
            return;
        }
        match self.history_index {
            None => {
                self.pre_recall_buffer = self.command_input.clone();
                let idx = n - 1;
                self.command_input = self.command_history[idx].clone();
                self.history_index = Some(idx);
            },
            Some(idx) => {
                if idx > 0 {
                    let new_idx = idx - 1;
                    self.command_input = self.command_history[new_idx].clone();
                    self.history_index = Some(new_idx);
                }
            },
        }
    }

    /// Recall the next command (history down).
    ///
    /// If the user goes past the most recent command, the pre-recall
    /// buffer is restored (effectively cancelling history recall).
    pub fn recall_down(&mut self)
        requires
            old(self)@.index matches Some(i) ==> i < usize::MAX,
        ensures
            final(self)@ == recall_down_model(old(self)@),
            final(self).recall_in_range(),
    {
        match self.history_index {
            None => {},
            Some(idx) => {
                assert(self.command_history.deep_view().len() == self.command_history@.len());
                assert(self@.index == Some(idx as nat));
                let n = self.command_history.len();
                let next = idx + 1;
                if next < n {
                    self.command_input = self.command_history[next].clone();
                    self.history_index = Some(next);
                } else {
                    self.command_input = self.pre_recall_buffer.clone();
                    self.history_index = None;
                }
            },
        }
    }

    /// Append a response line, keeping only the last `MAX_RESPONSE_LINES` lines.
    pub fn push_response(&mut self, line: &str)
        ensures
            final(self)@ == (ConsoleModel { response: respond(old(self)@.response, line@), ..old(self)@ }),
    {
        let ghost old_text = self.response_text@;
        if !self.response_text.as_str().is_empty() {
            push_char(&mut self.response_text, '\n');
        }
        self.response_text.append(line);
        assert(self.response_text@ =~= if old_text.len() > 0 { old_text + seq!['\n'] + line@ } else { old_text + line@ });
        let cs = chars_of(self.response_text.as_str());
        let ls = split_lines(cs.as_slice());
        let count = ls.len();
        if count > MAX_RESPONSE_LINES {
            let skip = count - MAX_RESPONSE_LINES;
            let mut ls = ls;
            let ghost full = ls.deep_view();
            let ghost full_vec = ls@;
            let kept = ls.split_off(skip);
            assert(kept.deep_view() =~= full.skip(skip as int)) by {
                assert forall|j: int| 0 <= j < kept@.len() implies #[trigger] kept.deep_view()[j] == full.skip(skip as int)[j] by {
                    assert(kept@[j] == full_vec[j + skip]);
                }
            }
            let mut out = String::new();
            push_joined_lines(&mut out, kept.as_slice());
            assert(Seq::<char>::empty() + join_lines(kept.deep_view()) =~= join_lines(kept.deep_view()));
            self.response_text = out;
        }
    }
}

impl Default for ConsoleState {
    fn default() -> (c: Self)
        ensures
            c@.input == Seq::<char>::empty(),
            c@.response == Seq::<char>::empty(),
            c@.history == Seq::<Seq<char>>::empty(),
            c@.index is None,
            c@.saved == Seq::<char>::empty(),
    {
        Self::new()
    }
}

} // verus!
