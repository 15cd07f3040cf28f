//! The engine: an ordered list of buffers, the active-buffer index, the
//! viewport dimensions and the process-wide input mode, with the key-driven
//! protocol that edits the active buffer and switches between buffers.
//!
//! The host owns the terminal.  Each poll cycle it reads one event, maps it
//! onto [`crate::keys::Key`], hands it to [`Window::get`], and repaints from
//! [`Window::redraw`] when asked to.  On a resize notification the host
//! re-queries the dimensions and calls [`Window::resize`].

use vstd::prelude::*;
use crate::buffer::{buffer_step, line_view, Buffer, BufferModel};
use crate::keys::{key_token, spec_key_token, Key};
use crate::render::{
    backlog_rows, input_row, spec_backlog_rows, spec_input_row, spec_region_height,
    spec_topic_row, spec_wrap_width, topic_row, Screen,
};
use crate::text::{chars_of, lines_view, msgs_view};

verus! {

/// Ctrl+K: arms catch-key capture.
pub const KEY_CTRL_K: char = '\x0b';

/// Ctrl+L: asks for a full redraw.
pub const KEY_CTRL_L: char = '\x0c';

/// Escape: arms buffer navigation.
pub const KEY_ESCAPE: char = '\x1b';

/// The process-wide input mode.
#[derive(Clone, Copy, Debug)]
pub enum Mode {
    /// Keys edit the active buffer.
    Normal,
    /// The next key is echoed into the input line as a debug token.
    CatchKey,
    /// Escape was seen: the next key picks a buffer (digit) or extends the
    /// protocol (`j`).
    NavigateArmed,
    /// `j` was seen: collecting the digits of a two-digit buffer address.
    NavigateCollecting(Option<char>),
}

/// Mathematical state of the input mode, the digit accumulator as a string.
pub enum ModeModel {
    /// Keys edit the active buffer.
    Normal,
    /// The next key is echoed into the input line as a debug token.
    CatchKey,
    /// Escape was seen.
    NavigateArmed,
    /// `j` was seen; the digits collected so far.
    NavigateCollecting(Seq<char>),
}

impl View for Mode {
    type V = ModeModel;

    open spec fn view(&self) -> ModeModel {
        match *self {
            Mode::Normal => ModeModel::Normal,
            Mode::CatchKey => ModeModel::CatchKey,
            Mode::NavigateArmed => ModeModel::NavigateArmed,
            Mode::NavigateCollecting(o) => ModeModel::NavigateCollecting(
                match o {
                    None => Seq::empty(),
                    Some(d) => seq![d],
                },
            ),
        }
    }
}

/// Mathematical state of the whole engine.
pub struct WindowModel {
    /// The buffers, in their fixed session order.
    pub buffers: Seq<BufferModel>,
    /// Index of the active buffer; always below `buffers.len()`.
    pub cur_buf: usize,
    /// Viewport rows.
    pub max_y: usize,
    /// Viewport columns.
    pub max_x: usize,
    /// The process-wide input mode.
    pub mode: ModeModel,
}

impl WindowModel {
    /// The engine's invariant: at least one buffer, the active index in
    /// range, and every buffer well formed.
    pub open spec fn wf(self) -> bool {
        &&& 0 < self.buffers.len()
        &&& (self.cur_buf as int) < self.buffers.len()
        &&& forall|i: int| 0 <= i < self.buffers.len() ==> (#[trigger] self.buffers[i]).wf()
    }

    /// The active buffer.
    pub open spec fn active(self) -> BufferModel {
        self.buffers[self.cur_buf as int]
    }

    /// The same engine with the active buffer replaced.
    pub open spec fn with_active(self, b: BufferModel) -> WindowModel {
        WindowModel { buffers: self.buffers.update(self.cur_buf as int, b), ..self }
    }

    /// The same engine with another mode.
    pub open spec fn with_mode(self, m: ModeModel) -> WindowModel {
        WindowModel { mode: m, ..self }
    }
}

/// Whether a character is a decimal digit.
pub open spec fn is_digit(c: char) -> bool {
    '0' <= c && c <= '9'
}

/// Whether every character is a decimal digit.
pub open spec fn all_digits(s: Seq<char>) -> bool {
    forall|i: int| 0 <= i < s.len() ==> is_digit(#[trigger] s[i])
}

/// The value of one digit; zero for anything else.
pub open spec fn digit_val(c: char) -> nat {
    if is_digit(c) {
        (c as int - '0' as int) as nat
    } else {
        0
    }
}

/// The number a digit string names, in decimal.
pub open spec fn digits_val(s: Seq<char>) -> nat
    decreases s.len(),
{
    if s.len() == 0 {
        0
    } else {
        digits_val(s.drop_last()) * 10 + digit_val(s.last())
    }
}

/// The zero-based buffer index a digit string addresses: one-based, with zero
/// meaning the tenth of its range.
pub open spec fn nav_index(s: Seq<char>) -> nat {
    if digits_val(s) == 0 {
        9
    } else {
        (digits_val(s) - 1) as nat
    }
}

/// What switching to buffer `idx` does: the switch happens exactly when the
/// index names an existing buffer, and asks for a redraw; otherwise nothing
/// changes.
pub open spec fn navigate_model(w: WindowModel, idx: nat) -> (WindowModel, bool) {
    if idx < w.buffers.len() {
        (WindowModel { cur_buf: idx as usize, ..w }, true)
    } else {
        (w, false)
    }
}

/// What switching by a digit string does: a non-empty all-digit string whose
/// value fits the machine resolves through [`nav_index`]; anything else is
/// silently absorbed.
pub open spec fn try_navigate_model(w: WindowModel, digits: Seq<char>) -> (WindowModel, bool) {
    if digits.len() > 0 && all_digits(digits) && digits_val(digits) <= usize::MAX {
        navigate_model(w, nav_index(digits))
    } else {
        (w, false)
    }
}

/// What one poll cycle does to the engine.
pub struct WindowStep {
    /// The engine afterwards.
    pub state: WindowModel,
    /// Whether the host must repaint the screen.
    pub redraw: bool,
    /// The completed line, if Enter submitted one.
    pub line: Option<Seq<char>>,
}

/// A step that changes the state and returns no line.
pub open spec fn step_state(w: WindowModel, redraw: bool) -> WindowStep {
    WindowStep { state: w, redraw, line: None }
}

/// What one key does to the engine, mode by mode.
///
/// In catch-key mode the key's debug token is appended to the active input.
/// An armed navigation consumes a digit (switch), a `j` (collect two digits),
/// or anything else (silently back to Normal).  In Normal mode, Ctrl+K arms
/// catch-key, Escape arms navigation, Ctrl+L asks for a redraw, and every
/// other key goes to the active buffer's editing step.
pub open spec fn window_key_step(w: WindowModel, k: Key) -> WindowStep {
    match w.mode {
        ModeModel::CatchKey => {
            let tok = spec_key_token(k);
            let b = w.active();
            let b2 = BufferModel { input: b.input + tok, cursor: (b.cursor + tok.len()) as nat, ..b };
            step_state(w.with_active(b2).with_mode(ModeModel::Normal), true)
        },
        ModeModel::NavigateArmed => match k {
            Key::Character(c) => if c == 'j' {
                step_state(w.with_mode(ModeModel::NavigateCollecting(Seq::empty())), false)
            } else if is_digit(c) {
                let (w2, switched) = try_navigate_model(
                    w.with_mode(ModeModel::Normal),
                    seq![c],
                );
                step_state(w2, switched)
            } else {
                step_state(w.with_mode(ModeModel::Normal), false)
            },
            _ => step_state(w.with_mode(ModeModel::Normal), false),
        },
        ModeModel::NavigateCollecting(ds) => match k {
            Key::Character(c) => if is_digit(c) {
                let ds2 = ds.push(c);
                if ds2.len() == 2 {
                    let (w2, switched) = try_navigate_model(
                        w.with_mode(ModeModel::Normal),
                        ds2,
                    );
                    step_state(w2, switched)
                } else {
                    step_state(w.with_mode(ModeModel::NavigateCollecting(ds2)), false)
                }
            } else {
                step_state(w.with_mode(ModeModel::Normal), false)
            },
            _ => step_state(w.with_mode(ModeModel::Normal), false),
        },
        ModeModel::Normal => match k {
            Key::Character(c) => if c == KEY_CTRL_K {
                step_state(w.with_mode(ModeModel::CatchKey), false)
            } else if c == KEY_ESCAPE {
                step_state(w.with_mode(ModeModel::NavigateArmed), false)
            } else if c == KEY_CTRL_L {
                step_state(w, true)
            } else {
                let st = buffer_step(w.active(), k);
                WindowStep { state: w.with_active(st.state), redraw: st.redraw, line: st.line }
            },
            _ => {
                let st = buffer_step(w.active(), k);
                WindowStep { state: w.with_active(st.state), redraw: st.redraw, line: st.line }
            },
        },
    }
}

/// What one poll cycle does: nothing without an event; nothing on a resize
/// notification (the host re-queries the dimensions and calls `resize`);
/// otherwise one key step.
pub open spec fn window_step(w: WindowModel, key: Option<Key>) -> WindowStep {
    match key {
        None => step_state(w, false),
        Some(Key::Resize) => step_state(w, false),
        Some(k) => window_key_step(w, k),
    }
}

/// The engine: the session's buffers, the active index, the viewport and the
/// input mode.
pub struct Window {
    /// The buffers, in their fixed session order.
    pub buffers: Vec<Buffer>,
    /// Index of the active buffer.
    pub cur_buf: usize,
    /// Viewport rows.
    pub max_y: usize,
    /// Viewport columns.
    pub max_x: usize,
    /// The process-wide input mode.
    pub mode: Mode,
}

impl View for Window {
    type V = WindowModel;

    open spec fn view(&self) -> WindowModel {
        WindowModel {
            buffers: self.buffers@.map_values(|b: Buffer| b@),
            cur_buf: self.cur_buf,
            max_y: self.max_y,
            max_x: self.max_x,
            mode: self.mode@,
        }
    }
}

impl Window {
    /// A fresh session over a viewport of `max_y` rows and `max_x` columns,
    /// with `nbuffers` empty buffers and the first one active, in Normal
    /// mode.  The host acquires the terminal itself and passes the dimensions
    /// in.
    pub fn initscr(nbuffers: usize, max_y: usize, max_x: usize) -> (r: Window)
        requires
            nbuffers >= 1,
        ensures
            r@.wf(),
            r@.buffers.len() == nbuffers,
            forall|i: int| 0 <= i < nbuffers ==> (#[trigger] r@.buffers[i]) == Buffer::new_model(),
            r@.cur_buf == 0,
            r@.max_y == max_y,
            r@.max_x == max_x,
            r@.mode == ModeModel::Normal,
    {
        let mut buffers: Vec<Buffer> = Vec::new();
        let mut i: usize = 0;
        while i < nbuffers
            invariant
                i <= nbuffers,
                buffers@.len() == i,
                forall|j: int| 0 <= j < i ==> (#[trigger] buffers@[j])@ == Buffer::new_model(),
            decreases nbuffers - i,
        {
            let b = Buffer::new();
            buffers.push(b);
            i = i + 1;
        }
        Window { buffers, cur_buf: 0, max_y, max_x, mode: Mode::Normal }
    }

    /// A borrow of the active buffer.
    pub fn cur_buf(&self) -> (r: &Buffer)
        requires
            self@.wf(),
        ensures
            r@ == self@.active(),
    {
        &self.buffers[self.cur_buf]
    }

    /// A mutable borrow of the active buffer.  Whatever the caller writes
    /// through it lands at the active index; everything else stays.
    pub fn cur_buf_mut(&mut self) -> (r: &mut Buffer)
        requires
            old(self)@.wf(),
        ensures
            (*r)@ == old(self)@.active(),
            final(self).buffers@ == old(self).buffers@.update(
                old(self).cur_buf as int,
                *final(r),
            ),
            final(self).cur_buf == old(self).cur_buf,
            final(self).max_y == old(self).max_y,
            final(self).max_x == old(self).max_x,
            final(self).mode == old(self).mode,
    {
        let idx = self.cur_buf;
        &mut self.buffers[idx]
    }

    /// Appends a message to the active buffer's backlog.  The host repaints
    /// afterwards.
    pub fn writeln(&mut self, txt: String)
        requires
            old(self)@.wf(),
        ensures
            final(self)@ == old(self)@.with_active(
                BufferModel {
                    backlog: old(self)@.active().backlog.push(txt@),
                    ..old(self)@.active()
                },
            ),
            final(self)@.wf(),
    {
        let ghost before = self@;
        let ghost txt_s = txt@;
        let idx = self.cur_buf;
        let b = &mut self.buffers[idx];
        let ghost bb = (*b)@;
        b.backlog.push(txt);
        proof {
            assert(msgs_view(b.backlog@) =~= bb.backlog.push(txt_s));
            assert((*b)@ == (BufferModel { backlog: bb.backlog.push(txt_s), ..bb }));
        }
        proof {
            let nb = BufferModel {
                backlog: before.active().backlog.push(txt_s),
                ..before.active()
            };
            assert(self@.buffers =~= before.buffers.update(before.cur_buf as int, nb));
            assert(self@ == before.with_active(nb));
        }
    }

    /// Records new viewport dimensions after a resize.  The host repaints
    /// afterwards.
    pub fn resize(&mut self, max_y: usize, max_x: usize)
        ensures
            final(self)@ == (WindowModel { max_y, max_x, ..old(self)@ }),
    {
        self.max_y = max_y;
        self.max_x = max_x;
    }

    /// Sets the active buffer's prompt.
    pub fn set_prompt(&mut self, prompt: String)
        requires
            old(self)@.wf(),
        ensures
            final(self)@ == old(self)@.with_active(
                BufferModel { prompt: prompt@, ..old(self)@.active() },
            ),
            final(self)@.wf(),
    {
        let chars = chars_of(prompt.as_str());
        let ghost before = self@;
        let idx = self.cur_buf;
        let b = &mut self.buffers[idx];
        b.prompt = chars;
        proof {
            assert(final(self)@.buffers =~= before.buffers.update(before.cur_buf as int, b@));
        }
    }

    /// Sets the active buffer's topic.
    pub fn set_topic(&mut self, topic: String)
        requires
            old(self)@.wf(),
        ensures
            final(self)@ == old(self)@.with_active(
                BufferModel { topic: topic@, ..old(self)@.active() },
            ),
            final(self)@.wf(),
    {
        let chars = chars_of(topic.as_str());
        let ghost before = self@;
        let idx = self.cur_buf;
        let b = &mut self.buffers[idx];
        b.topic = chars;
        proof {
            assert(final(self)@.buffers =~= before.buffers.update(before.cur_buf as int, b@));
        }
    }

    /// Switches to buffer `window` if it exists; otherwise nothing changes.
    /// Returns whether the switch happened (the host then repaints).
    pub fn navigate(&mut self, window: usize) -> (r: bool)
        ensures
            (final(self)@, r) == navigate_model(old(self)@, window as nat),
    {
        if window < self.buffers.len() {
            self.cur_buf = window;
            true
        } else {
            false
        }
    }

    /// Switches by a digit string: one-based, zero meaning the tenth.
    /// Anything that is not a number naming an existing buffer is silently
    /// absorbed.  Returns whether the switch happened.
    pub fn try_navigate(&mut self, window: String) -> (r: bool)
        ensures
            (final(self)@, r) == try_navigate_model(old(self)@, window@),
    {
        let digits = chars_of(window.as_str());
        self.navigate_digits(&digits)
    }

    /// Switches by an already-split digit string.
    fn navigate_digits(&mut self, digits: &Vec<char>) -> (r: bool)
        ensures
            (final(self)@, r) == try_navigate_model(old(self)@, digits@),
    {
        if digits.len() == 0 {
            return false;
        }
        let mut val: usize = 0;
        let mut i: usize = 0;
        while i < digits.len()
            invariant
                i <= digits@.len(),
                all_digits(digits@.take(i as int)),
                val == digits_val(digits@.take(i as int)),
            decreases digits@.len() - i,
        {
            let c = digits[i];
            if c < '0' || c > '9' {
                assert(!is_digit(digits@[i as int]));
                return false;
            }
            let d = (c as u32 - '0' as u32) as usize;
            if val > (usize::MAX - d) / 10 {
                // The number overflows the machine: it cannot name a buffer.
                proof {
                    assert(digits@.take(i + 1).drop_last() =~= digits@.take(i as int));
                    assert(digits@.take(i + 1).last() == digits@[i as int]);
                    assert(digits_val(digits@.take(i + 1)) == val * 10 + d);
                    assert(val * 10 + d > usize::MAX) by (nonlinear_arith)
                        requires
                            val > (usize::MAX - d) / 10,
                            d <= 9,
                    ;
                    if all_digits(digits@) {
                        lemma_digits_val_prefix_le(digits@, i + 1);
                    }
                }
                return false;
            }
            proof {
                assert(val * 10 + d <= usize::MAX) by (nonlinear_arith)
                    requires
                        val <= (usize::MAX - d) / 10,
                        d <= 9,
                ;
            }
            val = val * 10 + d;
            i = i + 1;
            proof {
                assert(digits@.take(i as int).drop_last() =~= digits@.take(i - 1));
                assert(digits@.take(i as int).last() == digits@[i - 1]);
                assert(all_digits(digits@.take(i as int)));
            }
        }
        proof {
            assert(digits@.take(digits@.len() as int) =~= digits@);
        }
        let idx = if val == 0 {
            9
        } else {
            val - 1
        };
        self.navigate(idx)
    }

    /// Feeds one poll-cycle event to the engine.  Returns whether the host
    /// must repaint, and the completed line if Enter submitted one.  On a
    /// resize notification the host calls [`Window::resize`] itself and
    /// repaints.
    pub fn get(&mut self, key: Option<Key>) -> (r: (bool, Option<String>))
        requires
            old(self)@.wf(),
        ensures
            final(self)@ == window_step(old(self)@, key).state,
            r.0 == window_step(old(self)@, key).redraw,
            line_view(r.1) == window_step(old(self)@, key).line,
            final(self)@.wf(),
    {
        let k = match key {
            None => {
                return (false, None);
            },
            Some(Key::Resize) => {
                return (false, None);
            },
            Some(k) => k,
        };
        match self.mode {
            Mode::CatchKey => {
                let ghost before = self@;
                let tok = key_token(k);
                let tl = tok.len();
                let mut tok = tok;
                let ghost tok_s = tok@;
                let idx = self.cur_buf;
                let b = &mut self.buffers[idx];
                let ghost bb = (*b)@;
                b.input.append(&mut tok);
                let n = b.input.len();
                assert(b.position + tl <= n);
                b.position = b.position + tl;
                proof {
                    let nb = BufferModel {
                        input: bb.input + tok_s,
                        cursor: (bb.cursor + tok_s.len()) as nat,
                        ..bb
                    };
                    assert((*b)@ == nb);
                }
                self.mode = Mode::Normal;
                proof {
                    let nb = BufferModel {
                        input: before.active().input + spec_key_token(k),
                        cursor: (before.active().cursor + spec_key_token(k).len()) as nat,
                        ..before.active()
                    };
                    assert(self@.buffers =~= before.buffers.update(before.cur_buf as int, nb));
                    assert(self@ == window_key_step(before, k).state);
                }
                (true, None)
            },
            Mode::NavigateArmed => {
                self.mode = Mode::Normal;
                match k {
                    Key::Character(c) => {
                        if c == 'j' {
                            self.mode = Mode::NavigateCollecting(None);
                            (false, None)
                        } else if c >= '0' && c <= '9' {
                            let mut digits: Vec<char> = Vec::new();
                            digits.push(c);
                            proof {
                                assert(digits@ =~= seq![c]);
                            }
                            let switched = self.navigate_digits(&digits);
                            (switched, None)
                        } else {
                            (false, None)
                        }
                    },
                    _ => (false, None),
                }
            },
            Mode::NavigateCollecting(acc) => {
                self.mode = Mode::Normal;
                match k {
                    Key::Character(c) => {
                        if c >= '0' && c <= '9' {
                            match acc {
                                None => {
                                    self.mode = Mode::NavigateCollecting(Some(c));
                                    proof {
                                        assert(Seq::<char>::empty().push(c) =~= seq![c]);
                                    }
                                    (false, None)
                                },
                                Some(d) => {
                                    let mut digits: Vec<char> = Vec::new();
                                    digits.push(d);
                                    digits.push(c);
                                    proof {
                                        assert(digits@ =~= seq![d].push(c));
                                    }
                                    let switched = self.navigate_digits(&digits);
                                    (switched, None)
                                },
                            }
                        } else {
                            (false, None)
                        }
                    },
                    _ => (false, None),
                }
            },
            Mode::Normal => {
                match k {
                    Key::Character(c) if c == KEY_CTRL_K => {
                        self.mode = Mode::CatchKey;
                        (false, None)
                    },
                    Key::Character(c) if c == KEY_ESCAPE => {
                        self.mode = Mode::NavigateArmed;
                        (false, None)
                    },
                    Key::Character(c) if c == KEY_CTRL_L => (true, None),
                    _ => {
                        let ghost before = self@;
                        let idx = self.cur_buf;
                        let b = &mut self.buffers[idx];
                        let r = b.get(k);
                        proof {
                            assert(self@.buffers =~= before.buffers.update(
                                before.cur_buf as int,
                                buffer_step(before.active(), k).state,
                            ));
                            assert(self@ == window_key_step(before, k).state);
                        }
                        r
                    },
                }
            },
        }
    }

    /// The topic row for the current viewport: the active buffer's topic cut
    /// and padded to the screen width.
    pub fn draw_topic(&self) -> (r: Vec<char>)
        requires
            self@.wf(),
        ensures
            r@ == spec_topic_row(self@.active().topic, self@.max_x),
    {
        let b = &self.buffers[self.cur_buf];
        topic_row(&b.topic, self.max_x)
    }

    /// The input row and the cursor's screen column on it.
    pub fn draw_input(&self) -> (r: (Vec<char>, usize))
        requires
            self@.wf(),
            self@.active().prompt.len() + self@.active().cursor <= usize::MAX,
        ensures
            r.0@ == spec_input_row(self@.active().prompt, self@.active().input),
            r.1 == self@.active().prompt.len() + self@.active().cursor,
    {
        let b = &self.buffers[self.cur_buf];
        let row = input_row(&b.prompt, &b.input);
        let col = b.cursor_pos();
        (row, col)
    }

    /// The full screen content for the active buffer under the current
    /// viewport: topic row, backlog region, input row and cursor column.
    pub fn redraw(&self) -> (r: Screen)
        requires
            self@.wf(),
            self@.active().prompt.len() + self@.active().cursor <= usize::MAX,
        ensures
            r.topic_row@ == spec_topic_row(self@.active().topic, self@.max_x),
            lines_view(r.backlog_rows@) == spec_backlog_rows(
                self@.active().backlog,
                spec_wrap_width(self@.max_x),
                spec_region_height(self@.max_y),
            ),
            r.input_row@ == spec_input_row(self@.active().prompt, self@.active().input),
            r.cursor_col == self@.active().prompt.len() + self@.active().cursor,
    {
        let topic = self.draw_topic();
        let (input, cursor_col) = self.draw_input();
        let b = &self.buffers[self.cur_buf];
        let width = if self.max_x >= 4 {
            self.max_x - 3
        } else {
            1
        };
        let height = if self.max_y >= 3 {
            self.max_y - 3
        } else {
            0
        };
        let rows = backlog_rows(&b.backlog, width, height);
        Screen { topic_row: topic, backlog_rows: rows, input_row: input, cursor_col }
    }
}

/// A digit string's value only grows as more digits arrive.
proof fn lemma_digits_val_prefix_le(s: Seq<char>, i: int)
    requires
        0 <= i <= s.len(),
    ensures
        digits_val(s.take(i)) <= digits_val(s),
    decreases s.len() - i,
{
    if i == s.len() {
        assert(s.take(i) =~= s);
    } else {
        assert(s.take(i + 1).drop_last() =~= s.take(i));
        assert(digits_val(s.take(i + 1)) == digits_val(s.take(i)) * 10 + digit_val(
            s.take(i + 1).last(),
        ));
        assert(digits_val(s.take(i)) * 10 >= digits_val(s.take(i))) by (nonlinear_arith);
        lemma_digits_val_prefix_le(s, i + 1);
    }
}

} // verus!
