//! One buffer ("tab"): its message backlog, editable input line, cursor,
//! prompt and topic, together with the Normal-mode editing state machine.
//!
//! Every editing operation is total: at a boundary (deleting before position
//! zero, moving right past the end) it does nothing rather than fail, and the
//! cursor never leaves `[0, input.len()]`.

use vstd::prelude::*;
use crate::keys::Key;
use crate::text::{msgs_view, string_of_chars};

verus! {

/// Enter.
pub const KEY_ENTER: char = '\n';

/// Backspace, as most terminals send it.
pub const KEY_BACKSPACE_DEL: char = '\x7f';

/// Backspace, the other encoding.
pub const KEY_BACKSPACE_BS: char = '\x08';

/// Ctrl+A: cursor to the start of the line.
pub const KEY_CTRL_A: char = '\x01';

/// Ctrl+E: cursor to the end of the line.
pub const KEY_CTRL_E: char = '\x05';

/// Ctrl+U: delete from the start of the line to the cursor.
pub const KEY_CTRL_U: char = '\x15';

/// Mathematical state of one buffer.
pub struct BufferModel {
    /// Messages already shown, oldest first.
    pub backlog: Seq<Seq<char>>,
    /// The not-yet-submitted line.
    pub input: Seq<char>,
    /// Index into `input`; always in `[0, input.len()]`.
    pub cursor: nat,
    /// Display-only prefix of the input row.
    pub prompt: Seq<char>,
    /// Display-only text of the topic row.
    pub topic: Seq<char>,
}

impl BufferModel {
    /// The buffer's one invariant: the cursor stays inside the input line.
    pub open spec fn wf(self) -> bool {
        self.cursor <= self.input.len()
    }
}

/// What one key does to a buffer in Normal mode.
pub struct BufferStep {
    /// The buffer afterwards.
    pub state: BufferModel,
    /// Whether the screen must be redrawn in full.
    pub redraw: bool,
    /// The completed line, if Enter submitted one.
    pub line: Option<Seq<char>>,
}

/// The Normal-mode editing step: what `key` does to buffer `b`.
///
/// Plain characters are appended at the logical end of the input and advance
/// the cursor by one; Enter on a non-empty input submits the whole line and
/// clears it; every edit clamps at the line's boundaries instead of failing.
pub open spec fn buffer_step(b: BufferModel, key: Key) -> BufferStep {
    match key {
        Key::Character(c) => if c == KEY_ENTER {
            if b.input.len() == 0 {
                BufferStep { state: b, redraw: false, line: None }
            } else {
                BufferStep {
                    state: BufferModel { input: Seq::empty(), cursor: 0, ..b },
                    redraw: false,
                    line: Some(b.input),
                }
            }
        } else if c == KEY_BACKSPACE_DEL || c == KEY_BACKSPACE_BS {
            if b.cursor > 0 {
                BufferStep {
                    state: BufferModel {
                        input: b.input.remove(b.cursor - 1),
                        cursor: (b.cursor - 1) as nat,
                        ..b
                    },
                    redraw: false,
                    line: None,
                }
            } else {
                BufferStep { state: b, redraw: false, line: None }
            }
        } else if c == KEY_CTRL_A {
            BufferStep { state: BufferModel { cursor: 0, ..b }, redraw: true, line: None }
        } else if c == KEY_CTRL_E {
            BufferStep {
                state: BufferModel { cursor: b.input.len(), ..b },
                redraw: true,
                line: None,
            }
        } else if c == KEY_CTRL_U {
            BufferStep {
                state: BufferModel { input: b.input.skip(b.cursor as int), cursor: 0, ..b },
                redraw: true,
                line: None,
            }
        } else {
            BufferStep {
                state: BufferModel { input: b.input.push(c), cursor: b.cursor + 1, ..b },
                redraw: false,
                line: None,
            }
        },
        Key::Delete => if b.cursor < b.input.len() {
            BufferStep {
                state: BufferModel { input: b.input.remove(b.cursor as int), ..b },
                redraw: false,
                line: None,
            }
        } else {
            BufferStep { state: b, redraw: false, line: None }
        },
        Key::Left => if b.cursor > 0 {
            BufferStep {
                state: BufferModel { cursor: (b.cursor - 1) as nat, ..b },
                redraw: false,
                line: None,
            }
        } else {
            BufferStep { state: b, redraw: false, line: None }
        },
        Key::Right => if b.cursor < b.input.len() {
            BufferStep {
                state: BufferModel { cursor: b.cursor + 1, ..b },
                redraw: false,
                line: None,
            }
        } else {
            BufferStep { state: b, redraw: false, line: None }
        },
        Key::Resize => BufferStep { state: b, redraw: false, line: None },
        Key::Unknown => BufferStep { state: b, redraw: false, line: None },
    }
}

/// The characters of a completed line, if one was returned.
pub open spec fn line_view(o: Option<String>) -> Option<Seq<char>> {
    match o {
        Some(s) => Some(s@),
        None => None,
    }
}

/// One buffer ("tab"): backlog, input line, cursor, prompt and topic.
pub struct Buffer {
    /// Messages already shown, oldest first.
    pub backlog: Vec<String>,
    /// The not-yet-submitted line.
    pub input: Vec<char>,
    /// Cursor index into `input`; the editing operations keep it in
    /// `[0, input.len()]`.
    pub position: usize,
    /// Display-only prefix of the input row.
    pub prompt: Vec<char>,
    /// Display-only text of the topic row.
    pub topic: Vec<char>,
}

impl View for Buffer {
    type V = BufferModel;

    open spec fn view(&self) -> BufferModel {
        BufferModel {
            backlog: msgs_view(self.backlog@),
            input: self.input@,
            cursor: self.position as nat,
            prompt: self.prompt@,
            topic: self.topic@,
        }
    }
}

impl Buffer {
    /// The state of a fresh buffer: no backlog, no input, cursor at zero,
    /// empty prompt and topic.
    pub open spec fn new_model() -> BufferModel {
        BufferModel {
            backlog: Seq::<Seq<char>>::empty(),
            input: Seq::<char>::empty(),
            cursor: 0 as nat,
            prompt: Seq::<char>::empty(),
            topic: Seq::<char>::empty(),
        }
    }

    /// An empty buffer: no backlog, no input, cursor at zero, empty prompt
    /// and topic.
    pub fn new() -> (r: Buffer)
        ensures
            r@ == Buffer::new_model(),
            r@.wf(),
    {
        let r = Buffer {
            backlog: Vec::new(),
            input: Vec::new(),
            position: 0,
            prompt: Vec::new(),
            topic: Vec::new(),
        };
        proof {
            assert(r@.backlog =~= Seq::<Seq<char>>::empty());
        }
        r
    }

    /// The screen column of the cursor on the input row: the prompt's length
    /// plus the cursor's position.
    pub fn cursor_pos(&self) -> (r: usize)
        requires
            self@.prompt.len() + self@.cursor <= usize::MAX,
        ensures
            r == self@.prompt.len() + self@.cursor,
    {
        self.prompt.len() + self.position
    }

    /// Feeds one key to the buffer in Normal mode.  Returns whether the whole
    /// screen must be redrawn, and the completed line if Enter submitted one.
    pub fn get(&mut self, key: Key) -> (r: (bool, Option<String>))
        requires
            old(self)@.wf(),
        ensures
            final(self)@ == buffer_step(old(self)@, key).state,
            r.0 == buffer_step(old(self)@, key).redraw,
            line_view(r.1) == buffer_step(old(self)@, key).line,
            final(self)@.wf(),
    {
        match key {
            Key::Character(c) => {
                if c == KEY_ENTER {
                    if self.input.len() == 0 {
                        proof {
                            assert(self@.input =~= Seq::<char>::empty());
                            assert(buffer_step(self@, key).state == self@);
                        }
                        (false, None)
                    } else {
                        let line = string_of_chars(&self.input);
                        self.input.clear();
                        self.position = 0;
                        (false, Some(line))
                    }
                } else if c == KEY_BACKSPACE_DEL || c == KEY_BACKSPACE_BS {
                    if self.position > 0 {
                        self.position = self.position - 1;
                        self.input.remove(self.position);
                    }
                    (false, None)
                } else if c == KEY_CTRL_A {
                    self.position = 0;
                    (true, None)
                } else if c == KEY_CTRL_E {
                    self.position = self.input.len();
                    (true, None)
                } else if c == KEY_CTRL_U {
                    let rest = self.input.split_off(self.position);
                    self.input = rest;
                    self.position = 0;
                    (true, None)
                } else {
                    self.input.push(c);
                    let n = self.input.len();
                    self.position = self.position + 1;
                    (false, None)
                }
            },
            Key::Delete => {
                if self.position < self.input.len() {
                    self.input.remove(self.position);
                }
                (false, None)
            },
            Key::Left => {
                if self.position > 0 {
                    self.position = self.position - 1;
                }
                (false, None)
            },
            Key::Right => {
                if self.position < self.input.len() {
                    self.position = self.position + 1;
                }
                (false, None)
            },
            Key::Resize => (false, None),
            Key::Unknown => (false, None),
        }
    }
}

} // verus!
