//! The engine's laws: what whole key sequences do, proved once and for all
//! over the step functions that [`crate::window::Window::get`] implements
//! exactly.

use vstd::prelude::*;
use crate::buffer::{
    buffer_step, BufferModel, KEY_BACKSPACE_BS, KEY_BACKSPACE_DEL, KEY_CTRL_A, KEY_CTRL_E,
    KEY_CTRL_U, KEY_ENTER,
};
use crate::keys::Key;
use crate::window::{window_step, ModeModel, WindowModel, KEY_CTRL_K, KEY_CTRL_L, KEY_ESCAPE};

verus! {

/// A character that Normal mode inserts into the input line: anything that is
/// not one of the editing or mode control keys.
pub open spec fn is_insert_char(c: char) -> bool {
    &&& c != KEY_ENTER
    &&& c != KEY_BACKSPACE_DEL
    &&& c != KEY_BACKSPACE_BS
    &&& c != KEY_CTRL_A
    &&& c != KEY_CTRL_E
    &&& c != KEY_CTRL_U
    &&& c != KEY_CTRL_K
    &&& c != KEY_CTRL_L
    &&& c != KEY_ESCAPE
}

/// The engine after typing the given characters, one key step each.
pub open spec fn apply_inserts(w: WindowModel, cs: Seq<char>) -> WindowModel
    decreases cs.len(),
{
    if cs.len() == 0 {
        w
    } else {
        apply_inserts(window_step(w, Some(Key::Character(cs.first()))).state, cs.drop_first())
    }
}

/// The engine after an arbitrary sequence of key events.
pub open spec fn apply_keys(w: WindowModel, keys: Seq<Key>) -> WindowModel
    decreases keys.len(),
{
    if keys.len() == 0 {
        w
    } else {
        apply_keys(window_step(w, Some(keys.first())).state, keys.drop_first())
    }
}

/// One buffer editing step keeps the buffer well formed: the cursor never
/// leaves `[0, input.len()]`.
pub proof fn lemma_buffer_step_wf(b: BufferModel, k: Key)
    requires
        b.wf(),
    ensures
        buffer_step(b, k).state.wf(),
{
}

/// One poll-cycle step keeps the engine well formed: the buffer set and the
/// active index stay valid, and no cursor leaves its input line.
pub proof fn lemma_window_step_wf(w: WindowModel, key: Option<Key>)
    requires
        w.wf(),
    ensures
        window_step(w, key).state.wf(),
        window_step(w, key).state.buffers.len() == w.buffers.len(),
{
    let st = window_step(w, key);
    if key is Some {
        let k = key->0;
        match w.mode {
            ModeModel::Normal => {
                lemma_buffer_step_wf(w.active(), k);
            },
            _ => {},
        }
    }
}

/// Under any sequence of key events the engine stays well formed; in
/// particular, the cursor never leaves `[0, input.len()]`.
pub proof fn lemma_trace_wf(w: WindowModel, keys: Seq<Key>)
    requires
        w.wf(),
    ensures
        apply_keys(w, keys).wf(),
    decreases keys.len(),
{
    if keys.len() > 0 {
        lemma_window_step_wf(w, Some(keys.first()));
        lemma_trace_wf(window_step(w, Some(keys.first())).state, keys.drop_first());
    }
}

/// Typing insertable characters in Normal mode appends them, in order, to the
/// active input line; the mode, the backlog, the buffer set and the viewport
/// stay as they were.
pub proof fn lemma_inserts_append(w: WindowModel, cs: Seq<char>)
    requires
        w.wf(),
        w.mode == ModeModel::Normal,
        forall|i: int| 0 <= i < cs.len() ==> is_insert_char(#[trigger] cs[i]),
    ensures
        apply_inserts(w, cs).wf(),
        apply_inserts(w, cs).mode == ModeModel::Normal,
        apply_inserts(w, cs).cur_buf == w.cur_buf,
        apply_inserts(w, cs).buffers.len() == w.buffers.len(),
        apply_inserts(w, cs).max_y == w.max_y,
        apply_inserts(w, cs).max_x == w.max_x,
        apply_inserts(w, cs).active().input == w.active().input + cs,
        apply_inserts(w, cs).active().cursor == w.active().cursor + cs.len(),
        apply_inserts(w, cs).active().backlog == w.active().backlog,
        apply_inserts(w, cs).active().prompt == w.active().prompt,
        apply_inserts(w, cs).active().topic == w.active().topic,
    decreases cs.len(),
{
    if cs.len() == 0 {
        assert(w.active().input + cs =~= w.active().input);
    } else {
        let c = cs.first();
        let st = window_step(w, Some(Key::Character(c)));
        let b = w.active();
        assert(buffer_step(b, Key::Character(c)).state == (BufferModel {
            input: b.input.push(c),
            cursor: b.cursor + 1,
            ..b
        }));
        lemma_window_step_wf(w, Some(Key::Character(c)));
        assert(st.state.active() == buffer_step(b, Key::Character(c)).state);
        lemma_inserts_append(st.state, cs.drop_first());
        assert(apply_inserts(st.state, cs.drop_first()).active().input == b.input.push(c)
            + cs.drop_first());
        assert(b.input.push(c) + cs.drop_first() =~= b.input + cs);
    }
}

/// Typing any characters in Normal mode and then Enter on the resulting
/// non-empty input submits exactly the prior input followed by the typed
/// characters, in order, and leaves the input empty with the cursor at zero.
/// Started from an empty input, what comes back is exactly what was typed.
pub proof fn lemma_type_then_enter(w: WindowModel, cs: Seq<char>)
    requires
        w.wf(),
        w.mode == ModeModel::Normal,
        forall|i: int| 0 <= i < cs.len() ==> is_insert_char(#[trigger] cs[i]),
        w.active().input.len() + cs.len() > 0,
    ensures
        ({
            let typed = apply_inserts(w, cs);
            let st = window_step(typed, Some(Key::Character(KEY_ENTER)));
            &&& st.line == Some(w.active().input + cs)
            &&& st.state.active().input.len() == 0
            &&& st.state.active().cursor == 0
            &&& st.state.wf()
        }),
{
    lemma_inserts_append(w, cs);
    let typed = apply_inserts(w, cs);
    lemma_window_step_wf(typed, Some(Key::Character(KEY_ENTER)));
    let st = window_step(typed, Some(Key::Character(KEY_ENTER)));
    assert(typed.active().input.len() > 0);
    assert(st.state.active() == buffer_step(typed.active(), Key::Character(KEY_ENTER)).state);
}

/// Enter on an empty input returns no completed line and changes nothing: no
/// buffer, no mode, no viewport.
pub proof fn lemma_enter_on_empty(w: WindowModel)
    requires
        w.wf(),
        w.mode == ModeModel::Normal,
        w.active().input.len() == 0,
    ensures
        window_step(w, Some(Key::Character(KEY_ENTER))).state == w,
        window_step(w, Some(Key::Character(KEY_ENTER))).line is None,
        !window_step(w, Some(Key::Character(KEY_ENTER))).redraw,
{
    assert(w.buffers.update(w.cur_buf as int, w.active()) =~= w.buffers);
}

/// Backspace with the cursor at the start of the line changes nothing.
pub proof fn lemma_backspace_at_start(w: WindowModel)
    requires
        w.wf(),
        w.mode == ModeModel::Normal,
        w.active().cursor == 0,
    ensures
        window_step(w, Some(Key::Character(KEY_BACKSPACE_DEL))).state == w,
        window_step(w, Some(Key::Character(KEY_BACKSPACE_BS))).state == w,
{
    assert(w.buffers.update(w.cur_buf as int, w.active()) =~= w.buffers);
}

/// Right-arrow with the cursor at the end of the line changes nothing.
pub proof fn lemma_right_at_end(w: WindowModel)
    requires
        w.wf(),
        w.mode == ModeModel::Normal,
        w.active().cursor == w.active().input.len(),
    ensures
        window_step(w, Some(Key::Right)).state == w,
{
    assert(w.buffers.update(w.cur_buf as int, w.active()) =~= w.buffers);
}

/// Ctrl+U removes exactly the input before the cursor: what remains is the
/// prior input from the cursor to the end, the cursor lands on zero, and a
/// full redraw is requested.
pub proof fn lemma_ctrl_u(w: WindowModel)
    requires
        w.wf(),
        w.mode == ModeModel::Normal,
    ensures
        ({
            let st = window_step(w, Some(Key::Character(KEY_CTRL_U)));
            &&& st.state.active().input == w.active().input.skip(w.active().cursor as int)
            &&& st.state.active().cursor == 0
            &&& st.state.active().backlog == w.active().backlog
            &&& st.redraw
            &&& st.line is None
            &&& st.state.wf()
        }),
{
    lemma_window_step_wf(w, Some(Key::Character(KEY_CTRL_U)));
}

} // verus!
