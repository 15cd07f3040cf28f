//! Key events, as the engine understands them.
//!
//! The host polls its terminal and maps whatever it reads onto [`Key`] before
//! handing it to the engine; the engine never sees the terminal's own event
//! type.

use vstd::prelude::*;

verus! {

/// One key event.  Control keys arrive as their control characters inside
/// [`Key::Character`], exactly as a raw terminal delivers them.
#[derive(Clone, Copy, Debug)]
pub enum Key {
    /// A character key, control characters included.
    Character(char),
    /// Forward delete.
    Delete,
    /// Left arrow.
    Left,
    /// Right arrow.
    Right,
    /// The terminal was resized.
    Resize,
    /// A key the host could not map.
    Unknown,
}

/// The characters of the debug token that catch-key mode appends for a key.
pub open spec fn spec_key_token(k: Key) -> Seq<char> {
    match k {
        Key::Character(c) => seq![
            'C', 'h', 'a', 'r', 'a', 'c', 't', 'e', 'r', '(', '\'', c, '\'', ')',
        ],
        Key::Delete => seq!['K', 'e', 'y', 'D', 'C'],
        Key::Left => seq!['K', 'e', 'y', 'L', 'e', 'f', 't'],
        Key::Right => seq!['K', 'e', 'y', 'R', 'i', 'g', 'h', 't'],
        Key::Resize => seq!['K', 'e', 'y', 'R', 'e', 's', 'i', 'z', 'e'],
        Key::Unknown => seq!['K', 'e', 'y', 'U', 'n', 'k', 'n', 'o', 'w', 'n'],
    }
}

/// The human-readable token catch-key mode echoes for a key.
pub fn key_token(k: Key) -> (r: Vec<char>)
    ensures
        r@ == spec_key_token(k),
{
    let mut r: Vec<char> = Vec::new();
    match k {
        Key::Character(c) => {
            r.push('C');
            r.push('h');
            r.push('a');
            r.push('r');
            r.push('a');
            r.push('c');
            r.push('t');
            r.push('e');
            r.push('r');
            r.push('(');
            r.push('\'');
            r.push(c);
            r.push('\'');
            r.push(')');
            assert(r@ =~= spec_key_token(k));
        },
        Key::Delete => {
            r.push('K');
            r.push('e');
            r.push('y');
            r.push('D');
            r.push('C');
            assert(r@ =~= spec_key_token(k));
        },
        Key::Left => {
            r.push('K');
            r.push('e');
            r.push('y');
            r.push('L');
            r.push('e');
            r.push('f');
            r.push('t');
            assert(r@ =~= spec_key_token(k));
        },
        Key::Right => {
            r.push('K');
            r.push('e');
            r.push('y');
            r.push('R');
            r.push('i');
            r.push('g');
            r.push('h');
            r.push('t');
            assert(r@ =~= spec_key_token(k));
        },
        Key::Resize => {
            r.push('K');
            r.push('e');
            r.push('y');
            r.push('R');
            r.push('e');
            r.push('s');
            r.push('i');
            r.push('z');
            r.push('e');
            assert(r@ =~= spec_key_token(k));
        },
        Key::Unknown => {
            r.push('K');
            r.push('e');
            r.push('y');
            r.push('U');
            r.push('n');
            r.push('k');
            r.push('n');
            r.push('o');
            r.push('w');
            r.push('n');
            assert(r@ =~= spec_key_token(k));
        },
    }
    r
}

} // verus!
