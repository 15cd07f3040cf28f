//! Pure rendering: word-wrapping the backlog and filling the visible region
//! bottom-up.
//!
//! The screen has a fixed chrome of three rows (topic, separator, input); the
//! rows between them show the backlog, newest message anchored at the bottom.
//! Messages are word-wrapped to the wrap width; every wrapped line after a
//! message's first is prefixed with `"| "`.  Walking the backlog newest to
//! oldest, each message contributes all of its wrapped lines or none, except
//! that the oldest visible message may be cut at the top of the region.

use vstd::prelude::*;
use crate::text::{lines_view, msgs_view, wrapped_view};

verus! {

/// How many rows the fixed chrome (topic, separator, input) takes.
pub const CHROME_HEIGHT: usize = 3;

/// The width messages are wrapped to on a screen of `cols` columns: three
/// columns are held back for edge cases, and the width never drops below one.
pub open spec fn spec_wrap_width(cols: usize) -> usize {
    if cols >= 4 {
        (cols - 3) as usize
    } else {
        1 as usize
    }
}

/// How many rows of a screen of `rows` rows show the backlog.
pub open spec fn spec_region_height(rows: usize) -> usize {
    if rows >= 3 {
        (rows - 3) as usize
    } else {
        0 as usize
    }
}

/// What `textwrap::wrap` returns: the message word-wrapped to `width` columns.
pub uninterp spec fn wrap_of(s: Seq<char>, width: usize) -> Seq<Seq<char>>;

/// Relies on `textwrap::wrap`: it word-wraps one message to lines of at most
/// `width` display columns, breaking words longer than the width.  The result
/// depends on the message and the width alone.
#[verifier::external_body]
pub(crate) fn wrap_message(s: &String, width: usize) -> (r: Vec<Vec<char>>)
    ensures
        lines_view(r@) == wrap_of(s@, width),
{
    textwrap::wrap(s.as_str(), width).iter().map(|l| l.chars().collect()).collect()
}

/// A message's wrapped lines as shown: the first as wrapped, every later one
/// prefixed with `"| "`.
pub open spec fn prefixed(ls: Seq<Seq<char>>) -> Seq<Seq<char>> {
    ls.map(|i: int, l: Seq<char>| if i == 0 { l } else { seq!['|', ' '] + l })
}

/// The staging list: all shown lines of all messages, bottom-up.  The newest
/// message's last line comes first; within one message the lines are
/// reversed; older messages follow.
pub open spec fn staged_lines(wrapped: Seq<Seq<Seq<char>>>) -> Seq<Seq<char>>
    decreases wrapped.len(),
{
    if wrapped.len() == 0 {
        Seq::empty()
    } else {
        prefixed(wrapped.last()).reverse() + staged_lines(wrapped.drop_last())
    }
}

/// The rows of the backlog region, top to bottom: the newest `height` staged
/// lines (or all of them, if fewer), written back in top-down order.
pub open spec fn visible_rows(wrapped: Seq<Seq<Seq<char>>>, height: nat) -> Seq<Seq<char>> {
    let st = staged_lines(wrapped);
    let shown = if height <= st.len() {
        height as int
    } else {
        st.len() as int
    };
    st.take(shown).reverse()
}

/// The rows of the backlog region for a backlog of messages wrapped to
/// `width` columns, on a region `height` rows tall.
pub open spec fn spec_backlog_rows(
    backlog: Seq<Seq<char>>,
    width: usize,
    height: usize,
) -> Seq<Seq<char>> {
    visible_rows(backlog.map_values(|m: Seq<char>| wrap_of(m, width)), height as nat)
}

/// Prepending a message to the backlog appends its lines to the staging list.
proof fn lemma_staged_lines_cons(x: Seq<Seq<char>>, t: Seq<Seq<Seq<char>>>)
    ensures
        staged_lines(seq![x] + t) == staged_lines(t) + prefixed(x).reverse(),
    decreases t.len(),
{
    let s = seq![x] + t;
    if t.len() == 0 {
        assert(s.len() == 1);
        assert(s.last() == x);
        assert(s.drop_last() =~= Seq::<Seq<Seq<char>>>::empty());
        assert(staged_lines(s.drop_last()) =~~= Seq::<Seq<char>>::empty());
        assert(staged_lines(t) =~~= Seq::<Seq<char>>::empty());
        assert(staged_lines(s) =~~= staged_lines(t) + prefixed(x).reverse());
    } else {
        assert(s.last() == t.last());
        assert(s.drop_last() =~= seq![x] + t.drop_last());
        lemma_staged_lines_cons(x, t.drop_last());
        assert(staged_lines(s) =~~= staged_lines(t) + prefixed(x).reverse());
    }
}

/// The staging list of a concatenation: the newer part's lines first.
proof fn lemma_staged_lines_concat(s: Seq<Seq<Seq<char>>>, t: Seq<Seq<Seq<char>>>)
    ensures
        staged_lines(s + t) == staged_lines(t) + staged_lines(s),
    decreases s.len(),
{
    if s.len() == 0 {
        assert(s + t =~= t);
        assert(staged_lines(s) =~~= Seq::<Seq<char>>::empty());
        assert(staged_lines(s + t) =~~= staged_lines(t) + staged_lines(s));
    } else {
        assert(s + t =~= seq![s.first()] + (s.drop_first() + t));
        lemma_staged_lines_cons(s.first(), s.drop_first() + t);
        lemma_staged_lines_concat(s.drop_first(), t);
        assert(s =~= seq![s.first()] + s.drop_first());
        lemma_staged_lines_cons(s.first(), s.drop_first());
        assert(staged_lines(s + t) =~~= staged_lines(t) + staged_lines(s));
    }
}

/// Pushes one wrapped message onto the staging list: its lines in reverse
/// order, each line after the message's first prefixed with `"| "`.
fn stage_message(staging: &mut Vec<Vec<char>>, lines: Vec<Vec<char>>)
    ensures
        lines_view(final(staging)@) == lines_view(old(staging)@) + prefixed(
            lines_view(lines@),
        ).reverse(),
{
    let ghost full = lines_view(lines@);
    let ghost base = lines_view(staging@);
    let mut lines = lines;
    while lines.len() > 0
        invariant
            lines_view(lines@) == full.take(lines@.len() as int),
            lines@.len() <= full.len(),
            lines_view(staging@) == base + prefixed(full).reverse().take(
                full.len() - lines@.len(),
            ),
        decreases lines@.len(),
    {
        let ghost n = lines@.len() as int;
        let ghost prev = lines@;
        let l = lines.pop().unwrap();
        proof {
            assert(l == prev[n - 1]);
            assert(l@ == lines_view(prev)[n - 1]);
            assert(full.take(n)[n - 1] == full[n - 1]);
            assert(l@ == full[n - 1]);
            assert(lines_view(lines@) =~= full.take(n - 1));
        }
        let ghost before = staging@;
        if lines.len() == 0 {
            // The message's first line is shown as wrapped.
            staging.push(l);
            proof {
                assert(prefixed(full)[n - 1] == full[n - 1]);
            }
        } else {
            let mut row: Vec<char> = Vec::new();
            row.push('|');
            row.push(' ');
            let mut l = l;
            row.append(&mut l);
            proof {
                assert(row@ =~= seq!['|', ' '] + full[n - 1]);
                assert(prefixed(full)[n - 1] == seq!['|', ' '] + full[n - 1]);
            }
            staging.push(row);
        }
        proof {
            let rev = prefixed(full).reverse();
            assert(rev[full.len() - n] == prefixed(full)[n - 1]);
            assert(lines_view(staging@) =~= lines_view(before).push(prefixed(full)[n - 1]));
            assert(lines_view(staging@) =~= base + rev.take(full.len() - (n - 1)));
        }
    }
    proof {
        assert(prefixed(full).reverse().take(full.len() as int) =~= prefixed(full).reverse());
    }
}

/// The visible rows of the backlog region, computed from already-wrapped
/// messages, oldest first.  Exactly [`visible_rows`] of the given lines.
pub fn visible_from_wrapped(wrapped: Vec<Vec<Vec<char>>>, height: usize) -> (r: Vec<Vec<char>>)
    ensures
        lines_view(r@) == visible_rows(wrapped_view(wrapped@), height as nat),
{
    let ghost whole = wrapped_view(wrapped@);
    let mut wrapped = wrapped;
    let mut staging: Vec<Vec<char>> = Vec::new();
    proof {
        assert(whole.skip(whole.len() as int) =~= Seq::<Seq<Seq<char>>>::empty());
        assert(lines_view(staging@) =~= Seq::<Seq<char>>::empty());
    }
    while wrapped.len() > 0
        invariant
            wrapped_view(wrapped@) == whole.take(wrapped@.len() as int),
            wrapped@.len() <= whole.len(),
            lines_view(staging@) == staged_lines(whole.skip(wrapped@.len() as int)),
        decreases wrapped@.len(),
    {
        let ghost n = wrapped@.len() as int;
        let ghost prev = wrapped@;
        let lines = wrapped.pop().unwrap();
        proof {
            assert(lines == prev[n - 1]);
            assert(lines_view(lines@) == wrapped_view(prev)[n - 1]);
            assert(whole.take(n)[n - 1] == whole[n - 1]);
            assert(lines_view(lines@) == whole[n - 1]);
            assert(wrapped_view(wrapped@) =~= whole.take(n - 1));
        }
        stage_message(&mut staging, lines);
        proof {
            assert(whole.skip(n - 1) =~= seq![whole[n - 1]] + whole.skip(n));
            lemma_staged_lines_cons(whole[n - 1], whole.skip(n));
            assert(lines_view(staging@) =~~= staged_lines(whole.skip(n - 1)));
        }
    }
    proof {
        assert(whole.skip(0) =~= whole);
    }
    finish_rows(staging, height)
}

/// Truncates the staging list to the region height and writes it back in
/// top-down order.
fn finish_rows(staging: Vec<Vec<char>>, height: usize) -> (r: Vec<Vec<char>>)
    ensures
        lines_view(r@) == ({
            let st = lines_view(staging@);
            let shown = if height <= st.len() {
                height as int
            } else {
                st.len() as int
            };
            st.take(shown).reverse()
        }),
{
    let ghost st = lines_view(staging@);
    let mut staging = staging;
    staging.truncate(height);
    let ghost shown = if height <= st.len() {
        height as int
    } else {
        st.len() as int
    };
    proof {
        assert(lines_view(staging@) =~= st.take(shown));
    }
    let ghost kept = lines_view(staging@);
    let mut r: Vec<Vec<char>> = Vec::new();
    proof {
        assert(kept.skip(kept.len() as int) =~= Seq::<Seq<char>>::empty());
        assert(lines_view(r@) =~= Seq::<Seq<char>>::empty());
        assert(kept.skip(kept.len() as int).reverse() =~= Seq::<Seq<char>>::empty());
    }
    while staging.len() > 0
        invariant
            lines_view(staging@) == kept.take(staging@.len() as int),
            staging@.len() <= kept.len(),
            lines_view(r@) == kept.skip(staging@.len() as int).reverse(),
        decreases staging@.len(),
    {
        let ghost n = staging@.len() as int;
        let ghost prev = staging@;
        let ghost racc = r@;
        let l = staging.pop().unwrap();
        proof {
            assert(l == prev[n - 1]);
            assert(l@ == lines_view(prev)[n - 1]);
            assert(kept.take(n)[n - 1] == kept[n - 1]);
            assert(l@ == kept[n - 1]);
            assert(lines_view(staging@) =~= kept.take(n - 1));
        }
        r.push(l);
        proof {
            assert(lines_view(r@) =~= lines_view(racc).push(kept[n - 1]));
            assert(lines_view(r@) =~= kept.skip(n - 1).reverse());
        }
    }
    proof {
        assert(kept.skip(0) =~= kept);
        assert(lines_view(r@) =~= st.take(shown).reverse());
    }
    r
}

/// The rows of the backlog region for a backlog of messages, top to bottom.
///
/// Walks the backlog newest to oldest, wrapping each message to `width`
/// columns and staging its lines bottom-up; stops once `height` lines are
/// staged, drops any excess from the oldest message taken, and returns the
/// rows in top-down order.
pub fn backlog_rows(backlog: &Vec<String>, width: usize, height: usize) -> (r: Vec<Vec<char>>)
    ensures
        lines_view(r@) == spec_backlog_rows(msgs_view(backlog@), width, height),
{
    let ghost whole = msgs_view(backlog@).map_values(|m: Seq<char>| wrap_of(m, width));
    let mut staging: Vec<Vec<char>> = Vec::new();
    let mut i: usize = backlog.len();
    proof {
        assert(whole.len() == backlog@.len());
        assert(whole.skip(i as int) =~= Seq::<Seq<Seq<char>>>::empty());
        assert(lines_view(staging@) =~= Seq::<Seq<char>>::empty());
    }
    while i > 0 && staging.len() < height
        invariant
            i <= backlog@.len(),
            whole.len() == backlog@.len(),
            whole == msgs_view(backlog@).map_values(|m: Seq<char>| wrap_of(m, width)),
            lines_view(staging@) == staged_lines(whole.skip(i as int)),
            staging@.len() == lines_view(staging@).len(),
        decreases i,
    {
        let lines = wrap_message(&backlog[i - 1], width);
        proof {
            assert(msgs_view(backlog@)[i - 1] == backlog@[i - 1]@);
            assert(lines_view(lines@) == whole[i - 1]);
        }
        stage_message(&mut staging, lines);
        proof {
            assert(whole.skip(i - 1) =~= seq![whole[i - 1]] + whole.skip(i as int));
            lemma_staged_lines_cons(whole[i - 1], whole.skip(i as int));
            assert(lines_view(staging@) =~~= staged_lines(whole.skip(i - 1)));
        }
        i = i - 1;
    }
    let ghost st = lines_view(staging@);
    let ghost full = staged_lines(whole);
    proof {
        if i == 0 {
            assert(whole.skip(0) =~= whole);
            assert(st == full);
        } else {
            // The staging list is already full: older messages would only add
            // lines past the region, which the truncation drops anyway.
            assert(st.len() >= height);
            lemma_staged_lines_concat(whole.take(i as int), whole.skip(i as int));
            assert(whole.take(i as int) + whole.skip(i as int) =~= whole);
            assert(full == st + staged_lines(whole.take(i as int)));
            assert(full.take(height as int) =~= st.take(height as int));
        }
    }
    let r = finish_rows(staging, height);
    proof {
        let shown_full = if height as nat <= full.len() {
            height as int
        } else {
            full.len() as int
        };
        let shown_st = if height <= st.len() {
            height as int
        } else {
            st.len() as int
        };
        assert(st.take(shown_st) == full.take(shown_full));
    }
    r
}

/// The topic row: the topic cut to at most `width` characters, padded with
/// blanks to exactly `width` columns.
pub open spec fn spec_topic_row(topic: Seq<char>, width: usize) -> Seq<char> {
    if topic.len() >= width {
        topic.take(width as int)
    } else {
        topic + Seq::new((width - topic.len()) as nat, |i: int| ' ')
    }
}

/// Builds the topic row for a screen of `width` columns.
pub fn topic_row(topic: &Vec<char>, width: usize) -> (r: Vec<char>)
    ensures
        r@ == spec_topic_row(topic@, width),
        r@.len() == width,
{
    let mut r: Vec<char> = Vec::new();
    let shown: usize = if topic.len() >= width {
        width
    } else {
        topic.len()
    };
    let mut i: usize = 0;
    while i < shown
        invariant
            i <= shown,
            shown <= topic@.len(),
            r@ == topic@.take(i as int),
        decreases shown - i,
    {
        r.push(topic[i]);
        i = i + 1;
        proof {
            assert(r@ =~= topic@.take(i as int));
        }
    }
    while r.len() < width
        invariant
            r@.len() <= width,
            shown <= r@.len(),
            r@.take(shown as int) == topic@.take(shown as int),
            forall|j: int| shown <= j < r@.len() ==> r@[j] == ' ',
        decreases width - r@.len(),
    {
        let ghost before = r@;
        r.push(' ');
        proof {
            assert(r@.take(shown as int) =~= before.take(shown as int));
        }
    }
    proof {
        assert(r@.len() == width);
        assert forall|j: int| 0 <= j < shown implies r@[j] == topic@[j] by {
            assert(r@.take(shown as int)[j] == topic@.take(shown as int)[j]);
        }
        assert(r@ =~= spec_topic_row(topic@, width));
    }
    r
}

/// The input row: the prompt followed by the raw input characters.
pub open spec fn spec_input_row(prompt: Seq<char>, input: Seq<char>) -> Seq<char> {
    prompt + input
}

/// Builds the input row from a prompt and the current input line.
pub fn input_row(prompt: &Vec<char>, input: &Vec<char>) -> (r: Vec<char>)
    ensures
        r@ == spec_input_row(prompt@, input@),
{
    let mut r: Vec<char> = Vec::new();
    let mut i: usize = 0;
    while i < prompt.len()
        invariant
            i <= prompt@.len(),
            r@ == prompt@.take(i as int),
        decreases prompt@.len() - i,
    {
        r.push(prompt[i]);
        i = i + 1;
        proof {
            assert(r@ =~= prompt@.take(i as int));
        }
    }
    proof {
        assert(r@ =~= prompt@.take(prompt@.len() as int));
        assert(prompt@.take(prompt@.len() as int) =~= prompt@);
    }
    let mut j: usize = 0;
    while j < input.len()
        invariant
            j <= input@.len(),
            r@ == prompt@ + input@.take(j as int),
        decreases input@.len() - j,
    {
        r.push(input[j]);
        j = j + 1;
        proof {
            assert(r@ =~= prompt@ + input@.take(j as int));
        }
    }
    proof {
        assert(input@.take(input@.len() as int) =~= input@);
    }
    r
}

/// The full screen content for one buffer under one viewport, ready for a
/// host to paint: no incremental diffing.
pub struct Screen {
    /// Row 0: the topic, cut and padded to the screen width, to be drawn
    /// highlighted.
    pub topic_row: Vec<char>,
    /// Rows 1 up to the separator: the visible backlog, top to bottom.
    pub backlog_rows: Vec<Vec<char>>,
    /// The last row: prompt and input line.  The separator row above it is a
    /// full-width highlighted blank.
    pub input_row: Vec<char>,
    /// The screen column the cursor sits in on the input row.
    pub cursor_col: usize,
}

/// A backlog of one message: its wrapped lines are all shown when they fit
/// the region, and otherwise exactly the `height` newest of them, anchored at
/// the bottom; the first line is unprefixed and every later one carries
/// `"| "`.
pub proof fn lemma_visible_single_message(ls: Seq<Seq<char>>, height: nat)
    ensures
        ls.len() <= height ==> visible_rows(seq![ls], height) == prefixed(ls),
        ls.len() > height ==> visible_rows(seq![ls], height) == prefixed(ls).skip(
            ls.len() - height,
        ),
        prefixed(ls).len() == ls.len(),
        forall|i: int| 0 < i < ls.len() ==> prefixed(ls)[i] == seq!['|', ' '] + ls[i],
        ls.len() > 0 ==> prefixed(ls)[0] == ls[0],
{
    let s = seq![ls];
    assert(s.drop_last() =~= Seq::<Seq<Seq<char>>>::empty());
    assert(staged_lines(s.drop_last()) =~~= Seq::<Seq<char>>::empty());
    assert(staged_lines(s) =~~= prefixed(ls).reverse());
    let pl = prefixed(ls);
    let n = pl.len() as int;
    if ls.len() <= height {
        assert(pl.reverse().take(n) =~= pl.reverse());
        assert(pl.reverse().reverse() =~= pl);
        assert(visible_rows(s, height) =~~= prefixed(ls));
    } else {
        assert(visible_rows(s, height) =~~= pl.skip(n - height));
    }
}

} // verus!
