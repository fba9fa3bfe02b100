//! The plain-text preview of a fetched page: its first lines, joined by
//! single spaces and cut to a fixed number of characters.
//!
//! Everything here is stated over sequences of `char`, so a cut never falls
//! inside a character.

use vstd::prelude::*;
use vstd::std_specs::iter::IteratorSpec;

verus! {

/// How many leading lines of a body go into its preview.
pub const SNIPPET_LINES: usize = 5;

/// How many characters a preview holds at most.
pub const SNIPPET_CHARS: usize = 200;

/// Position of the first line feed in `s`; `s.len()` when it holds none.
pub open spec fn first_line_feed(s: Seq<char>) -> int
    decreases s.len(),
{
    if s.len() == 0 || s[0] == '\n' {
        0
    } else {
        1 + first_line_feed(s.drop_first())
    }
}

/// `line` without one carriage return at its end, if it ends in one.
pub open spec fn without_trailing_cr(line: Seq<char>) -> Seq<char> {
    if line.len() > 0 && line.last() == '\r' {
        line.drop_last()
    } else {
        line
    }
}

/// The lines of a text. A line ends at a line feed, or at a carriage return
/// directly followed by a line feed; the terminator is not part of the line.
/// A last line needs no terminator, and keeps a carriage return that no line
/// feed follows. The empty text has no lines.
pub open spec fn lines_of(s: Seq<char>) -> Seq<Seq<char>>
    decreases s.len(),
{
    if s.len() == 0 {
        Seq::empty()
    } else {
        let k = first_line_feed(s);
        if k < 0 || k >= s.len() {
            seq![s]
        } else {
            seq![without_trailing_cr(s.take(k))] + lines_of(s.skip(k + 1))
        }
    }
}

/// The lines in order, with one space between each two neighbours.
pub open spec fn join_with_space(lines: Seq<Seq<char>>) -> Seq<char>
    decreases lines.len(),
{
    if lines.len() == 0 {
        Seq::empty()
    } else if lines.len() == 1 {
        lines[0]
    } else {
        join_with_space(lines.drop_last()) + seq![' '] + lines.last()
    }
}

/// The first `n` items of `s`, or all of `s` when it holds no more than `n`.
pub open spec fn leading<A>(s: Seq<A>, n: nat) -> Seq<A> {
    if s.len() <= n {
        s
    } else {
        s.take(n as int)
    }
}

/// The preview of a body: its first five lines joined by single spaces, cut
/// to the first two hundred characters.
pub open spec fn snippet_of(body: Seq<char>) -> Seq<char> {
    leading(
        join_with_space(leading(lines_of(body), SNIPPET_LINES as nat)),
        SNIPPET_CHARS as nat,
    )
}

/// True when no item of `s` is a line feed.
pub open spec fn has_no_line_feed(s: Seq<char>) -> bool {
    forall|i: int| 0 <= i < s.len() ==> s[i] != '\n'
}

/// The first line feed of a text that starts with `head`, free of line
/// feeds, and goes on with `tail`, lies where `tail` has its first.
pub proof fn lemma_first_line_feed_after(head: Seq<char>, tail: Seq<char>)
    requires
        has_no_line_feed(head),
    ensures
        first_line_feed(head + tail) == head.len() + first_line_feed(tail),
    decreases head.len(),
{
    if head.len() == 0 {
        assert(head + tail =~= tail);
    } else {
        let rest = head.drop_first();
        assert((head + tail)[0] == head[0]);
        assert((head + tail).drop_first() =~= rest + tail);
        assert forall|i: int| 0 <= i < rest.len() implies rest[i] != '\n' by {
            assert(rest[i] == head[i + 1]);
        }
        lemma_first_line_feed_after(rest, tail);
    }
}

/// A text that is one unfinished line: it has no lines when empty, and
/// otherwise is its own single line.
pub proof fn lemma_lines_of_open_line(line: Seq<char>)
    requires
        has_no_line_feed(line),
    ensures
        lines_of(line) == if line.len() == 0 {
            Seq::<Seq<char>>::empty()
        } else {
            seq![line]
        },
{
    if line.len() > 0 {
        lemma_first_line_feed_after(line, Seq::empty());
        assert(line + Seq::<char>::empty() =~= line);
    }
}

/// A text that starts with a line free of line feeds, then a line feed, then
/// `rest`, has that line (less a closing carriage return) as its first line
/// and the lines of `rest` after it.
pub proof fn lemma_lines_of_closed_line(line: Seq<char>, rest: Seq<char>)
    requires
        has_no_line_feed(line),
    ensures
        lines_of(line + seq!['\n'] + rest) == seq![without_trailing_cr(line)] + lines_of(rest),
{
    let tail = seq!['\n'] + rest;
    let s = line + seq!['\n'] + rest;
    assert(s =~= line + tail);
    lemma_first_line_feed_after(line, tail);
    assert(first_line_feed(tail) == 0);
    assert(s.take(line.len() as int) =~= line);
    assert(s.skip(line.len() as int + 1) =~= rest);
}

/// A preview holds the joined lines whole where they have no more than two
/// hundred characters, and else exactly their first two hundred. It is made
/// of no more than five lines.
pub proof fn law_snippet_is_cut(body: Seq<char>)
    ensures
        leading(lines_of(body), SNIPPET_LINES as nat).len() <= SNIPPET_LINES,
        snippet_of(body).len() <= SNIPPET_CHARS,
        ({
            let joined = join_with_space(leading(lines_of(body), SNIPPET_LINES as nat));
            &&& joined.len() <= SNIPPET_CHARS ==> snippet_of(body) == joined
            &&& joined.len() > SNIPPET_CHARS ==> snippet_of(body) == joined.subrange(
                0,
                SNIPPET_CHARS as int,
            )
        }),
{
}

/// The joined text of what has been read of a body: the lines that are
/// finished and, where one has begun, the line being read, less a carriage
/// return at its end, which a line feed may yet follow.
pub open spec fn joined_so_far(finished: Seq<Seq<char>>, current: Seq<char>) -> Seq<char> {
    if current.len() == 0 {
        join_with_space(finished)
    } else {
        join_with_space(finished.push(without_trailing_cr(current)))
    }
}

/// Joining one line more adds a space, unless it is the first, and the line.
pub proof fn lemma_join_one_more(lines: Seq<Seq<char>>, line: Seq<char>)
    ensures
        join_with_space(lines.push(line)) == if lines.len() == 0 {
            line
        } else {
            join_with_space(lines) + seq![' '] + line
        },
{
    assert(lines.push(line).drop_last() =~= lines);
}

/// Cutting after adding one item is adding it to the cut text where that has
/// room, and else the cut text.
pub proof fn lemma_leading_one_more<A>(s: Seq<A>, item: A, n: nat)
    ensures
        leading(s.push(item), n) == if leading(s, n).len() < n {
            leading(s, n).push(item)
        } else {
            leading(s, n)
        },
{
    if s.len() >= n {
        assert(s.push(item).take(n as int) =~= s.take(n as int));
    }
}

/// Adds `ch` to `text` where `text` has fewer characters than a preview
/// holds, and keeps count of them.
fn push_within(text: &mut String, count: &mut usize, ch: char)
    requires
        *old(count) == old(text)@.len(),
        *old(count) <= SNIPPET_CHARS,
    ensures
        *final(count) == final(text)@.len(),
        *final(count) <= SNIPPET_CHARS,
        final(text)@ == if old(text)@.len() < SNIPPET_CHARS {
            old(text)@.push(ch)
        } else {
            old(text)@
        },
{
    if *count < SNIPPET_CHARS {
        text.push(ch);
        *count = *count + 1;
    }
}

/// Computes the preview of a body. It reads the body once, up to the end of
/// its fifth line, and keeps no more of it than the preview.
pub fn snippet(body: &str) -> (text: String)
    ensures
        text@ == snippet_of(body@),
{
    broadcast use vstd::string::group_string_axioms;

    let mut it = body.chars();
    let mut text = String::new();
    let mut count: usize = 0;
    let mut lines_done: usize = 0;
    let mut line_open = false;
    let mut held_cr = false;
    let mut more = true;
    let ghost mut finished: Seq<Seq<char>> = Seq::empty();
    let ghost mut current: Seq<char> = Seq::empty();
    proof {
        assert(current + it.remaining() =~= body@);
        assert(finished + lines_of(body@) =~= lines_of(body@));
    }
    while more && lines_done < SNIPPET_LINES
        invariant
            it.decrease() is Some,
            lines_done == finished.len(),
            lines_done <= SNIPPET_LINES,
            count == text@.len(),
            count <= SNIPPET_CHARS,
            has_no_line_feed(current),
            line_open == (current.len() > 0),
            held_cr == (current.len() > 0 && current.last() == '\r'),
            lines_done == SNIPPET_LINES ==> current.len() == 0,
            more ==> lines_of(body@) == finished + lines_of(current + it.remaining()),
            !more ==> lines_of(body@) == finished && current.len() == 0,
            text@ == leading(joined_so_far(finished, current), SNIPPET_CHARS as nat),
        decreases (if more { 1nat } else { 0nat }), it.decrease()->0,
    {
        let ghost before = it.remaining();
        let ghost shown = joined_so_far(finished, current);
        match it.next() {
            None => {
                proof {
                    assert(current + before =~= current);
                    lemma_lines_of_open_line(current);
                }
                if held_cr {
                    push_within(&mut text, &mut count, '\r');
                    proof {
                        lemma_leading_one_more(shown, '\r', SNIPPET_CHARS as nat);
                        lemma_join_one_more(finished, without_trailing_cr(current));
                        lemma_join_one_more(finished, current);
                        assert(without_trailing_cr(current).push('\r') =~= current);
                        assert(join_with_space(finished.push(current)) =~= shown.push('\r'));
                    }
                }
                if line_open {
                    lines_done = lines_done + 1;
                    proof {
                        assert(finished + seq![current] =~= finished.push(current));
                        finished = finished.push(current);
                        current = Seq::empty();
                    }
                } else {
                    proof {
                        assert(finished + Seq::<Seq<char>>::empty() =~= finished);
                    }
                }
                more = false;
                line_open = false;
                held_cr = false;
            },
            Some(c) => {
                let ghost rest = before.drop_first();
                if !line_open && lines_done > 0 {
                    push_within(&mut text, &mut count, ' ');
                    proof {
                        lemma_leading_one_more(shown, ' ', SNIPPET_CHARS as nat);
                    }
                }
                if c == '\n' {
                    proof {
                        assert(current + before =~= current + seq!['\n'] + rest);
                        lemma_lines_of_closed_line(current, rest);
                        let line = without_trailing_cr(current);
                        lemma_join_one_more(finished, line);
                        if current.len() == 0 {
                            assert(join_with_space(finished) + seq![' '] + line
                                =~= join_with_space(finished).push(' '));
                            assert(finished.len() == 0 ==> join_with_space(finished) =~= line);
                        }
                        assert(finished + (seq![line] + lines_of(rest)) =~= finished.push(line)
                            + lines_of(rest));
                        finished = finished.push(line);
                        current = Seq::empty();
                        assert(current + rest =~= rest);
                    }
                    lines_done = lines_done + 1;
                    line_open = false;
                    held_cr = false;
                } else {
                    if held_cr {
                        push_within(&mut text, &mut count, '\r');
                    }
                    if c != '\r' {
                        push_within(&mut text, &mut count, c);
                    }
                    proof {
                        let line = without_trailing_cr(current);
                        let longer = current.push(c);
                        let next_line = without_trailing_cr(longer);
                        lemma_join_one_more(finished, line);
                        lemma_join_one_more(finished, next_line);
                        let base = if current.len() == 0 {
                            if finished.len() == 0 {
                                shown
                            } else {
                                shown.push(' ')
                            }
                        } else {
                            shown
                        };
                        let with_cr = if held_cr {
                            base.push('\r')
                        } else {
                            base
                        };
                        let with_c = if c != '\r' {
                            with_cr.push(c)
                        } else {
                            with_cr
                        };
                        lemma_leading_one_more(base, '\r', SNIPPET_CHARS as nat);
                        lemma_leading_one_more(with_cr, c, SNIPPET_CHARS as nat);
                        assert(next_line =~= if c != '\r' {
                            current.push(c)
                        } else {
                            current
                        });
                        assert(current =~= if held_cr {
                            line.push('\r')
                        } else {
                            line
                        });
                        assert(join_with_space(finished.push(next_line)) =~= with_c);
                        assert(longer + rest =~= current + before);
                        current = longer;
                    }
                    line_open = true;
                    held_cr = c == '\r';
                }
            },
        }
    }
    proof {
        if more {
            assert((finished + lines_of(current + it.remaining())).take(SNIPPET_LINES as int)
                =~= finished);
        }
    }
    text
}

} // verus!
