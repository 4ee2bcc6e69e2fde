//! The client's console loop: each line typed becomes one outbound message,
//! until the quit sentinel or a dead network task ends the loop.
//!
//! ```text
//! ReadLine --the sentinel--> Exit
//!          --any other line--> Enqueue(trimmed line) --accepted--> ReadLine
//!                                                     --queue gone--> Exit
//! ```

use vstd::prelude::*;
use vstd::string::StrSliceExecFns;

verus! {

/// The characters with the Unicode property `White_Space`.
pub open spec fn is_white_space(c: char) -> bool {
    let u = c as u32;
    ||| 0x0009 <= u <= 0x000D
    ||| u == 0x0020
    ||| u == 0x0085
    ||| u == 0x00A0
    ||| u == 0x1680
    ||| 0x2000 <= u <= 0x200A
    ||| u == 0x2028
    ||| u == 0x2029
    ||| u == 0x202F
    ||| u == 0x205F
    ||| u == 0x3000
}

/// `text` without its leading white space.
pub open spec fn trim_start(text: Seq<char>) -> Seq<char>
    decreases text.len(),
{
    if text.len() > 0 && is_white_space(text.first()) {
        trim_start(text.drop_first())
    } else {
        text
    }
}

/// `text` without its trailing white space.
pub open spec fn trim_end(text: Seq<char>) -> Seq<char>
    decreases text.len(),
{
    if text.len() > 0 && is_white_space(text.last()) {
        trim_end(text.drop_last())
    } else {
        text
    }
}

/// `text` without leading and trailing white space.
pub open spec fn trimmed(text: Seq<char>) -> Seq<char> {
    trim_end(trim_start(text))
}

/// The quit sentinel: the five characters `:quit`, each letter in either case.
pub open spec fn is_quit(text: Seq<char>) -> bool {
    &&& text.len() == 5
    &&& text[0] == ':'
    &&& (text[1] == 'q' || text[1] == 'Q')
    &&& (text[2] == 'u' || text[2] == 'U')
    &&& (text[3] == 'i' || text[3] == 'I')
    &&& (text[4] == 't' || text[4] == 'T')
}

/// What the console loop reports after a step.
#[derive(Debug, PartialEq, Eq)]
pub enum ConsoleEvent {
    /// The line that was read, with or without its final newline.
    Line(String),
    /// The message was handed to the outbound queue; `accepted` is false
    /// where the queue has lost its receiver.
    Enqueued { accepted: bool },
}

/// What the console loop does next.
#[derive(Debug, PartialEq, Eq)]
pub enum ConsoleStep {
    /// Read one line from standard input.
    ReadLine,
    /// Put this message on the outbound queue.
    Enqueue(String),
    /// Leave the loop; the process ends.
    Exit,
}

/// A `ConsoleStep` with its message as a sequence of characters.
pub enum ConsoleStepView {
    ReadLine,
    Enqueue(Seq<char>),
    Exit,
}

impl View for ConsoleStep {
    type V = ConsoleStepView;

    open spec fn view(&self) -> ConsoleStepView {
        match self {
            ConsoleStep::ReadLine => ConsoleStepView::ReadLine,
            ConsoleStep::Enqueue(message) => ConsoleStepView::Enqueue(message@),
            ConsoleStep::Exit => ConsoleStepView::Exit,
        }
    }
}

/// After a line was read: the quit sentinel ends the loop and sends nothing;
/// any other line is sent, trimmed.
pub open spec fn console_after_line(line: Seq<char>) -> ConsoleStepView {
    if is_quit(trimmed(line)) {
        ConsoleStepView::Exit
    } else {
        ConsoleStepView::Enqueue(trimmed(line))
    }
}

/// The console loop: a line is answered as `console_after_line` says, and
/// the loop goes on while the outbound queue still has its receiver.
pub open spec fn console_next(event: ConsoleEvent) -> ConsoleStepView {
    match event {
        ConsoleEvent::Line(line) => console_after_line(line@),
        ConsoleEvent::Enqueued { accepted } => if accepted {
            ConsoleStepView::ReadLine
        } else {
            ConsoleStepView::Exit
        },
    }
}

/// Dropping `from` leading white-space characters, where the next character
/// is none, is `trim_start`.
pub proof fn lemma_trim_start_is_skip(text: Seq<char>, from: int)
    requires
        0 <= from <= text.len(),
        forall|i: int| 0 <= i < from ==> is_white_space(text[i]),
        from < text.len() ==> !is_white_space(text[from]),
    ensures
        trim_start(text) == text.skip(from),
    decreases from,
{
    if from == 0 {
        assert(text.skip(0) =~= text);
    } else {
        let rest = text.drop_first();
        assert forall|i: int| 0 <= i < from - 1 implies is_white_space(rest[i]) by {
            assert(rest[i] == text[i + 1]);
        }
        lemma_trim_start_is_skip(rest, from - 1);
        assert(rest.skip(from - 1) =~= text.skip(from));
    }
}

/// Keeping the first `to` characters, where all later ones are white space
/// and the last one kept is not, is `trim_end`.
pub proof fn lemma_trim_end_is_take(text: Seq<char>, to: int)
    requires
        0 <= to <= text.len(),
        forall|i: int| to <= i < text.len() ==> is_white_space(text[i]),
        to > 0 ==> !is_white_space(text[to - 1]),
    ensures
        trim_end(text) == text.take(to),
    decreases text.len() - to,
{
    if to == text.len() {
        assert(text.take(to) =~= text);
    } else {
        let rest = text.drop_last();
        lemma_trim_end_is_take(rest, to);
        assert(rest.take(to) =~= text.take(to));
    }
}

/// Whether `c` is white space.
pub fn white_space(c: char) -> (yes: bool)
    ensures
        yes == is_white_space(c),
{
    let u: u32 = c as u32;
    (0x0009 <= u && u <= 0x000D) || u == 0x0020 || u == 0x0085 || u == 0x00A0 || u == 0x1680 || (
    0x2000 <= u && u <= 0x200A) || u == 0x2028 || u == 0x2029 || u == 0x202F || u == 0x205F || u
        == 0x3000
}

/// `line` without leading and trailing white space.
pub fn trim(line: &str) -> (text: &str)
    ensures
        text@ == trimmed(line@),
{
    let len = line.unicode_len();
    // `from..to` spans the first to the last character seen so far that is
    // no white space; it is empty at `at` while none was seen.
    let mut from: usize = 0;
    let mut to: usize = 0;
    let mut at: usize = 0;
    for c in chars: line.chars()
        invariant
            chars.seq() == line@,
            at == chars.index(),
            len == line@.len(),
            from <= to <= at,
            from == to ==> from == at,
            from < to ==> !is_white_space(line@[from as int]) && !is_white_space(
                line@[to - 1],
            ),
            forall|i: int| 0 <= i < from ==> is_white_space(line@[i]),
            forall|i: int| to <= i < at ==> is_white_space(line@[i]),
    {
        if white_space(c) {
            if from == to {
                from = at + 1;
                to = at + 1;
            }
        } else {
            if from == to {
                from = at;
            }
            to = at + 1;
        }
        at += 1;
    }
    proof {
        let rest = line@.skip(from as int);
        lemma_trim_start_is_skip(line@, from as int);
        assert forall|i: int| to - from <= i < rest.len() implies is_white_space(rest[i]) by {
            assert(rest[i] == line@[i + from]);
        }
        lemma_trim_end_is_take(rest, to - from);
        assert(rest.take(to - from) =~= line@.subrange(from as int, to as int));
    }
    line.substring_char(from, to)
}

/// Whether `text` is the quit sentinel.
pub fn is_quit_sentinel(text: &str) -> (yes: bool)
    ensures
        yes == is_quit(text@),
{
    if text.unicode_len() != 5 {
        return false;
    }
    let c1 = text.get_char(1);
    let c2 = text.get_char(2);
    let c3 = text.get_char(3);
    let c4 = text.get_char(4);
    text.get_char(0) == ':' && (c1 == 'q' || c1 == 'Q') && (c2 == 'u' || c2 == 'U') && (c3 == 'i'
        || c3 == 'I') && (c4 == 't' || c4 == 'T')
}

/// The next step of the console loop after `event`. The loop begins with
/// `ConsoleStep::ReadLine`.
pub fn console_step(event: ConsoleEvent) -> (step: ConsoleStep)
    ensures
        step@ == console_next(event),
{
    match event {
        ConsoleEvent::Line(line) => {
            let text = trim(line.as_str());
            if is_quit_sentinel(text) {
                ConsoleStep::Exit
            } else {
                ConsoleStep::Enqueue(text.to_owned())
            }
        },
        ConsoleEvent::Enqueued { accepted } => if accepted {
            ConsoleStep::ReadLine
        } else {
            ConsoleStep::Exit
        },
    }
}

/// The sentinel ends the loop, and no message is sent for it: in any letter
/// case, alone on its line or with white space around it, such as the
/// line's final newline. No other line ends the loop.
pub proof fn lemma_quit_ends_loop(lead: Seq<char>, word: Seq<char>, trail: Seq<char>)
    requires
        is_quit(word),
        forall|i: int| 0 <= i < lead.len() ==> is_white_space(lead[i]),
        forall|i: int| 0 <= i < trail.len() ==> is_white_space(trail[i]),
    ensures
        console_after_line(word) == ConsoleStepView::Exit,
        console_after_line(lead + word + trail) == ConsoleStepView::Exit,
        forall|line: Seq<char>|
            console_after_line(line) == ConsoleStepView::Exit <==> is_quit(trimmed(line)),
{
    let line = lead + word + trail;
    let rest = line.skip(lead.len() as int);
    lemma_trim_start_is_skip(line, lead.len() as int);
    assert(rest =~= word + trail);
    lemma_trim_end_is_take(rest, word.len() as int);
    assert(rest.take(word.len() as int) =~= word);
    assert(trimmed(line) == word);
    lemma_trim_start_is_skip(word, 0);
    lemma_trim_end_is_take(word, 5);
    assert(word.skip(0) =~= word);
    assert(word.take(5) =~= word);
}

} // verus!
