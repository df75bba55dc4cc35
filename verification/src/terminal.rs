//! The scratch command box: a one-line prompt, a capped scrollback and a
//! generation counter that lets late results from a superseded or dismissed
//! command be dropped. Running the command is the caller's part.

use vstd::prelude::*;

use crate::text::{chars_eq_str, concat_str, from_utf8_lossy, i32_to_string, int_decimal, lines, split_lines, string_of, trim, trim_str, utf8_lossy, views};

verus! {

/// Scrollback cap in lines. Oldest lines drop first.
pub const MAX_LINES: usize = 400;

/// One scrollback line, tagged by origin so the view can color it.
#[derive(Debug, Clone)]
pub enum Line {
    /// The echoed command itself.
    Cmd(String),
    Out(String),
    /// Standard-error output (`Err` in the UI's terms).
    Stderr(String),
    /// Status notes from the box itself (timeout, spawn failure).
    Note(String),
}

#[derive(Clone, Copy, Debug, PartialEq, Eq, Structural)]
pub enum LineKind {
    Cmd,
    Out,
    Stderr,
    Note,
}

impl View for Line {
    type V = (LineKind, Seq<char>);

    open spec fn view(&self) -> (LineKind, Seq<char>) {
        match self {
            Line::Cmd(s) => (LineKind::Cmd, s@),
            Line::Out(s) => (LineKind::Out, s@),
            Line::Stderr(s) => (LineKind::Stderr, s@),
            Line::Note(s) => (LineKind::Note, s@),
        }
    }
}

pub open spec fn line_views(v: Seq<Line>) -> Seq<(LineKind, Seq<char>)> {
    v.map_values(|l: Line| l@)
}

/// The last `MAX_LINES` lines of a scrollback.
pub open spec fn capped(s: Seq<(LineKind, Seq<char>)>) -> Seq<(LineKind, Seq<char>)> {
    if s.len() > MAX_LINES {
        s.skip(s.len() - MAX_LINES)
    } else {
        s
    }
}

/// Appends lines one by one, keeping the cap after each.
pub open spec fn push_all(
    s: Seq<(LineKind, Seq<char>)>,
    lines: Seq<(LineKind, Seq<char>)>,
) -> Seq<(LineKind, Seq<char>)>
    decreases lines.len(),
{
    if lines.len() == 0 {
        s
    } else {
        push_all(capped(s.push(lines[0])), lines.drop_first())
    }
}

/// Messages the box reacts to.
pub enum TerminalMessage {
    InputChanged(String),
    Submit,
    /// (generation, lines) from a finished command.
    Finished(u64, Vec<Line>),
}

/// What the caller must do after an update.
#[derive(Debug)]
pub enum TerminalAction {
    Nothing,
    /// Run the command off-thread and answer with `Finished(generation, ..)`;
    /// then scroll to the bottom.
    Run(String, u64),
    /// Scroll the output to the bottom.
    SnapToBottom,
}

/// How long a command may run, in seconds (handed to `timeout`).
pub const TIMEOUT_SECS: &'static str = "30";

/// The note for how a command ended: the timeout, a non-zero exit code, or
/// nothing for success or a signal.
pub open spec fn exit_note(code: Option<i32>) -> Option<Seq<char>> {
    match code {
        Some(c) => if c == 124 {
            Some("(timed out after "@ + TIMEOUT_SECS@ + "s)"@)
        } else if c == 0 {
            None
        } else {
            Some("(exit "@ + int_decimal(c as int) + ")"@)
        },
        None => None,
    }
}

pub open spec fn tagged(kind: LineKind, ls: Seq<Seq<char>>) -> Seq<(LineKind, Seq<char>)> {
    ls.map_values(|l: Seq<char>| (kind, l))
}

/// The scrollback lines of a finished command: its standard output, then
/// its standard error (their interleaving is lost), then the exit note.
pub open spec fn output_spec(stdout: Seq<u8>, stderr: Seq<u8>, code: Option<i32>) -> Seq<(LineKind, Seq<char>)> {
    let body = tagged(LineKind::Out, lines(utf8_lossy(stdout))) + tagged(
        LineKind::Stderr,
        lines(utf8_lossy(stderr)),
    );
    match exit_note(code) {
        Some(n) => body.push((LineKind::Note, n)),
        None => body,
    }
}

fn push_tagged(out: &mut Vec<Line>, kind: LineKind, ls: Vec<Vec<char>>)
    ensures
        line_views(final(out)@) == line_views(old(out)@) + tagged(kind, views(ls@)),
{
    let ghost start = line_views(out@);
    let mut i: usize = 0;
    while i < ls.len()
        invariant
            i <= ls@.len(),
            line_views(out@) == start + tagged(kind, views(ls@)).take(i as int),
        decreases ls@.len() - i,
    {
        let text = string_of(ls[i].as_slice());
        let ghost tv = text@;
        let line = match kind {
            LineKind::Cmd => Line::Cmd(text),
            LineKind::Out => Line::Out(text),
            LineKind::Stderr => Line::Stderr(text),
            LineKind::Note => Line::Note(text),
        };
        let ghost before = line_views(out@);
        out.push(line);
        assert(line_views(out@) =~= before.push((kind, tv)));
        assert(tagged(kind, views(ls@)).take(i + 1) =~= tagged(kind, views(ls@)).take(i as int).push((kind, tv)));
        i = i + 1;
    }
    assert(tagged(kind, views(ls@)).take(i as int) =~= tagged(kind, views(ls@)));
}

/// The scrollback lines for a command's captured output and exit code.
pub fn output_lines(stdout: &[u8], stderr: &[u8], code: Option<i32>) -> (r: Vec<Line>)
    ensures
        line_views(r@) == output_spec(stdout@, stderr@, code),
{
    let mut out: Vec<Line> = Vec::new();
    assert(line_views(out@) =~= Seq::<(LineKind, Seq<char>)>::empty());
    let o = from_utf8_lossy(stdout);
    push_tagged(&mut out, LineKind::Out, split_lines(o.as_slice()));
    let e = from_utf8_lossy(stderr);
    push_tagged(&mut out, LineKind::Stderr, split_lines(e.as_slice()));
    let ghost body = line_views(out@);
    match code {
        Some(c) => {
            if c == 124 {
                let a = concat_str("(timed out after ", TIMEOUT_SECS);
                out.push(Line::Note(concat_str(a.as_str(), "s)")));
                assert(line_views(out@) =~= body.push((LineKind::Note, exit_note(code)->0)));
            } else if c != 0 {
                let n = i32_to_string(c);
                let a = concat_str("(exit ", n.as_str());
                out.push(Line::Note(concat_str(a.as_str(), ")")));
                assert(line_views(out@) =~= body.push((LineKind::Note, exit_note(code)->0)));
            }
        },
        None => {},
    }
    out
}

/// The note for a command that could not be started, or whose worker
/// failed: `(<what>: <error>)`.
pub fn failure_line(what: &str, error: &str) -> (l: Line)
    ensures
        l@ == (LineKind::Note, "("@ + what@ + ": "@ + error@ + ")"@),
{
    let a = concat_str("(", what);
    let b = concat_str(a.as_str(), ": ");
    let c = concat_str(b.as_str(), error);
    Line::Note(concat_str(c.as_str(), ")"))
}

pub struct TerminalBox {
    pub input: String,
    scrollback: Vec<Line>,
    running: bool,
    /// Bumped on every submit and every reset; a result only lands if its
    /// generation still matches.
    generation: u64,
}

/// Abstract state of the box.
pub struct TerminalView {
    pub input: Seq<char>,
    pub scrollback: Seq<(LineKind, Seq<char>)>,
    pub running: bool,
    pub generation: u64,
}

impl View for TerminalBox {
    type V = TerminalView;

    closed spec fn view(&self) -> TerminalView {
        TerminalView {
            input: self.input@,
            scrollback: line_views(self.scrollback@),
            running: self.running,
            generation: self.generation,
        }
    }
}

pub open spec fn next_generation(g: u64) -> u64 {
    if g == u64::MAX {
        0
    } else {
        (g + 1) as u64
    }
}

pub open spec fn clear_word() -> Seq<char> {
    seq!['c', 'l', 'e', 'a', 'r']
}

/// The state after a submit, and the action it asks for.
pub open spec fn after_submit(t: TerminalView) -> (TerminalView, Option<(Seq<char>, u64)>) {
    let cmd = trim(t.input);
    if cmd.len() == 0 || t.running {
        (t, None)
    } else if cmd == clear_word() {
        (TerminalView { input: seq![], scrollback: seq![], ..t }, None)
    } else {
        let g = next_generation(t.generation);
        (
            TerminalView {
                input: seq![],
                scrollback: capped(t.scrollback.push((LineKind::Cmd, cmd))),
                running: true,
                generation: g,
            },
            Some((cmd, g)),
        )
    }
}

/// The state after a command of generation `g` finished with `lines`.
pub open spec fn after_finish(
    t: TerminalView,
    g: u64,
    lines: Seq<(LineKind, Seq<char>)>,
) -> TerminalView {
    if g != t.generation {
        t
    } else {
        TerminalView { running: false, scrollback: push_all(t.scrollback, lines), ..t }
    }
}

/// The state after a dismiss: empty box, in-flight results invalidated.
pub open spec fn after_reset(t: TerminalView) -> TerminalView {
    TerminalView {
        input: seq![],
        scrollback: seq![],
        running: false,
        generation: next_generation(t.generation),
    }
}

impl TerminalBox {
    pub fn new() -> (t: Self)
        ensures
            t@ == (TerminalView {
                input: seq![],
                scrollback: seq![],
                running: false,
                generation: 0,
            }),
    {
        let t = TerminalBox {
            input: String::new(),
            scrollback: Vec::new(),
            running: false,
            generation: 0,
        };
        assert(line_views(t.scrollback@) =~= seq![]);
        t
    }

    /// Scrollback lines, oldest first.
    pub fn scrollback(&self) -> (r: &[Line])
        ensures
            line_views(r@) == self@.scrollback,
    {
        self.scrollback.as_slice()
    }

    pub fn is_running(&self) -> (b: bool)
        ensures
            b == self@.running,
    {
        self.running
    }

    pub fn generation(&self) -> (g: u64)
        ensures
            g == self@.generation,
    {
        self.generation
    }

    /// Dismiss teardown: the next summon gets an empty box, and any
    /// in-flight command's output is invalidated by the generation bump.
    pub fn reset(&mut self)
        ensures
            final(self)@ == after_reset(old(self)@),
    {
        self.input = String::new();
        self.scrollback = Vec::new();
        self.running = false;
        self.generation = self.generation.wrapping_add(1);
        assert(line_views(self.scrollback@) =~= seq![]);
    }

    fn push(&mut self, line: Line)
        ensures
            final(self)@ == (TerminalView {
                scrollback: capped(old(self)@.scrollback.push(line@)),
                ..old(self)@
            }),
    {
        let ghost pushed = line_views(self.scrollback@).push(line@);
        let mut sb: Vec<Line> = Vec::new();
        std::mem::swap(&mut sb, &mut self.scrollback);
        sb.push(line);
        assert(line_views(sb@) =~= pushed);
        if sb.len() > MAX_LINES {
            let overflow = sb.len() - MAX_LINES;
            let mut k: usize = 0;
            while k < overflow
                invariant
                    k <= overflow,
                    overflow == pushed.len() - MAX_LINES,
                    sb@.len() == pushed.len() - k,
                    line_views(sb@) == pushed.skip(k as int),
                decreases overflow - k,
            {
                let ghost before = sb@;
                sb.remove(0);
                assert forall|j: int| 0 <= j < sb@.len() implies #[trigger] line_views(sb@)[j]
                    == pushed.skip(k + 1)[j] by {
                    assert(sb@[j] == before[j + 1]);
                    assert(line_views(before)[j + 1] == pushed.skip(k as int)[j + 1]);
                }
                assert(line_views(sb@) =~= pushed.skip(k + 1));
                k = k + 1;
            }
        }
        self.scrollback = sb;
    }

    /// Records a submit. Returns the command and generation to run, if any.
    pub fn submit(&mut self) -> (r: Option<(String, u64)>)
        ensures
            final(self)@ == after_submit(old(self)@).0,
            match r {
                Some((c, g)) => after_submit(old(self)@).1 == Some((c@, g)),
                None => after_submit(old(self)@).1 is None,
            },
    {
        let cmd = trim_str(self.input.as_str());
        if cmd.len() == 0 || self.running {
            return None;
        }
        // Local special case, no spawn: wipe the scrollback.
        if chars_eq_str(cmd.as_slice(), "clear") {
            proof {
                reveal_strlit("clear");
            }
            assert("clear"@ =~= clear_word());
            assert(cmd@ == clear_word());
            self.input = String::new();
            self.scrollback = Vec::new();
            assert(line_views(self.scrollback@) =~= seq![]);
            return None;
        }
        proof {
            reveal_strlit("clear");
        }
        assert("clear"@ =~= clear_word());
        assert(cmd@ != clear_word());
        self.input = String::new();
        let text = string_of(cmd.as_slice());
        let echo = string_of(cmd.as_slice());
        self.push(Line::Cmd(echo));
        self.running = true;
        self.generation = self.generation.wrapping_add(1);
        Some((text, self.generation))
    }

    /// Records a finished command. Returns whether its output landed.
    pub fn finish(&mut self, generation: u64, lines: Vec<Line>) -> (landed: bool)
        ensures
            final(self)@ == after_finish(old(self)@, generation, line_views(lines@)),
            landed == (generation == old(self)@.generation),
    {
        if generation != self.generation {
            return false;
        }
        self.running = false;
        let ghost all = line_views(lines@);
        let ghost start = self@;
        let mut rest = lines;
        assert(all.skip(0) =~= all);
        while rest.len() > 0
            invariant
                line_views(rest@) == all.skip(all.len() - rest@.len()),
                rest@.len() <= all.len(),
                push_all(start.scrollback, all) == push_all(self@.scrollback, line_views(rest@)),
                self@.input == start.input,
                self@.generation == start.generation,
                self.running == false,
            decreases rest@.len(),
        {
            let ghost old_rest = rest@;
            let l = rest.remove(0);
            assert(line_views(rest@) =~= line_views(old_rest).drop_first());
            assert(line_views(old_rest)[0] == l@);
            self.push(l);
        }
        assert(line_views(rest@) =~= seq![]);
        true
    }

    /// Applies one message and says what the caller must do next.
    pub fn update(&mut self, message: TerminalMessage) -> (a: TerminalAction)
        ensures
            match message {
                TerminalMessage::InputChanged(s) => final(self)@ == (TerminalView {
                    input: s@,
                    ..old(self)@
                }) && a is Nothing,
                TerminalMessage::Submit => final(self)@ == after_submit(old(self)@).0 && match a {
                    TerminalAction::Run(c, g) => after_submit(old(self)@).1 == Some((c@, g)),
                    TerminalAction::Nothing => after_submit(old(self)@).1 is None,
                    TerminalAction::SnapToBottom => false,
                },
                TerminalMessage::Finished(g, lines) => final(self)@ == after_finish(
                    old(self)@,
                    g,
                    line_views(lines@),
                ) && (if g == old(self)@.generation {
                    a is SnapToBottom
                } else {
                    a is Nothing
                }),
            },
    {
        match message {
            TerminalMessage::InputChanged(s) => {
                self.input = s;
                TerminalAction::Nothing
            },
            TerminalMessage::Submit => match self.submit() {
                Some((c, g)) => TerminalAction::Run(c, g),
                None => TerminalAction::Nothing,
            },
            TerminalMessage::Finished(g, lines) => {
                if self.finish(g, lines) {
                    TerminalAction::SnapToBottom
                } else {
                    TerminalAction::Nothing
                }
            },
        }
    }
}

// ---------------------------------------------------------------------------
// Laws
// ---------------------------------------------------------------------------

proof fn lemma_push_all_capped(s: Seq<(LineKind, Seq<char>)>, lines: Seq<(LineKind, Seq<char>)>)
    requires
        s.len() <= MAX_LINES,
    ensures
        push_all(s, lines).len() <= MAX_LINES,
    decreases lines.len(),
{
    if lines.len() > 0 {
        lemma_push_all_capped(capped(s.push(lines[0])), lines.drop_first());
    }
}

/// The scrollback never holds more than `MAX_LINES` lines: submits and
/// finished commands keep a capped scrollback capped.
pub proof fn law_scrollback_capped(t: TerminalView, g: u64, lines: Seq<(LineKind, Seq<char>)>)
    requires
        t.scrollback.len() <= MAX_LINES,
    ensures
        after_submit(t).0.scrollback.len() <= MAX_LINES,
        after_finish(t, g, lines).scrollback.len() <= MAX_LINES,
        after_reset(t).scrollback.len() <= MAX_LINES,
{
    lemma_push_all_capped(t.scrollback, lines);
}

/// After a dismiss, the result of the command that was in flight before it
/// is dropped on arrival.
pub proof fn law_reset_discards_inflight(t: TerminalView, lines: Seq<(LineKind, Seq<char>)>)
    ensures
        after_finish(after_reset(t), t.generation, lines) == after_reset(t),
{
}

/// A submitted command's own result lands, and clears the running flag.
pub proof fn law_submitted_result_lands(t: TerminalView, lines: Seq<(LineKind, Seq<char>)>)
    requires
        after_submit(t).1 is Some,
    ensures
        ({
            let (s, act) = after_submit(t);
            let g = (act->0).1;
            &&& s.running
            &&& !after_finish(s, g, lines).running
            &&& after_finish(s, g, lines).scrollback == push_all(s.scrollback, lines)
        }),
{
}

} // verus!
