//! The line editor's state: the current input, the cursor position within
//! it, and the history with its browse position.
//!
//! The editor is a state machine: the terminal front-end decodes each key
//! press into a [`Key`], feeds it to [`Context::handle_key`], and performs
//! the returned [`Step`] (echo, redraw, or finish with an [`Event`]). All
//! the editing decisions are made here; the front-end only draws.

use vstd::prelude::*;

verus! {

/// What one read of the line editor ends with.
#[derive(Debug)]
pub enum Event {
    /// The user entered this line.
    Line(String),
    /// The user interrupted the read.
    Ctrlc,
    /// End of input.
    Eof,
    /// The user asked for completion.
    Tab,
}

/// A decoded key press: the input alphabet of the editor.
#[derive(Debug)]
pub enum Key {
    Char(char),
    Up,
    Down,
    Left,
    Right,
    Backspace,
    Delete,
    Enter,
    Tab,
    CtrlC,
    CtrlD,
    Other,
}

/// What the front-end must do after feeding one key.
#[derive(Debug)]
pub enum Step {
    /// Nothing changed on screen.
    Quiet,
    /// The character was appended at the end of the line: echo it.
    Echo(char),
    /// The line changed elsewhere: clear and reprint it.
    Redraw,
    /// The read is over with this event; for a `Line` event the entered
    /// line was just moved out of the editor and, when non-empty, appended
    /// to the history.
    Done(Event),
}

/// The editor's state, mathematically.
pub ghost struct EditView {
    pub history: Seq<Seq<char>>,
    pub history_pos: int,
    pub ci: Seq<char>,
    pub ci_pos: int,
}

/// Relies on the standard library's `FromIterator` for `String`: collects
/// exactly the given characters into a string.
#[verifier::external_body]
fn chars_to_string(v: &Vec<char>) -> (r: String)
    ensures
        r@ == v@,
{
    v.iter().collect()
}

/// The characters of a string slice, in order.
fn chars_of(s: &str) -> (r: Vec<char>)
    ensures
        r@ == s@,
{
    let n = s.unicode_len();
    let mut r: Vec<char> = Vec::new();
    let mut i: usize = 0;
    while i < n
        invariant
            i <= n,
            n == s@.len(),
            r@ == s@.take(i as int),
        decreases n - i,
    {
        r.push(s.get_char(i));
        i = i + 1;
        proof {
            assert(r@ =~= s@.take(i as int));
        }
    }
    proof {
        assert(s@.take(n as int) =~= s@);
    }
    r
}

/// The line editor's state: the history, the browse position within it,
/// the current input and the cursor position within that.
pub struct Context {
    history: Vec<String>,
    history_pos: usize,
    ci: Vec<char>,
    ci_pos: usize,
}

impl View for Context {
    type V = EditView;

    closed spec fn view(&self) -> EditView {
        EditView {
            history: Seq::new(self.history@.len(), |i: int| self.history@[i]@),
            history_pos: self.history_pos as int,
            ci: self.ci@,
            ci_pos: self.ci_pos as int,
        }
    }
}

impl Context {
    #[verifier::type_invariant]
    spec fn inv(&self) -> bool {
        &&& self.ci_pos <= self.ci@.len()
        &&& self.history_pos <= self.history@.len()
    }

    /// A fresh editor: no history, empty input.
    pub fn new() -> (r: Self)
        ensures
            r@.history == Seq::<Seq<char>>::empty(),
            r@.history_pos == 0,
            r@.ci == Seq::<char>::empty(),
            r@.ci_pos == 0,
    {
        let r = Context { history: Vec::new(), history_pos: 0, ci: Vec::new(), ci_pos: 0 };
        proof {
            assert(r@.history =~= Seq::<Seq<char>>::empty());
        }
        r
    }

    /// Replace the history with lines loaded from storage and reset the
    /// browse position to just past its end.
    pub fn history_load(&mut self, lines: Vec<String>)
        ensures
            final(self)@.history == Seq::new(lines@.len(), |i: int| lines@[i]@),
            final(self)@.history_pos == lines@.len(),
            final(self)@.ci == old(self)@.ci,
            final(self)@.ci_pos == old(self)@.ci_pos,
    {
        proof {
            use_type_invariant(&*self);
        }
        let pos = lines.len();
        self.history_pos = 0;
        self.history = lines;
        self.history_pos = pos;
    }

    /// Feed one decoded key press; mutate the state and say what to draw.
    ///
    /// A printable character is inserted at the cursor (echoed when it
    /// lands at the end of the line, redrawn otherwise). The arrows move
    /// the cursor or browse the history. Backspace and delete remove
    /// around the cursor. Enter moves the line out, appends it to the
    /// history when non-empty, and resets the browse position and the
    /// input. Interruption, end-of-input and completion end the read with
    /// their events, leaving the state as it was.
    pub fn handle_key(&mut self, k: Key) -> (r: Step)
        ensures
            match k {
                Key::Char(c) => {
                    &&& final(self)@.ci == old(self)@.ci.take(old(self)@.ci_pos) + seq![c] + old(
                        self,
                    )@.ci.skip(old(self)@.ci_pos)
                    &&& final(self)@.ci_pos == old(self)@.ci_pos + 1
                    &&& final(self)@.history == old(self)@.history
                    &&& final(self)@.history_pos == old(self)@.history_pos
                    &&& r == (if final(self)@.ci_pos == final(self)@.ci.len() {
                        Step::Echo(c)
                    } else {
                        Step::Redraw
                    })
                },
                Key::Left => {
                    if old(self)@.ci_pos > 0 {
                        final(self)@ == EditView { ci_pos: old(self)@.ci_pos - 1, ..old(self)@ }
                            && r == Step::Redraw
                    } else {
                        final(self)@ == old(self)@ && r == Step::Quiet
                    }
                },
                Key::Right => {
                    if old(self)@.ci_pos < old(self)@.ci.len() {
                        final(self)@ == EditView { ci_pos: old(self)@.ci_pos + 1, ..old(self)@ }
                            && r == Step::Redraw
                    } else {
                        final(self)@ == old(self)@ && r == Step::Quiet
                    }
                },
                Key::Up => {
                    if old(self)@.history_pos > 0 {
                        {
                            let line = old(self)@.history[old(self)@.history_pos - 1];
                            &&& final(self)@.history_pos == old(self)@.history_pos - 1
                            &&& final(self)@.ci == line
                            &&& final(self)@.ci_pos == line.len()
                            &&& final(self)@.history == old(self)@.history
                            &&& r == Step::Redraw
                        }
                    } else {
                        final(self)@ == old(self)@ && r == Step::Quiet
                    }
                },
                Key::Down => {
                    if old(self)@.history_pos < old(self)@.history.len() {
                        {
                            let np = old(self)@.history_pos + 1;
                            let line = if np < old(self)@.history.len() {
                                old(self)@.history[np]
                            } else {
                                Seq::<char>::empty()
                            };
                            &&& final(self)@.history_pos == np
                            &&& final(self)@.ci == line
                            &&& final(self)@.ci_pos == line.len()
                            &&& final(self)@.history == old(self)@.history
                            &&& r == Step::Redraw
                        }
                    } else {
                        final(self)@ == old(self)@ && r == Step::Quiet
                    }
                },
                Key::Backspace => {
                    if old(self)@.ci.len() > 0 && old(self)@.ci_pos > 0 {
                        &&& final(self)@.ci == old(self)@.ci.remove(old(self)@.ci_pos - 1)
                        &&& final(self)@.ci_pos == old(self)@.ci_pos - 1
                        &&& final(self)@.history == old(self)@.history
                        &&& final(self)@.history_pos == old(self)@.history_pos
                        &&& r == Step::Redraw
                    } else {
                        final(self)@ == old(self)@ && r == Step::Quiet
                    }
                },
                Key::Delete => {
                    if old(self)@.ci.len() > 0 && old(self)@.ci_pos < old(self)@.ci.len() {
                        &&& final(self)@.ci == old(self)@.ci.remove(old(self)@.ci_pos)
                        &&& final(self)@.ci_pos == old(self)@.ci_pos
                        &&& final(self)@.history == old(self)@.history
                        &&& final(self)@.history_pos == old(self)@.history_pos
                        &&& r == Step::Redraw
                    } else {
                        final(self)@ == old(self)@ && r == Step::Quiet
                    }
                },
                Key::Enter => {
                    &&& (r matches Step::Done(Event::Line(line)) && line@ == old(self)@.ci)
                    &&& final(self)@.history == (if old(self)@.ci.len() > 0 {
                        old(self)@.history.push(old(self)@.ci)
                    } else {
                        old(self)@.history
                    })
                    &&& final(self)@.history_pos == final(self)@.history.len()
                    &&& final(self)@.ci == Seq::<char>::empty()
                    &&& final(self)@.ci_pos == 0
                },
                Key::Tab => final(self)@ == old(self)@ && r == Step::Done(Event::Tab),
                Key::CtrlC => final(self)@ == old(self)@ && r == Step::Done(Event::Ctrlc),
                Key::CtrlD => final(self)@ == old(self)@ && r == Step::Done(Event::Eof),
                Key::Other => final(self)@ == old(self)@ && r == Step::Quiet,
            },
    {
        proof {
            use_type_invariant(&*self);
        }
        match k {
            Key::Char(c) => {
                let pos = self.ci_pos;
                self.ci_pos = 0;
                let mut ci: Vec<char> = Vec::new();
                std::mem::swap(&mut ci, &mut self.ci);
                ci.insert(pos, c);
                std::mem::swap(&mut ci, &mut self.ci);
                let n = self.ci.len();
                assert(pos < n);
                self.ci_pos = pos + 1;
                proof {
                    assert(self@.ci =~= old(self)@.ci.take(old(self)@.ci_pos) + seq![c]
                        + old(self)@.ci.skip(old(self)@.ci_pos));
                }
                if self.ci_pos != self.ci.len() {
                    Step::Redraw
                } else {
                    Step::Echo(c)
                }
            },
            Key::Left => {
                if self.ci_pos > 0 {
                    self.ci_pos = self.ci_pos - 1;
                    Step::Redraw
                } else {
                    Step::Quiet
                }
            },
            Key::Right => {
                if self.ci_pos < self.ci.len() {
                    self.ci_pos = self.ci_pos + 1;
                    Step::Redraw
                } else {
                    Step::Quiet
                }
            },
            Key::Up => {
                if self.history_pos > 0 {
                    self.history_pos = self.history_pos - 1;
                    let line = chars_of(self.history[self.history_pos].as_str());
                    self.ci_pos = 0;
                    self.ci = line;
                    self.ci_pos = self.ci.len();
                    Step::Redraw
                } else {
                    Step::Quiet
                }
            },
            Key::Down => {
                if self.history_pos < self.history.len() {
                    self.history_pos = self.history_pos + 1;
                    let line = if self.history_pos < self.history.len() {
                        chars_of(self.history[self.history_pos].as_str())
                    } else {
                        Vec::new()
                    };
                    self.ci_pos = 0;
                    self.ci = line;
                    self.ci_pos = self.ci.len();
                    Step::Redraw
                } else {
                    Step::Quiet
                }
            },
            Key::Backspace => {
                if self.ci.len() > 0 && self.ci_pos > 0 {
                    let pos = self.ci_pos;
                    self.ci_pos = 0;
                    let mut ci: Vec<char> = Vec::new();
                    std::mem::swap(&mut ci, &mut self.ci);
                    let _ = ci.remove(pos - 1);
                    std::mem::swap(&mut ci, &mut self.ci);
                    self.ci_pos = pos - 1;
                    Step::Redraw
                } else {
                    Step::Quiet
                }
            },
            Key::Delete => {
                if self.ci.len() > 0 && self.ci_pos < self.ci.len() {
                    let pos = self.ci_pos;
                    self.ci_pos = 0;
                    let mut ci: Vec<char> = Vec::new();
                    std::mem::swap(&mut ci, &mut self.ci);
                    let _ = ci.remove(pos);
                    std::mem::swap(&mut ci, &mut self.ci);
                    self.ci_pos = pos;
                    Step::Redraw
                } else {
                    Step::Quiet
                }
            },
            Key::Enter => {
                self.ci_pos = 0;
                let mut ci: Vec<char> = Vec::new();
                std::mem::swap(&mut ci, &mut self.ci);
                let line = chars_to_string(&ci);
                if ci.len() > 0 {
                    let kept = line.clone();
                    let mut h: Vec<String> = Vec::new();
                    self.history_pos = 0;
                    std::mem::swap(&mut h, &mut self.history);
                    h.push(kept);
                    std::mem::swap(&mut h, &mut self.history);
                    proof {
                        assert(self@.history =~= old(self)@.history.push(old(self)@.ci));
                    }
                }
                self.history_pos = self.history.len();
                proof {
                    if old(self)@.ci.len() == 0 {
                        assert(self@.history =~= old(self)@.history);
                    }
                }
                Step::Done(Event::Line(line))
            },
            Key::Tab => Step::Done(Event::Tab),
            Key::CtrlC => Step::Done(Event::Ctrlc),
            Key::CtrlD => Step::Done(Event::Eof),
            Key::Other => Step::Quiet,
        }
    }

    /// The line currently being edited and the cursor position within it;
    /// what the front-end needs to reprint the line.
    pub fn current_line(&self) -> (r: (String, usize))
        ensures
            r.0@ == self@.ci,
            r.1 == self@.ci_pos,
    {
        (chars_to_string(&self.ci), self.ci_pos)
    }
}

} // verus!
