//! The input controller: one prompt session as a state machine from decoded
//! keystrokes to terminal writes. Each keystroke updates the logical
//! password buffer and yields exactly the bytes the terminal must receive;
//! reading keystrokes and performing the writes stay outside.

use vstd::prelude::*;

use crate::ansi::strip_spec;
use crate::escapes::color_on;
use crate::escapes::color_reset;
use crate::escapes::cursor_backward;
use crate::escapes::esc_color_on;
use crate::escapes::esc_color_reset;
use crate::escapes::esc_cursor_backward;
use crate::escapes::push_char;
use crate::spinner::cycle_backward;
use crate::spinner::cycle_next;
use crate::spinner::has_char;
use crate::spinner::is_default_prompt;
use crate::spinner::placeholder_offset;
use crate::spinner::render;
use crate::spinner::render_spec;
use crate::spinner::Prompt;
use crate::spinner::SpinType;

verus! {

broadcast use vstd::seq::group_seq_axioms;

/// The whole configuration of one prompt session: whether secure mode is
/// on, and the spinner's visual configuration.
#[derive(Debug, Clone)]
pub struct Config {
    pub secure: bool,
    pub prompt: Prompt,
}

impl Default for Config {
    /// Secure mode off, with the built-in prompt.
    fn default() -> (r: Self)
        ensures
            !r.secure,
            is_default_prompt(r.prompt),
    {
        Config { secure: false, prompt: Prompt::default() }
    }
}

/// The newline that completes a session.
pub open spec fn is_newline(c: char) -> bool {
    c == '\n'
}

/// The delete code a backspace key sends.
pub open spec fn is_backspace(c: char) -> bool {
    c == '\u{7f}'
}

/// The three terminal writes that erase one mask glyph: step left, blank
/// the column, step left again.
pub open spec fn erase_one() -> Seq<char> {
    esc_cursor_backward(1) + seq![' '] + esc_cursor_backward(1)
}

/// The password buffer after one keystroke: newline leaves it, backspace
/// pops its tail when it has one, anything else is appended.
pub open spec fn password_after(pw: Seq<char>, c: char) -> Seq<char> {
    if is_newline(c) {
        pw
    } else if is_backspace(c) {
        if pw.len() > 0 {
            pw.drop_last()
        } else {
            pw
        }
    } else {
        pw.push(c)
    }
}

/// One interactive prompt session: the configuration, the logical password
/// buffer, the cyclic glyph cursor and whether the ending newline was seen.
#[derive(Debug)]
pub struct Session {
    pub secure: bool,
    pub prompt: Prompt,
    pub password: Vec<char>,
    pub cursor: usize,
    pub done: bool,
}

/// The cyclic glyph cursor after one keystroke: a visible typed character
/// advances it, a visible erase steps it back, everything else leaves it.
pub open spec fn cursor_after(s: Session, c: char) -> int {
    let n = s.prompt.characters@.len() as int;
    if is_newline(c) {
        s.cursor as int
    } else if is_backspace(c) {
        if s.password@.len() > 0 && !s.secure {
            cycle_backward(s.cursor as int, n)
        } else {
            s.cursor as int
        }
    } else {
        if !s.secure {
            cycle_next(s.cursor as int, n)
        } else {
            s.cursor as int
        }
    }
}

/// Everything one keystroke writes to the terminal. A newline writes a
/// newline. A backspace on a non-empty buffer, outside secure mode, erases
/// one mask glyph and renders a backward step; whenever the buffer is empty
/// afterwards, the empty indicator is rendered. Any other character writes
/// a mask glyph and renders a forward step, or, in secure mode, renders the
/// pinned secure indicator alone.
pub open spec fn output_after(s: Session, c: char) -> Seq<char> {
    let n = s.prompt.characters@.len() as int;
    if is_newline(c) {
        seq!['\n']
    } else if is_backspace(c) {
        let popped = s.password@.len() > 0;
        let newlen: int = if popped {
            s.password@.len() - 1
        } else {
            0
        };
        let part1 = if popped && !s.secure {
            erase_one() + render_spec(SpinType::Backward, s.prompt, newlen, s.cursor as int)
        } else {
            Seq::<char>::empty()
        };
        let cursor2 = if popped && !s.secure {
            cycle_backward(s.cursor as int, n)
        } else {
            s.cursor as int
        };
        let part2 = if newlen == 0 {
            render_spec(SpinType::Empty, s.prompt, 0, cursor2)
        } else {
            Seq::<char>::empty()
        };
        part1 + part2
    } else {
        if !s.secure {
            seq!['*'] + render_spec(
                SpinType::Forward,
                s.prompt,
                s.password@.len() as int + 1,
                s.cursor as int,
            )
        } else {
            render_spec(SpinType::Secure, s.prompt, s.password@.len() as int + 1, s.cursor as int)
        }
    }
}

/// Everything the start of a session writes: the color-wrapped prompt
/// template, then the empty indicator at the placeholder column.
pub open spec fn begin_output(s: Session) -> Seq<char> {
    esc_color_on(s.prompt.prompt_ansi_color as nat) + s.prompt.prompt_text@ + esc_color_reset()
        + render_spec(SpinType::Empty, s.prompt, s.password@.len() as int, s.cursor as int)
}

impl Session {
    /// The glyph set is non-empty, the cyclic cursor lies inside it, and
    /// the stripped template holds the placeholder marker.
    pub open spec fn wf(self) -> bool {
        &&& self.prompt.characters@.len() > 0
        &&& self.cursor < self.prompt.characters@.len()
        &&& has_char(strip_spec(self.prompt.prompt_text@), '$')
    }

    /// Opens a session with an empty buffer.
    pub fn new(config: Config) -> (r: Session)
        requires
            config.prompt.characters@.len() > 0,
            has_char(strip_spec(config.prompt.prompt_text@), '$'),
        ensures
            r.wf(),
            r.secure == config.secure,
            r.prompt == config.prompt,
            r.password@ == Seq::<char>::empty(),
            r.cursor == 0,
            !r.done,
    {
        Session {
            secure: config.secure,
            prompt: config.prompt,
            password: Vec::new(),
            cursor: 0,
            done: false,
        }
    }

    /// Writes the prompt and establishes the empty indicator at the
    /// placeholder column.
    pub fn begin(&self) -> (out: String)
        requires
            self.wf(),
            placeholder_offset(self.prompt.prompt_text@) + self.password@.len() <= u16::MAX,
        ensures
            out@ == begin_output(*self),
    {
        let mut out = color_on(self.prompt.prompt_ansi_color);
        out.append(self.prompt.prompt_text.as_str());
        out.append(color_reset().as_str());
        let mut cur = self.cursor;
        let r = render(SpinType::Empty, &self.prompt, self.password.len(), &mut cur);
        out.append(r.as_str());
        proof {
            assert(out@ =~= begin_output(*self));
        }
        out
    }

    /// Consumes one decoded keystroke, updates the buffer and the glyph
    /// cursor, and yields the bytes the terminal must receive.
    pub fn handle_char(&mut self, c: char) -> (out: String)
        requires
            old(self).wf(),
            !old(self).done,
            placeholder_offset(old(self).prompt.prompt_text@) + old(self).password@.len() + 1
                <= u16::MAX,
            old(self).password@.len() < usize::MAX,
        ensures
            final(self).wf(),
            final(self).secure == old(self).secure,
            final(self).prompt == old(self).prompt,
            final(self).password@ == password_after(old(self).password@, c),
            final(self).cursor as int == cursor_after(*old(self), c),
            final(self).done == is_newline(c),
            out@ == output_after(*old(self), c),
    {
        if c == '\n' {
            self.done = true;
            let mut out = String::new();
            push_char(&mut out, '\n');
            proof {
                assert(out@ =~= output_after(*old(self), c));
            }
            out
        } else if c == '\u{7f}' {
            let mut out = String::new();
            let popped = self.password.pop();
            if popped.is_some() && !self.secure {
                out.append(cursor_backward(1).as_str());
                push_char(&mut out, ' ');
                out.append(cursor_backward(1).as_str());
                let r = render(
                    SpinType::Backward,
                    &self.prompt,
                    self.password.len(),
                    &mut self.cursor,
                );
                out.append(r.as_str());
            }
            if self.password.len() == 0 {
                let r = render(SpinType::Empty, &self.prompt, 0, &mut self.cursor);
                out.append(r.as_str());
            }
            proof {
                assert(password_after(old(self).password@, c) =~= self.password@);
                assert(out@ =~= output_after(*old(self), c));
            }
            out
        } else {
            self.password.push(c);
            let mut out = String::new();
            if !self.secure {
                push_char(&mut out, '*');
                let r = render(
                    SpinType::Forward,
                    &self.prompt,
                    self.password.len(),
                    &mut self.cursor,
                );
                out.append(r.as_str());
            } else {
                let r = render(
                    SpinType::Secure,
                    &self.prompt,
                    self.password.len(),
                    &mut self.cursor,
                );
                out.append(r.as_str());
            }
            proof {
                assert(out@ =~= output_after(*old(self), c));
            }
            out
        }
    }

    /// The finished line for standard output: the password as typed.
    pub fn password_string(&self) -> (r: String)
        ensures
            r@ == self.password@,
    {
        let mut out = String::new();
        let mut i: usize = 0;
        proof {
            assert(out@ =~= self.password@.subrange(0, 0));
        }
        while i < self.password.len()
            invariant
                i <= self.password@.len(),
                out@ == self.password@.subrange(0, i as int),
            decreases self.password@.len() - i,
        {
            push_char(&mut out, self.password[i]);
            proof {
                assert(self.password@.subrange(0, i as int).push(self.password@[i as int])
                    =~= self.password@.subrange(0, i + 1));
            }
            i = i + 1;
        }
        proof {
            assert(self.password@.subrange(0, self.password@.len() as int) =~= self.password@);
        }
        out
    }

    /// Whether the ending newline was seen.
    pub fn is_done(&self) -> (r: bool)
        ensures
            r == self.done,
    {
        self.done
    }
}

} // verus!

