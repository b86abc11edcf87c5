//! A deterministic finite automaton over Unicode scalar values that
//! recognizes ANSI/VT escape sequences, together with a scanner that finds
//! the maximal escape sequences of a string, an iterator over alternating
//! plain/escape spans, and a stripper that removes all escape sequences.

use vstd::prelude::*;

verus! {

broadcast use vstd::seq::group_seq_axioms;

/// The positions of the escape-sequence automaton. `Start` begins every
/// match attempt; `Trap` means no continuation of the input can extend the
/// sequence any more.
#[derive(Debug, Clone, Copy, PartialEq, Eq, Structural)]
pub enum State {
    Start,
    S1,
    S2,
    S3,
    S4,
    S5,
    S6,
    S7,
    S8,
    S9,
    S10,
    S11,
    Trap,
}

/// The character classes the automaton distinguishes; all transitions are
/// driven by the class of the consumed character, never by the character
/// itself.
#[derive(Debug, Clone, Copy, PartialEq, Eq, Structural)]
pub enum CharClass {
    /// One of the two characters that may begin an escape sequence.
    Introducer,
    /// `(` or `)`: a charset-selection intermediate.
    Paren,
    /// `;`: the parameter separator.
    Semi,
    /// `[`, `#` or `?`: bracket-class intermediates.
    Bracket,
    /// `0`, `1` or `2`.
    DigitLow,
    /// `3` through `9`.
    DigitHigh,
    /// A character that terminates a sequence.
    FinalByte,
    /// Anything else: always traps.
    Other,
}

/// Whether `c` may begin an escape sequence (ESC or the single-character CSI).
pub open spec fn is_introducer(c: char) -> bool {
    c == '\u{1b}' || c == '\u{9b}'
}

/// The class of `c`, shared by the spec and the executable transition.
pub open spec fn classify_spec(c: char) -> CharClass {
    if is_introducer(c) {
        CharClass::Introducer
    } else if c == '(' || c == ')' {
        CharClass::Paren
    } else if c == ';' {
        CharClass::Semi
    } else if c == '[' || c == '#' || c == '?' {
        CharClass::Bracket
    } else if c == '0' || c == '1' || c == '2' {
        CharClass::DigitLow
    } else if '3' <= c && c <= '9' {
        CharClass::DigitHigh
    } else if ('A' <= c && c <= 'P') || c == 'R' || c == 'Z' || c == 'c' || ('f' <= c && c <= 'n')
        || c == 'q' || c == 'r' || c == 'y' || c == '=' || c == '>' || c == '<' {
        CharClass::FinalByte
    } else {
        CharClass::Other
    }
}

/// Classifies one character.
pub fn classify(c: char) -> (r: CharClass)
    ensures
        r == classify_spec(c),
{
    if c == '\u{1b}' || c == '\u{9b}' {
        CharClass::Introducer
    } else if c == '(' || c == ')' {
        CharClass::Paren
    } else if c == ';' {
        CharClass::Semi
    } else if c == '[' || c == '#' || c == '?' {
        CharClass::Bracket
    } else if c == '0' || c == '1' || c == '2' {
        CharClass::DigitLow
    } else if '3' <= c && c <= '9' {
        CharClass::DigitHigh
    } else if ('A' <= c && c <= 'P') || c == 'R' || c == 'Z' || c == 'c' || ('f' <= c && c <= 'n')
        || c == 'q' || c == 'r' || c == 'y' || c == '=' || c == '>' || c == '<' {
        CharClass::FinalByte
    } else {
        CharClass::Other
    }
}

/// The transition function of the automaton, over the character's class.
pub open spec fn spec_transition(s: State, c: char) -> State {
    match classify_spec(c) {
        CharClass::Introducer => match s {
            State::Start => State::S1,
            _ => State::Trap,
        },
        CharClass::Paren => match s {
            State::S1 => State::S2,
            State::S2 | State::S4 => State::S4,
            _ => State::Trap,
        },
        CharClass::Semi => match s {
            State::S1 | State::S2 | State::S4 => State::S4,
            State::S5 | State::S6 | State::S7 | State::S8 | State::S10 => State::S10,
            _ => State::Trap,
        },
        CharClass::Bracket => match s {
            State::S1 | State::S2 | State::S4 => State::S4,
            _ => State::Trap,
        },
        CharClass::DigitLow => match s {
            State::S1 | State::S4 => State::S5,
            State::S2 => State::S3,
            State::S5 => State::S6,
            State::S6 => State::S7,
            State::S7 => State::S8,
            State::S8 => State::S9,
            State::S10 => State::S5,
            _ => State::Trap,
        },
        CharClass::DigitHigh => match s {
            State::S1 | State::S4 => State::S5,
            State::S2 => State::S5,
            State::S5 => State::S6,
            State::S6 => State::S7,
            State::S7 => State::S8,
            State::S8 => State::S9,
            State::S10 => State::S5,
            _ => State::Trap,
        },
        CharClass::FinalByte => match s {
            State::S1 | State::S2 | State::S4 | State::S5 | State::S6 | State::S7 | State::S8
                | State::S10 => State::S11,
            _ => State::Trap,
        },
        CharClass::Other => State::Trap,
    }
}

/// Whether `s` is an accepting position: the characters consumed so far form
/// a complete escape sequence.
pub open spec fn is_final_state(s: State) -> bool {
    match s {
        State::S3 | State::S5 | State::S6 | State::S7 | State::S8 | State::S9 | State::S11 => true,
        _ => false,
    }
}

/// Whether `s` is the trap position.
pub open spec fn is_trapped_state(s: State) -> bool {
    s is Trap
}

impl Default for State {
    /// A fresh automaton stands at `Start`.
    fn default() -> (r: Self)
        ensures
            r == State::Start,
    {
        Self::Start
    }
}

impl State {
    /// Whether the sequence consumed so far is a complete escape sequence.
    pub fn is_final(&self) -> (r: bool)
        ensures
            r == is_final_state(*self),
    {
        match self {
            Self::S3 | Self::S5 | Self::S6 | Self::S7 | Self::S8 | Self::S9 | Self::S11 => true,
            _ => false,
        }
    }

    /// Whether no continuation can extend the sequence any more.
    pub fn is_trapped(&self) -> (r: bool)
        ensures
            r == is_trapped_state(*self),
    {
        match self {
            Self::Trap => true,
            _ => false,
        }
    }

    /// Consumes one character.
    pub fn transition(&mut self, c: char)
        ensures
            *final(self) == spec_transition(*old(self), c),
    {
        let class = classify(c);
        *self = match class {
            CharClass::Introducer => match self {
                Self::Start => Self::S1,
                _ => Self::Trap,
            },
            CharClass::Paren => match self {
                Self::S1 => Self::S2,
                Self::S2 | Self::S4 => Self::S4,
                _ => Self::Trap,
            },
            CharClass::Semi => match self {
                Self::S1 | Self::S2 | Self::S4 => Self::S4,
                Self::S5 | Self::S6 | Self::S7 | Self::S8 | Self::S10 => Self::S10,
                _ => Self::Trap,
            },
            CharClass::Bracket => match self {
                Self::S1 | Self::S2 | Self::S4 => Self::S4,
                _ => Self::Trap,
            },
            CharClass::DigitLow => match self {
                Self::S1 | Self::S4 => Self::S5,
                Self::S2 => Self::S3,
                Self::S5 => Self::S6,
                Self::S6 => Self::S7,
                Self::S7 => Self::S8,
                Self::S8 => Self::S9,
                Self::S10 => Self::S5,
                _ => Self::Trap,
            },
            CharClass::DigitHigh => match self {
                Self::S1 | Self::S4 => Self::S5,
                Self::S2 => Self::S5,
                Self::S5 => Self::S6,
                Self::S6 => Self::S7,
                Self::S7 => Self::S8,
                Self::S8 => Self::S9,
                Self::S10 => Self::S5,
                _ => Self::Trap,
            },
            CharClass::FinalByte => match self {
                Self::S1 | Self::S2 | Self::S4 | Self::S5 | Self::S6 | Self::S7 | Self::S8
                    | Self::S10 => Self::S11,
                _ => Self::Trap,
            },
            CharClass::Other => Self::Trap,
        };
    }
}

/// The greedy step of one match attempt: the automaton stands in `st` just
/// before `text[i]`, and `best` is the exclusive end of the longest complete
/// sequence seen so far. The attempt keeps consuming until the automaton
/// traps or the input ends, and yields the last accepting end, if any.
pub open spec fn scan_step(text: Seq<char>, i: int, st: State, best: Option<int>) -> Option<int>
    decreases text.len() - i,
{
    if i < 0 || i >= text.len() {
        best
    } else {
        let st2 = spec_transition(st, text[i]);
        if is_trapped_state(st2) {
            best
        } else {
            let best2 = if is_final_state(st2) {
                Some(i + 1)
            } else {
                best
            };
            scan_step(text, i + 1, st2, best2)
        }
    }
}

/// The exclusive end of the greedy escape-sequence match beginning at
/// `start`, or `None` when no complete sequence begins there.
pub open spec fn match_end_at(text: Seq<char>, start: int) -> Option<int> {
    scan_step(text, start, State::Start, None)
}

/// The first escape sequence starting at or after `pos`, as a
/// `(start, exclusive end)` pair of scalar-value indices.
pub open spec fn find_spec(text: Seq<char>, pos: int) -> Option<(int, int)>
    decreases text.len() - pos,
{
    if pos < 0 || pos >= text.len() {
        None
    } else {
        match match_end_at(text, pos) {
            Some(end) => Some((pos, end)),
            None => find_spec(text, pos + 1),
        }
    }
}

/// Whether `text` contains an escape sequence at all.
pub open spec fn has_ansi_spec(text: Seq<char>) -> bool {
    find_spec(text, 0) is Some
}

/// A successful attempt ends after the position it started at and within the
/// input; its `best` end only ever grows.
proof fn lemma_scan_step_bounds(text: Seq<char>, i: int, st: State, best: Option<int>)
    requires
        0 <= i <= text.len(),
        best matches Some(b) ==> 0 < b <= i,
    ensures
        scan_step(text, i, st, best) matches Some(e) ==> 0 < e <= text.len(),
        best is Some ==> scan_step(text, i, st, best) is Some,
        match (best, scan_step(text, i, st, best)) {
            (Some(b), Some(e)) => b <= e,
            (None, Some(e)) => i < e,
            _ => true,
        },
    decreases text.len() - i,
{
    if i < text.len() {
        let st2 = spec_transition(st, text[i]);
        if !is_trapped_state(st2) {
            let best2 = if is_final_state(st2) {
                Some(i + 1)
            } else {
                best
            };
            lemma_scan_step_bounds(text, i + 1, st2, best2);
        }
    }
}

/// A found match lies between `pos` and the end of the input, and its end
/// lies strictly after its start.
pub proof fn lemma_find_spec_bounds(text: Seq<char>, pos: int)
    requires
        0 <= pos,
    ensures
        find_spec(text, pos) matches Some((s, e)) ==> pos <= s < e <= text.len(),
    decreases text.len() - pos,
{
    if pos < text.len() {
        match match_end_at(text, pos) {
            Some(end) => {
                lemma_scan_step_bounds(text, pos, State::Start, None);
                let st2 = spec_transition(State::Start, text[pos]);
                if is_trapped_state(st2) {
                    assert(scan_step(text, pos, State::Start, None) == None::<int>);
                } else {
                    let best2: Option<int> = if is_final_state(st2) {
                        Some(pos + 1)
                    } else {
                        None
                    };
                    lemma_scan_step_bounds(text, pos + 1, st2, best2);
                }
            },
            None => {
                lemma_find_spec_bounds(text, pos + 1);
            },
        }
    }
}

/// Maps the concrete pair of indices a scanner call returns to the spec's.
pub open spec fn found_view(r: Option<(usize, usize)>) -> Option<(int, int)> {
    match r {
        Some((s, e)) => Some((s as int, e as int)),
        None => None,
    }
}

/// Finds the next maximal escape sequence of `s` starting at or after the
/// scalar-value index `from`; matching is greedy, and a candidate introducer
/// that never completes a sequence is skipped.
pub fn find_ansi_code_exclusive(s: &str, from: usize) -> (r: Option<(usize, usize)>)
    requires
        from <= s@.len(),
    ensures
        found_view(r) == find_spec(s@, from as int),
        r matches Some((st, en)) ==> from <= st < en <= s@.len(),
{
    let n = s.unicode_len();
    let mut pos = from;
    while pos < n
        invariant
            from <= pos <= n,
            n == s@.len(),
            find_spec(s@, from as int) == find_spec(s@, pos as int),
        decreases n - pos,
    {
        // one greedy match attempt at `pos`
        let mut st = State::Start;
        let mut best: Option<usize> = None;
        let mut i = pos;
        loop
            invariant_except_break
                !is_trapped_state(st),
                match_end_at(s@, pos as int) == scan_step(s@, i as int, st, found_end_view(best)),
            invariant
                pos <= i <= n,
                n == s@.len(),
                best matches Some(b) ==> pos < b <= i,
            ensures
                match_end_at(s@, pos as int) == found_end_view(best),
            decreases n - i,
        {
            if i == n {
                assert(scan_step(s@, i as int, st, found_end_view(best)) == found_end_view(best));
                break;
            }
            let c = s.get_char(i);
            let ghost st_before = st;
            st.transition(c);
            if st.is_trapped() {
                assert(scan_step(s@, i as int, st_before, found_end_view(best))
                    == found_end_view(best));
                break;
            }
            if st.is_final() {
                best = Some(i + 1);
            }
            i = i + 1;
        }
        match best {
            Some(e) => {
                assert(find_spec(s@, pos as int) == Some((pos as int, e as int)));
                return Some((pos, e));
            },
            None => {
                assert(find_spec(s@, pos as int) == find_spec(s@, pos + 1));
                pos = pos + 1;
            },
        }
    }
    None
}

/// Maps the concrete inner-loop accumulator to the spec's.
pub open spec fn found_end_view(b: Option<usize>) -> Option<int> {
    match b {
        Some(e) => Some(e as int),
        None => None,
    }
}

/// The spans of `text` from `pos` on: for each match, the non-escape run
/// before it (when non-empty) and then the escape run itself; after the last
/// match, the trailing non-escape run (when non-empty). Each span carries
/// `true` when it is an escape sequence.
pub open spec fn spans_from(text: Seq<char>, pos: int) -> Seq<(Seq<char>, bool)>
    decreases text.len() - pos,
{
    if pos < 0 || pos >= text.len() {
        Seq::empty()
    } else {
        match find_spec(text, pos) {
            None => seq![(text.subrange(pos, text.len() as int), false)],
            Some((s, e)) => {
                proof {
                    lemma_find_spec_bounds(text, pos);
                }
                if s > pos {
                    seq![(text.subrange(pos, s), false)] + (seq![(text.subrange(s, e), true)]
                        + spans_from(text, e))
                } else {
                    seq![(text.subrange(s, e), true)] + spans_from(text, e)
                }
            },
        }
    }
}

/// All the spans of `text`, in order.
pub open spec fn spans_of(text: Seq<char>) -> Seq<(Seq<char>, bool)> {
    spans_from(text, 0)
}

/// The concatenation of a sequence of spans.
pub open spec fn concat_spans(sp: Seq<(Seq<char>, bool)>) -> Seq<char>
    decreases sp.len(),
{
    if sp.len() == 0 {
        Seq::empty()
    } else {
        sp[0].0 + concat_spans(sp.drop_first())
    }
}

/// The concatenation of the non-escape spans only.
pub open spec fn strip_of_spans(sp: Seq<(Seq<char>, bool)>) -> Seq<char>
    decreases sp.len(),
{
    if sp.len() == 0 {
        Seq::empty()
    } else if sp[0].1 {
        strip_of_spans(sp.drop_first())
    } else {
        sp[0].0 + strip_of_spans(sp.drop_first())
    }
}

/// `text` with all escape sequences removed.
pub open spec fn strip_spec(text: Seq<char>) -> Seq<char> {
    strip_of_spans(spans_of(text))
}

/// Concatenation distributes over putting one span in front.
proof fn lemma_concat_spans_cons(x: (Seq<char>, bool), rest: Seq<(Seq<char>, bool)>)
    ensures
        concat_spans(seq![x] + rest) == x.0 + concat_spans(rest),
{
    let sp = seq![x] + rest;
    assert(sp[0] == x);
    assert(sp.drop_first() =~= rest);
}

/// Stripping distributes over putting one span in front.
proof fn lemma_strip_of_spans_cons(x: (Seq<char>, bool), rest: Seq<(Seq<char>, bool)>)
    ensures
        strip_of_spans(seq![x] + rest) == if x.1 {
            strip_of_spans(rest)
        } else {
            x.0 + strip_of_spans(rest)
        },
{
    let sp = seq![x] + rest;
    assert(sp[0] == x);
    assert(sp.drop_first() =~= rest);
}

/// The spans from `pos` on partition the rest of the text: concatenated in
/// order they reproduce it exactly, with no gaps and no overlaps.
pub proof fn lemma_spans_partition_from(text: Seq<char>, pos: int)
    requires
        0 <= pos <= text.len(),
    ensures
        concat_spans(spans_from(text, pos)) == text.subrange(pos, text.len() as int),
    decreases text.len() - pos,
{
    let len = text.len() as int;
    if pos >= len {
        assert(text.subrange(pos, len) =~= Seq::<char>::empty());
    } else {
        match find_spec(text, pos) {
            None => {
                lemma_concat_spans_cons(
                    (text.subrange(pos, len), false),
                    Seq::<(Seq<char>, bool)>::empty(),
                );
                assert(spans_from(text, pos) =~= seq![(text.subrange(pos, len), false)]
                    + Seq::<(Seq<char>, bool)>::empty());
                assert(text.subrange(pos, len) + Seq::<char>::empty() =~= text.subrange(pos, len));
            },
            Some((s, e)) => {
                lemma_find_spec_bounds(text, pos);
                lemma_spans_partition_from(text, e);
                let rest = spans_from(text, e);
                lemma_concat_spans_cons((text.subrange(s, e), true), rest);
                if s > pos {
                    lemma_concat_spans_cons(
                        (text.subrange(pos, s), false),
                        seq![(text.subrange(s, e), true)] + rest,
                    );
                    assert(text.subrange(pos, s) + (text.subrange(s, e) + text.subrange(e, len))
                        =~= text.subrange(pos, len));
                } else {
                    assert(text.subrange(s, e) + text.subrange(e, len) =~= text.subrange(
                        pos,
                        len,
                    ));
                }
            },
        }
    }
}

/// Concatenating all spans of a string, in order, reproduces it exactly.
pub proof fn lemma_spans_partition(text: Seq<char>)
    ensures
        concat_spans(spans_of(text)) == text,
{
    lemma_spans_partition_from(text, 0);
    assert(text.subrange(0, text.len() as int) =~= text);
}

/// A text without introducer characters holds no escape sequence.
pub proof fn lemma_no_introducer_no_match(text: Seq<char>, pos: int)
    requires
        0 <= pos,
        forall|i: int| 0 <= i < text.len() ==> !is_introducer(#[trigger] text[i]),
    ensures
        find_spec(text, pos) is None,
    decreases text.len() - pos,
{
    if pos < text.len() {
        assert(is_trapped_state(spec_transition(State::Start, text[pos])));
        assert(scan_step(text, pos, State::Start, None) == None::<int>);
        lemma_no_introducer_no_match(text, pos + 1);
    }
}

/// A string without introducer characters holds no escape sequence, and
/// stripping returns it unchanged.
pub proof fn lemma_no_introducer_strip_identity(text: Seq<char>)
    requires
        forall|i: int| 0 <= i < text.len() ==> !is_introducer(#[trigger] text[i]),
    ensures
        !has_ansi_spec(text),
        strip_spec(text) == text,
{
    lemma_no_introducer_no_match(text, 0);
    lemma_no_match_strip_identity(text);
}

/// Stripping a text that holds no escape sequence returns it unchanged.
pub proof fn lemma_no_match_strip_identity(text: Seq<char>)
    requires
        !has_ansi_spec(text),
    ensures
        strip_spec(text) == text,
{
    let len = text.len() as int;
    if text.len() == 0 {
        assert(strip_spec(text) =~= text);
    } else {
        lemma_strip_of_spans_cons(
            (text.subrange(0, len), false),
            Seq::<(Seq<char>, bool)>::empty(),
        );
        assert(spans_of(text) =~= seq![(text.subrange(0, len), false)]
            + Seq::<(Seq<char>, bool)>::empty());
        assert(text.subrange(0, len) + Seq::<char>::empty() =~= text.subrange(0, len));
        assert(text.subrange(0, len) =~= text);
    }
}

/// One recognized escape sequence of `text`: the scalar-value offsets
/// `start` (inclusive) to `end` (exclusive).
#[derive(Debug, Clone, Copy)]
pub struct Match<'a> {
    pub text: &'a str,
    pub start: usize,
    pub end: usize,
}

impl<'a> Match<'a> {
    /// The offsets lie within the text, in order.
    pub open spec fn wf(self) -> bool {
        self.start <= self.end <= self.text@.len()
    }

    /// The matched run of characters.
    pub fn as_str(&self) -> (r: &'a str)
        requires
            self.wf(),
        ensures
            r@ == self.text@.subrange(self.start as int, self.end as int),
    {
        self.text.substring_char(self.start, self.end)
    }
}

/// Repeated scanning over one input: each call to `next` yields the next
/// non-overlapping escape-sequence match, in order.
#[derive(Debug, Clone, Copy)]
pub struct Matches<'a> {
    pub text: &'a str,
    pub pos: usize,
}

impl<'a> Matches<'a> {
    /// The cursor lies within the text.
    pub open spec fn wf(self) -> bool {
        self.pos <= self.text@.len()
    }

    /// A scanner over `s`, starting at its beginning.
    pub fn new(s: &'a str) -> (r: Matches<'a>)
        ensures
            r.wf(),
            r.text == s,
            r.pos == 0,
    {
        Matches { text: s, pos: 0 }
    }

    /// The next match at or after the cursor; the cursor then stands at its
    /// end, so that consecutive matches never overlap.
    pub fn next(&mut self) -> (r: Option<Match<'a>>)
        requires
            old(self).wf(),
        ensures
            final(self).wf(),
            final(self).text == old(self).text,
            match r {
                Some(m) => {
                    &&& m.wf()
                    &&& m.text == old(self).text
                    &&& find_spec(old(self).text@, old(self).pos as int) == Some(
                        (m.start as int, m.end as int),
                    )
                    &&& final(self).pos == m.end
                },
                None => {
                    &&& find_spec(old(self).text@, old(self).pos as int) is None
                    &&& final(self).pos == old(self).pos
                },
            },
    {
        match find_ansi_code_exclusive(self.text, self.pos) {
            Some((s, e)) => {
                self.pos = e;
                Some(Match { text: self.text, start: s, end: e })
            },
            None => None,
        }
    }
}

/// An iterator over the spans of a string: pairs `(span, is_escape)` whose
/// concatenation in order reproduces the string exactly.
#[derive(Debug, Clone, Copy)]
pub struct AnsiCodeIterator<'a> {
    pub s: &'a str,
    pub pending: Option<(usize, usize)>,
    pub pos: usize,
}

impl<'a> AnsiCodeIterator<'a> {
    /// The scan position lies within the text, and a pending escape span
    /// ends exactly at the scan position.
    pub open spec fn wf(self) -> bool {
        &&& self.pos <= self.s@.len()
        &&& match self.pending {
            Some((ps, pe)) => ps < pe && pe == self.pos,
            None => true,
        }
    }

    /// The spans not yet yielded.
    pub open spec fn remaining(self) -> Seq<(Seq<char>, bool)> {
        match self.pending {
            Some((ps, pe)) => seq![(self.s@.subrange(ps as int, pe as int), true)] + spans_from(
                self.s@,
                self.pos as int,
            ),
            None => spans_from(self.s@, self.pos as int),
        }
    }

    /// An iterator over the spans of `s`.
    pub fn new(s: &'a str) -> (r: AnsiCodeIterator<'a>)
        ensures
            r.wf(),
            r.s == s,
            r.remaining() == spans_of(s@),
    {
        AnsiCodeIterator { s, pending: None, pos: 0 }
    }

    /// Yields the first remaining span, or `None` once all spans are out.
    pub fn next(&mut self) -> (r: Option<(&'a str, bool)>)
        requires
            old(self).wf(),
        ensures
            final(self).wf(),
            final(self).s == old(self).s,
            ({
                let rem = old(self).remaining();
                if rem.len() > 0 {
                    match r {
                        Some(p) => p.0@ == rem[0].0 && p.1 == rem[0].1 && final(self).remaining()
                            == rem.drop_first(),
                        None => false,
                    }
                } else {
                    r is None && final(self).remaining() == rem
                }
            }),
    {
        let ghost rem = old(self).remaining();
        match self.pending {
            Some((ps, pe)) => {
                self.pending = None;
                let t = self.s.substring_char(ps, pe);
                proof {
                    assert(rem.drop_first() =~= spans_from(self.s@, self.pos as int));
                }
                Some((t, true))
            },
            None => {
                match find_ansi_code_exclusive(self.s, self.pos) {
                    Some((ms, me)) => {
                        if ms > self.pos {
                            let t = self.s.substring_char(self.pos, ms);
                            let ghost p0 = self.pos as int;
                            self.pending = Some((ms, me));
                            self.pos = me;
                            proof {
                                assert(rem == seq![(self.s@.subrange(p0, ms as int), false)] + (
                                seq![(self.s@.subrange(ms as int, me as int), true)] + spans_from(
                                    self.s@,
                                    me as int,
                                )));
                                assert(rem.drop_first() =~= seq![
                                    (self.s@.subrange(ms as int, me as int), true),
                                ] + spans_from(self.s@, me as int));
                            }
                            Some((t, false))
                        } else {
                            let t = self.s.substring_char(ms, me);
                            self.pos = me;
                            proof {
                                assert(rem == seq![(self.s@.subrange(ms as int, me as int), true)]
                                    + spans_from(self.s@, me as int));
                                assert(rem.drop_first() =~= spans_from(self.s@, me as int));
                            }
                            Some((t, true))
                        }
                    },
                    None => {
                        let n = self.s.unicode_len();
                        if self.pos < n {
                            let t = self.s.substring_char(self.pos, n);
                            let ghost p0 = self.pos as int;
                            self.pos = n;
                            proof {
                                assert(rem == seq![(self.s@.subrange(p0, n as int), false)]);
                                assert(rem.drop_first() =~= spans_from(self.s@, n as int));
                            }
                            Some((t, false))
                        } else {
                            None
                        }
                    },
                }
            },
        }
    }
}

/// Strips all escape sequences from `s`: scans once, and when no sequence is
/// present returns the text as it stands; otherwise concatenates the
/// non-escape spans.
pub fn strip_ansi_codes(s: &str) -> (r: String)
    ensures
        r@ == strip_spec(s@),
        !has_ansi_spec(s@) ==> r@ == s@,
{
    match find_ansi_code_exclusive(s, 0) {
        None => {
            proof {
                lemma_no_match_strip_identity(s@);
            }
            s.to_owned()
        },
        Some(_) => {
            let mut it = AnsiCodeIterator::new(s);
            let mut out = String::new();
            proof {
                assert(Seq::<char>::empty() + strip_of_spans(it.remaining()) =~= strip_of_spans(
                    it.remaining(),
                ));
            }
            loop
                invariant
                    it.wf(),
                    it.s == s,
                    out@ + strip_of_spans(it.remaining()) == strip_spec(s@),
                ensures
                    it.remaining().len() == 0,
                decreases it.remaining().len(),
            {
                let ghost rem = it.remaining();
                match it.next() {
                    Some((t, is_esc)) => {
                        proof {
                            assert(strip_of_spans(rem) == if rem[0].1 {
                                strip_of_spans(rem.drop_first())
                            } else {
                                rem[0].0 + strip_of_spans(rem.drop_first())
                            });
                        }
                        if !is_esc {
                            out.append(t);
                            proof {
                                assert(out@ + strip_of_spans(it.remaining()) =~= strip_spec(s@));
                            }
                        }
                    },
                    None => {
                        break;
                    },
                }
            }
            proof {
                assert(out@ + strip_of_spans(it.remaining()) =~= out@);
            }
            out
        },
    }
}

/// Stripping is idempotent whenever one pass removes every escape sequence:
/// if the stripped text holds no further match, stripping it again changes
/// nothing. (One pass does not always reach that point: removing a sequence
/// can join a dangling introducer with the text after the removal into a new
/// sequence.)
pub proof fn lemma_strip_idempotent(text: Seq<char>)
    requires
        !has_ansi_spec(strip_spec(text)),
    ensures
        strip_spec(strip_spec(text)) == strip_spec(text),
{
    lemma_no_match_strip_identity(strip_spec(text));
}

/// The non-escape spans never concatenate to more than all spans together.
proof fn lemma_strip_le_concat(sp: Seq<(Seq<char>, bool)>)
    ensures
        strip_of_spans(sp).len() <= concat_spans(sp).len(),
    decreases sp.len(),
{
    if sp.len() > 0 {
        lemma_strip_le_concat(sp.drop_first());
    }
}

/// Stripping a text that holds an escape sequence makes it strictly
/// shorter: at least the first matched sequence is gone.
pub proof fn lemma_strip_shortens(text: Seq<char>)
    requires
        has_ansi_spec(text),
    ensures
        strip_spec(text).len() < text.len(),
{
    let len = text.len() as int;
    match find_spec(text, 0) {
        Some((s, e)) => {
            lemma_find_spec_bounds(text, 0);
            let rest = spans_from(text, e);
            lemma_strip_le_concat(rest);
            lemma_spans_partition_from(text, e);
            lemma_strip_of_spans_cons((text.subrange(s, e), true), rest);
            if s > 0 {
                lemma_strip_of_spans_cons(
                    (text.subrange(0, s), false),
                    seq![(text.subrange(s, e), true)] + rest,
                );
                assert(strip_spec(text).len() <= s + (len - e));
            } else {
                assert(strip_spec(text).len() <= len - e);
            }
        },
        None => {
            assert(false);
        },
    }
}

/// One pass reaches a fixed point exactly when it removed every escape
/// sequence: stripping is idempotent on `text` if and only if the stripped
/// text holds no further match.
pub proof fn lemma_strip_idempotent_iff(text: Seq<char>)
    ensures
        strip_spec(strip_spec(text)) == strip_spec(text) <==> !has_ansi_spec(strip_spec(text)),
{
    if has_ansi_spec(strip_spec(text)) {
        lemma_strip_shortens(strip_spec(text));
    } else {
        lemma_no_match_strip_identity(strip_spec(text));
    }
}

} // verus!
