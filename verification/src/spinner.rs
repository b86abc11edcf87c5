//! The spinner renderer: the prompt's visual configuration, the placeholder
//! column arithmetic, the cyclic glyph cursor, and the exact sequence of
//! terminal writes one render emits.

use vstd::prelude::*;

use crate::ansi::strip_ansi_codes;
use crate::ansi::strip_spec;
use crate::escapes::cursor_backward;
use crate::escapes::cursor_hide;
use crate::escapes::cursor_restore_position;
use crate::escapes::cursor_save_position;
use crate::escapes::cursor_show;
use crate::escapes::color_on;
use crate::escapes::color_reset;
use crate::escapes::esc_color_on;
use crate::escapes::esc_color_reset;
use crate::escapes::esc_cursor_backward;
use crate::escapes::esc_cursor_hide;
use crate::escapes::esc_cursor_restore;
use crate::escapes::esc_cursor_save;
use crate::escapes::esc_cursor_show;
use crate::escapes::push_char;

verus! {

broadcast use vstd::seq::group_seq_axioms;

/// What one render call stands for: the initial empty indicator, one typed
/// character, one erased character, or a keystroke in secure mode.
#[derive(Debug, Clone, Copy, PartialEq, Eq, Structural)]
pub enum SpinType {
    Empty,
    Forward,
    Backward,
    Secure,
}

/// The spinner's visual configuration: the two color codes, the rotating
/// glyphs, the fixed glyphs for the empty and the secure indicator, and the
/// prompt template with its `$` placeholder marker.
#[derive(Debug, Clone)]
pub struct Prompt {
    pub icons_ansi_color: u8,
    pub prompt_ansi_color: u8,
    pub characters: Vec<char>,
    pub empty: char,
    pub secure: char,
    pub prompt_text: String,
}

/// The built-in rotating glyphs: four turns of a six-phase moon.
pub open spec fn default_glyphs() -> Seq<char> {
    seq![
        '\u{e3e2}',
        '\u{e3e1}',
        '\u{e3e0}',
        '\u{e3df}',
        '\u{e3de}',
        '\u{e3dd}',
        '\u{e3db}',
        '\u{e3da}',
        '\u{e3d9}',
        '\u{e3d8}',
        '\u{e3d7}',
        '\u{e3d6}',
        '\u{e3d4}',
        '\u{e3d3}',
        '\u{e3d2}',
        '\u{e3d1}',
        '\u{e3d0}',
        '\u{e3cf}',
        '\u{e3cd}',
        '\u{e3cc}',
        '\u{e3cb}',
        '\u{e3ca}',
        '\u{e3c9}',
        '\u{e3c8}',
    ]
}

/// The built-in prompt template.
pub open spec fn default_prompt_text() -> Seq<char> {
    "Enter password < $ > "@
}

/// The built-in rotating glyphs, as a vector.
pub fn default_characters() -> (r: Vec<char>)
    ensures
        r@ == default_glyphs(),
{
    let v: Vec<char> = vec![
        '\u{e3e2}',
        '\u{e3e1}',
        '\u{e3e0}',
        '\u{e3df}',
        '\u{e3de}',
        '\u{e3dd}',
        '\u{e3db}',
        '\u{e3da}',
        '\u{e3d9}',
        '\u{e3d8}',
        '\u{e3d7}',
        '\u{e3d6}',
        '\u{e3d4}',
        '\u{e3d3}',
        '\u{e3d2}',
        '\u{e3d1}',
        '\u{e3d0}',
        '\u{e3cf}',
        '\u{e3cd}',
        '\u{e3cc}',
        '\u{e3cb}',
        '\u{e3ca}',
        '\u{e3c9}',
        '\u{e3c8}',
    ];
    proof {
        assert(v@ =~= default_glyphs());
    }
    v
}

/// Whether `p` is exactly the built-in configuration.
pub open spec fn is_default_prompt(p: Prompt) -> bool {
    &&& p.icons_ansi_color == 36
    &&& p.prompt_ansi_color == 33
    &&& p.characters@ == default_glyphs()
    &&& p.empty == '\u{f10d3}'
    &&& p.secure == '\u{f099d}'
    &&& p.prompt_text@ == default_prompt_text()
}

impl Default for Prompt {
    /// The built-in configuration: cyan glyphs, a yellow prompt, the moon
    /// glyph cycle, and the default template.
    fn default() -> (r: Self)
        ensures
            is_default_prompt(r),
    {
        Prompt {
            icons_ansi_color: 36,
            prompt_ansi_color: 33,
            characters: default_characters(),
            empty: '\u{f10d3}',
            secure: '\u{f099d}',
            prompt_text: String::from_str("Enter password < $ > "),
        }
    }
}

/// The first position in `s` at or after `i` that holds `c`, or the length
/// of `s` when there is none.
pub open spec fn first_pos_from(s: Seq<char>, c: char, i: int) -> int
    decreases s.len() - i,
{
    if i < 0 || i >= s.len() {
        s.len() as int
    } else if s[i] == c {
        i
    } else {
        first_pos_from(s, c, i + 1)
    }
}

/// The first position of `c` in `s`, or the length of `s` when absent.
pub open spec fn first_pos(s: Seq<char>, c: char) -> int {
    first_pos_from(s, c, 0)
}

/// Whether `s` holds `c` at all.
pub open spec fn has_char(s: Seq<char>, c: char) -> bool {
    first_pos(s, c) < s.len()
}

/// `first_pos_from` lands on the first occurrence at or after `i`, or on
/// the length when the character never occurs there.
proof fn lemma_first_pos_from_properties(s: Seq<char>, c: char, i: int)
    requires
        0 <= i <= s.len(),
    ensures
        i <= first_pos_from(s, c, i) <= s.len(),
        first_pos_from(s, c, i) < s.len() ==> s[first_pos_from(s, c, i)] == c,
        forall|j: int| i <= j < first_pos_from(s, c, i) ==> s[j] != c,
    decreases s.len() - i,
{
    if i < s.len() && s[i] != c {
        lemma_first_pos_from_properties(s, c, i + 1);
    }
}

/// `has_char` means exactly that the character occurs somewhere.
pub proof fn lemma_has_char_exists(s: Seq<char>, c: char)
    ensures
        has_char(s, c) <==> exists|i: int| 0 <= i < s.len() && s[i] == c,
{
    lemma_first_pos_from_properties(s, c, 0);
    if has_char(s, c) {
        assert(s[first_pos(s, c)] == c);
    }
}

/// The placeholder column offset of a prompt template: how many columns lie
/// from the `$` marker to the end of the escape-stripped template.
pub open spec fn placeholder_offset(prompt_text: Seq<char>) -> int {
    strip_spec(prompt_text).len() - first_pos(strip_spec(prompt_text), '$')
}

/// Computes the placeholder column offset of `prompt_text`, stripping any
/// escape sequences the template itself carries before measuring.
pub fn spinner_offset(prompt_text: &str) -> (r: usize)
    requires
        has_char(strip_spec(prompt_text@), '$'),
    ensures
        r as int == placeholder_offset(prompt_text@),
{
    let stripped = strip_ansi_codes(prompt_text);
    let n = stripped.as_str().unicode_len();
    let mut i: usize = 0;
    while i < n
        invariant
            0 <= i <= n,
            stripped@ == strip_spec(prompt_text@),
            n == stripped@.len(),
            first_pos(stripped@, '$') == first_pos_from(stripped@, '$', i as int),
        decreases n - i,
    {
        if stripped.as_str().get_char(i) == '$' {
            return n - i;
        }
        i = i + 1;
    }
    proof {
        assert(first_pos_from(stripped@, '$', n as int) == n);
        assert(false);
    }
    vstd::pervasive::unreached()
}

/// The column the glyph is drawn at, left of the saved cursor: the
/// placeholder offset plus the buffer length, except in secure mode, where
/// the buffer length reveals nothing and the column stays pinned.
pub open spec fn effective_offset_spec(way: SpinType, offset: int, buffer_len: int) -> int {
    if way is Secure {
        offset
    } else {
        offset + buffer_len
    }
}

/// Computes the effective backward offset for one render.
pub fn effective_offset(way: SpinType, offset: usize, buffer_len: usize) -> (r: usize)
    requires
        offset + buffer_len <= usize::MAX,
    ensures
        r as int == effective_offset_spec(way, offset as int, buffer_len as int),
{
    if way == SpinType::Secure {
        offset
    } else {
        offset + buffer_len
    }
}

/// In secure mode the glyph column never moves: the effective offset is the
/// placeholder offset whatever the buffer holds.
pub proof fn lemma_secure_offset_pinned(offset: int, len1: int, len2: int)
    ensures
        effective_offset_spec(SpinType::Secure, offset, len1) == effective_offset_spec(
            SpinType::Secure,
            offset,
            len2,
        ),
        effective_offset_spec(SpinType::Secure, offset, len1) == offset,
{
}

/// The cyclic cursor after one forward draw.
pub open spec fn cycle_next(idx: int, n: int) -> int {
    (idx + 1) % n
}

/// The cyclic cursor after the backward correction: stepping forward by
/// `n - 1` positions, which wraps to one position back.
pub open spec fn cycle_backward(idx: int, n: int) -> int {
    (idx + n - 1) % n
}

/// The index the backward correction draws before it advances: the glyph
/// two positions back from the one a forward draw would show next.
pub open spec fn backward_draw_index(idx: int, n: int) -> int {
    if n == 1 {
        0
    } else {
        (idx + n - 2) % n
    }
}

/// The cyclic cursor after `k` forward draws from `idx`.
pub open spec fn cycle_forward(idx: int, k: nat, n: int) -> int
    decreases k,
{
    if k == 0 {
        idx
    } else {
        cycle_forward((idx + 1) % n, (k - 1) as nat, n)
    }
}

/// `k` forward draws from a position inside the cycle land on plain modular
/// addition.
proof fn lemma_cycle_forward_mod(idx: int, k: nat, n: int)
    requires
        n > 0,
        0 <= idx < n,
    ensures
        cycle_forward(idx, k, n) == (idx + k) % n,
    decreases k,
{
    vstd::arithmetic::div_mod::lemma_small_mod(idx as nat, n as nat);
    if k > 0 {
        lemma_cycle_forward_mod((idx + 1) % n, (k - 1) as nat, n);
        vstd::arithmetic::div_mod::lemma_mod_bound(idx + 1, n);
        vstd::arithmetic::div_mod::lemma_add_mod_noop(idx + 1, k - 1, n);
        vstd::arithmetic::div_mod::lemma_mod_twice(idx + 1, n);
        vstd::arithmetic::div_mod::lemma_add_mod_noop((idx + 1) % n, k - 1, n);
    }
}

/// The backward glyph-cycle law: after a forward run of net advance `k`
/// from the start of a glyph set of size `n`, one backward correction
/// leaves the cyclic cursor at `(k + (n - 1)) % n` — one position behind
/// the pure-forward cursor at `k % n`.
pub proof fn lemma_backward_glyph_cycle(k: nat, n: int)
    requires
        n > 0,
    ensures
        cycle_forward(0, k, n) == (k as int) % n,
        cycle_backward(cycle_forward(0, k, n), n) == (k as int + (n - 1)) % n,
{
    lemma_cycle_forward_mod(0, k, n);
    vstd::arithmetic::div_mod::lemma_mod_twice(k as int, n);
    vstd::arithmetic::div_mod::lemma_add_mod_noop(k as int, n - 1, n);
    vstd::arithmetic::div_mod::lemma_mod_bound(n - 1, n);
    vstd::arithmetic::div_mod::lemma_small_mod((n - 1) as nat, n as nat);
}

/// The glyph one render draws.
pub open spec fn render_glyph(way: SpinType, p: Prompt, cursor: int) -> char {
    match way {
        SpinType::Empty => p.empty,
        SpinType::Secure => p.secure,
        SpinType::Forward => p.characters@[cursor],
        SpinType::Backward => p.characters@[backward_draw_index(
            cursor,
            p.characters@.len() as int,
        )],
    }
}

/// The cyclic cursor after one render: a forward draw advances it one
/// position, the backward correction wraps it one position back, and the
/// fixed glyphs leave it alone.
pub open spec fn next_cursor(way: SpinType, cursor: int, n: int) -> int {
    match way {
        SpinType::Forward => cycle_next(cursor, n),
        SpinType::Backward => cycle_backward(cursor, n),
        _ => cursor,
    }
}

/// Everything one render writes, in order: hide the cursor, save its
/// position, move left to the glyph column, draw the colorized glyph, then
/// restore the position and show the cursor again.
pub open spec fn render_spec(way: SpinType, p: Prompt, buffer_len: int, cursor: int) -> Seq<
    char,
> {
    esc_cursor_hide() + esc_cursor_save() + esc_cursor_backward(
        effective_offset_spec(way, placeholder_offset(p.prompt_text@), buffer_len) as nat,
    ) + esc_color_on(p.icons_ansi_color as nat) + seq![render_glyph(way, p, cursor)]
        + esc_color_reset() + esc_cursor_restore() + esc_cursor_show()
}

/// Emits one render as a single string of terminal writes and advances the
/// cyclic glyph cursor as the draw demands.
pub fn render(way: SpinType, prompt: &Prompt, buffer_len: usize, cursor: &mut usize) -> (out:
    String)
    requires
        prompt.characters.len() > 0,
        *old(cursor) < prompt.characters.len(),
        has_char(strip_spec(prompt.prompt_text@), '$'),
        placeholder_offset(prompt.prompt_text@) + buffer_len <= u16::MAX,
    ensures
        out@ == render_spec(way, *prompt, buffer_len as int, *old(cursor) as int),
        *final(cursor) as int == next_cursor(
            way,
            *old(cursor) as int,
            prompt.characters@.len() as int,
        ),
        *final(cursor) < prompt.characters.len(),
{
    let off = spinner_offset(prompt.prompt_text.as_str());
    let eff = effective_offset(way, off, buffer_len);
    let n = prompt.characters.len();
    let glyph: char = match way {
        SpinType::Empty => prompt.empty,
        SpinType::Secure => prompt.secure,
        SpinType::Forward => {
            let g = prompt.characters[*cursor];
            *cursor = (*cursor + 1) % n;
            g
        },
        SpinType::Backward => {
            let gi = if n >= 2 {
                if *cursor >= 2 {
                    *cursor - 2
                } else {
                    n - 2 + *cursor
                }
            } else {
                0
            };
            proof {
                let c0 = *old(cursor) as int;
                let ni = n as int;
                if n >= 2 {
                    if c0 >= 2 {
                        vstd::arithmetic::div_mod::lemma_mod_add_multiples_vanish(c0 - 2, ni);
                        vstd::arithmetic::div_mod::lemma_small_mod((c0 - 2) as nat, ni as nat);
                    } else {
                        vstd::arithmetic::div_mod::lemma_small_mod(
                            (ni - 2 + c0) as nat,
                            ni as nat,
                        );
                    }
                }
                assert(gi as int == backward_draw_index(c0, ni));
            }
            let g = prompt.characters[gi];
            let nc = if gi + 1 == n {
                0
            } else {
                gi + 1
            };
            proof {
                let c0 = *old(cursor) as int;
                let ni = n as int;
                if n >= 2 {
                    vstd::arithmetic::div_mod::lemma_add_mod_noop(c0 + ni - 2, 1, ni);
                    vstd::arithmetic::div_mod::lemma_small_mod(1 as nat, ni as nat);
                    if gi + 1 == n {
                        vstd::arithmetic::div_mod::lemma_mod_self_0(ni);
                    } else {
                        vstd::arithmetic::div_mod::lemma_small_mod((gi + 1) as nat, ni as nat);
                    }
                } else {
                    vstd::arithmetic::div_mod::lemma_mod_bound(c0 + ni - 1, ni);
                }
                assert(nc as int == cycle_backward(c0, ni));
            }
            *cursor = nc;
            g
        },
    };
    let mut out = cursor_hide();
    out.append(cursor_save_position().as_str());
    out.append(cursor_backward(eff as u16).as_str());
    out.append(color_on(prompt.icons_ansi_color).as_str());
    push_char(&mut out, glyph);
    out.append(color_reset().as_str());
    out.append(cursor_restore_position().as_str());
    out.append(cursor_show().as_str());
    proof {
        assert(out@ =~= render_spec(way, *prompt, buffer_len as int, *old(cursor) as int));
    }
    out
}

} // verus!
