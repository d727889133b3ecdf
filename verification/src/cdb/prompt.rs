//! Prompt detection and output cleaning for the cdb REPL.
//!
//! The cdb prompt looks like `0:000> `, `1:1:012> `, or `0:000:x86> `. When
//! a command produces no visible output cdb emits the next prompt directly
//! after the previous one (no newline), so `>` followed by one white-space
//! character is also accepted as the separator before a prompt.
//!
//! A prompt at the end of the text is recognised by the grammar
//!
//! ```text
//! (^ | \r\n | \n | > \s) \d+ : [0-9a-fA-F]+ ( : [0-9a-zA-Z]+ )? > \s* <end>
//! ```
//!
//! (the optional last part is the processor-mode suffix, such as `x86`),
//! where `^` is the start of the text or the position after a `\n`, `\d` is
//! a Unicode decimal digit (`\p{Nd}`) and `\s` Unicode white space. The
//! reported match is the leftmost one.

use vstd::prelude::*;

use crate::text::{
    chars_of, is_prefix, is_white_space, string_of, trim_end, trim_end_length,
    utf8_len, utf8_len_prefix, white_space, has_prefix, lemma_trim_end_len_bound, chars_eq,
};

verus! {

/// Whether the regex class `\d` (`\p{Nd}`) of the `regex` crate matches a
/// character.
pub uninterp spec fn regex_decimal_digit(c: char) -> bool;

/// Calls `regex::Regex::new` and `Regex::is_match` to test one character
/// against `\d`; the result is named `regex_decimal_digit` of the
/// character.
#[verifier::external_body]
fn regex_is_decimal_digit(c: char) -> (r: bool)
    ensures
        r == regex_decimal_digit(c),
{
    let mut buf = [0u8; 4];
    match regex::Regex::new(r"\A\d\z") {
        Ok(re) => re.is_match(c.encode_utf8(&mut buf)),
        Err(_) => false,
    }
}

/// `\d`: the ASCII decimal digits, which are the only ASCII members of
/// `\p{Nd}`, and otherwise what the regex crate's class decides.
pub open spec fn is_decimal_digit(c: char) -> bool {
    if (c as u32) < 0x80 {
        '0' <= c && c <= '9'
    } else {
        regex_decimal_digit(c)
    }
}

/// `[0-9a-fA-F]`.
pub open spec fn is_hex_digit(c: char) -> bool {
    ('0' <= c && c <= '9') || ('a' <= c && c <= 'f') || ('A' <= c && c <= 'F')
}

/// `[0-9a-zA-Z]`.
pub open spec fn is_ascii_alnum(c: char) -> bool {
    ('0' <= c && c <= '9') || ('a' <= c && c <= 'z') || ('A' <= c && c <= 'Z')
}

/// End of the run of decimal digits of `t` starting at `i`.
pub open spec fn digit_run_end(t: Seq<char>, i: int) -> int
    decreases t.len() - i,
{
    if 0 <= i < t.len() && is_decimal_digit(t[i]) {
        digit_run_end(t, i + 1)
    } else {
        i
    }
}

/// End of the run of hexadecimal digits of `t` starting at `i`.
pub open spec fn hex_run_end(t: Seq<char>, i: int) -> int
    decreases t.len() - i,
{
    if 0 <= i < t.len() && is_hex_digit(t[i]) {
        hex_run_end(t, i + 1)
    } else {
        i
    }
}

/// End of the run of ASCII letters and digits of `t` starting at `i`.
pub open spec fn alnum_run_end(t: Seq<char>, i: int) -> int
    decreases t.len() - i,
{
    if 0 <= i < t.len() && is_ascii_alnum(t[i]) {
        alnum_run_end(t, i + 1)
    } else {
        i
    }
}

/// Everything from `i` to the end of `t` is white space.
pub open spec fn white_space_from(t: Seq<char>, i: int) -> bool {
    forall|k: int| i <= k < t.len() ==> #[trigger] is_white_space(t[k])
}

/// `t[i..]` is `\d+:H+(:A+)?>\s*` and nothing more (`H` a hex digit, `A`
/// an ASCII letter or digit).
pub open spec fn prompt_body_at(t: Seq<char>, i: int) -> bool {
    let a = digit_run_end(t, i);
    &&& a > i
    &&& a < t.len()
    &&& t[a] == ':'
    &&& {
        let b = hex_run_end(t, a + 1);
        &&& b > a + 1
        &&& b < t.len()
        &&& {
            ||| t[b] == '>' && white_space_from(t, b + 1)
            ||| t[b] == ':' && {
                let c = alnum_run_end(t, b + 1);
                &&& c > b + 1
                &&& c < t.len()
                &&& t[c] == '>'
                &&& white_space_from(t, c + 1)
            }
        }
    }
}

/// A prompt match starts at `s` (one of the four separators, then the
/// prompt body up to the end).
pub open spec fn prompt_at(t: Seq<char>, s: int) -> bool {
    &&& 0 <= s <= t.len()
    &&& {
        ||| (s == 0 || t[s - 1] == '\n') && prompt_body_at(t, s)
        ||| s + 1 < t.len() && t[s] == '\r' && t[s + 1] == '\n' && prompt_body_at(t, s + 2)
        ||| s < t.len() && t[s] == '\n' && prompt_body_at(t, s + 1)
        ||| s + 1 < t.len() && t[s] == '>' && is_white_space(t[s + 1]) && prompt_body_at(t, s + 2)
    }
}

/// The leftmost match start at or after `s`.
pub open spec fn first_prompt_from(t: Seq<char>, s: int) -> Option<int>
    decreases t.len() + 1 - s,
{
    if s < 0 || s > t.len() {
        None
    } else if prompt_at(t, s) {
        Some(s)
    } else {
        first_prompt_from(t, s + 1)
    }
}

/// A match found at or after `s` lies between `s` and the end.
pub proof fn lemma_first_prompt_range(t: Seq<char>, s: int)
    ensures
        first_prompt_from(t, s) matches Some(i) ==> s <= i <= t.len() && prompt_at(t, i),
    decreases t.len() + 1 - s,
{
    if 0 <= s <= t.len() && !prompt_at(t, s) {
        lemma_first_prompt_range(t, s + 1);
    }
}

/// The leftmost prompt match of `t`, as a character index.
pub open spec fn first_prompt(t: Seq<char>) -> Option<int> {
    first_prompt_from(t, 0)
}

/// A match at `s` means the leftmost match from any `k <= s` exists and
/// starts no later than `s`.
proof fn lemma_first_prompt_at_most(t: Seq<char>, k: int, s: int)
    requires
        0 <= k <= s,
        prompt_at(t, s),
    ensures
        first_prompt_from(t, k) matches Some(i) && k <= i <= s,
    decreases s - k,
{
    if !prompt_at(t, k) {
        lemma_first_prompt_at_most(t, k + 1, s);
    }
}

/// Runs scanned inside the second part of a concatenation do not depend on
/// the first part.
proof fn lemma_runs_shift(p: Seq<char>, q: Seq<char>, i: int)
    requires
        0 <= i <= q.len(),
    ensures
        digit_run_end(p + q, p.len() + i) == p.len() + digit_run_end(q, i),
        hex_run_end(p + q, p.len() + i) == p.len() + hex_run_end(q, i),
        alnum_run_end(p + q, p.len() + i) == p.len() + alnum_run_end(q, i),
    decreases q.len() - i,
{
    if i < q.len() {
        assert((p + q)[p.len() + i] == q[i]);
        lemma_runs_shift(p, q, i + 1);
    }
}

/// Whether a prompt body starts inside the second part of a concatenation
/// does not depend on the first part.
proof fn lemma_prompt_body_shift(p: Seq<char>, q: Seq<char>, i: int)
    requires
        0 <= i <= q.len(),
    ensures
        prompt_body_at(p + q, p.len() + i) == prompt_body_at(q, i),
{
    let t = p + q;
    let o = p.len() as int;
    lemma_runs_shift(p, q, i);
    let a = digit_run_end(q, i);
    if a > i && a < q.len() && q[a] == ':' {
        assert(t[o + a] == q[a]);
        lemma_runs_shift(p, q, a + 1);
        let b = hex_run_end(q, a + 1);
        if b > a + 1 && b < q.len() {
            assert(t[o + b] == q[b]);
            assert(white_space_from(t, o + b + 1) == white_space_from(q, b + 1)) by {
                if white_space_from(q, b + 1) {
                    assert forall|k: int| o + b + 1 <= k < t.len() implies #[trigger] is_white_space(
                        t[k],
                    ) by {
                        assert(t[k] == q[k - o]);
                    }
                }
                if white_space_from(t, o + b + 1) {
                    assert forall|k: int| b + 1 <= k < q.len() implies #[trigger] is_white_space(
                        q[k],
                    ) by {
                        assert(t[o + k] == q[k]);
                    }
                }
            }
            if q[b] == ':' {
                lemma_runs_shift(p, q, b + 1);
                let c = alnum_run_end(q, b + 1);
                if c > b + 1 && c < q.len() {
                    assert(t[o + c] == q[c]);
                    assert(white_space_from(t, o + c + 1) == white_space_from(q, c + 1)) by {
                        if white_space_from(q, c + 1) {
                            assert forall|k: int| o + c + 1 <= k < t.len() implies #[trigger] is_white_space(
                                t[k],
                            ) by {
                                assert(t[k] == q[k - o]);
                            }
                        }
                        if white_space_from(t, o + c + 1) {
                            assert forall|k: int| c + 1 <= k < q.len() implies #[trigger] is_white_space(
                                q[k],
                            ) by {
                                assert(t[o + k] == q[k]);
                            }
                        }
                    }
                }
            }
        }
    }
}

/// The separators that may stand before a prompt: `\n`, `\r\n`, or the `>`
/// of a previous prompt followed by one white-space character.
pub open spec fn prompt_separator(sep: Seq<char>) -> bool {
    ||| sep == seq!['\n']
    ||| sep == seq!['\r', '\n']
    ||| sep.len() == 2 && sep[0] == '>' && is_white_space(sep[1])
}

/// A prompt printed after a line break, or right after a previous prompt
/// (a command with no output), is found whatever output came before it;
/// the match starts no later than the separator.
pub proof fn law_prompt_after_separator_is_found(before: Seq<char>, sep: Seq<char>, body: Seq<char>)
    requires
        prompt_separator(sep),
        prompt_body_at(body, 0),
    ensures
        first_prompt(before + sep + body) matches Some(i) && i <= before.len(),
{
    let t = before + sep + body;
    let s = before.len() as int;
    lemma_prompt_body_shift(before + sep, body, 0);
    assert(t[s] == sep[0]);
    if sep.len() == 2 {
        assert(t[s + 1] == sep[1]);
    }
    assert(prompt_at(t, s));
    lemma_first_prompt_at_most(t, 0, s);
}

/// Text without any `>` never shows a prompt.
pub proof fn law_no_prompt_without_angle_bracket(t: Seq<char>)
    requires
        !t.contains('>'),
    ensures
        first_prompt(t) is None,
{
    assert forall|s: int| !prompt_at(t, s) by {
        assert forall|i: int| 0 <= i <= t.len() implies !prompt_body_at(t, i) by {
            let a = digit_run_end(t, i);
            if a > i && a < t.len() && t[a] == ':' {
                let b = hex_run_end(t, a + 1);
                if b > a + 1 && b < t.len() {
                    assert(t[b] != '>');
                    let c = alnum_run_end(t, b + 1);
                    if c > b + 1 && c < t.len() {
                        assert(t[c] != '>');
                    }
                }
            }
        }
        if 0 <= s < t.len() {
            assert(t[s] != '>');
        }
    }
    lemma_no_prompt_from(t, 0);
}

proof fn lemma_no_prompt_from(t: Seq<char>, s: int)
    requires
        forall|k: int| !prompt_at(t, k),
    ensures
        first_prompt_from(t, s) is None,
    decreases t.len() + 1 - s,
{
    if 0 <= s <= t.len() {
        lemma_no_prompt_from(t, s + 1);
    }
}

#[derive(Debug, Clone, Copy)]
pub struct PromptMatch {
    pub start: usize,
    pub end: usize,
}

/// `\d` on one character.
fn decimal_digit(c: char) -> (r: bool)
    ensures
        r == is_decimal_digit(c),
{
    if (c as u32) < 0x80 {
        '0' <= c && c <= '9'
    } else {
        regex_is_decimal_digit(c)
    }
}

fn hex_digit(c: char) -> (r: bool)
    ensures
        r == is_hex_digit(c),
{
    ('0' <= c && c <= '9') || ('a' <= c && c <= 'f') || ('A' <= c && c <= 'F')
}

fn ascii_alnum(c: char) -> (r: bool)
    ensures
        r == is_ascii_alnum(c),
{
    ('0' <= c && c <= '9') || ('a' <= c && c <= 'z') || ('A' <= c && c <= 'Z')
}

fn alnum_run_end_exec(t: &[char], i: usize) -> (e: usize)
    requires
        i <= t@.len(),
    ensures
        e == alnum_run_end(t@, i as int),
        i <= e <= t@.len(),
{
    let mut j = i;
    while j < t.len() && ascii_alnum(t[j])
        invariant
            i <= j <= t@.len(),
            alnum_run_end(t@, j as int) == alnum_run_end(t@, i as int),
        decreases t@.len() - j,
    {
        j = j + 1;
    }
    j
}

fn digit_run_end_exec(t: &[char], i: usize) -> (e: usize)
    requires
        i <= t@.len(),
    ensures
        e == digit_run_end(t@, i as int),
        i <= e <= t@.len(),
{
    let mut j = i;
    while j < t.len() && decimal_digit(t[j])
        invariant
            i <= j <= t@.len(),
            digit_run_end(t@, j as int) == digit_run_end(t@, i as int),
        decreases t@.len() - j,
    {
        j = j + 1;
    }
    j
}

fn hex_run_end_exec(t: &[char], i: usize) -> (e: usize)
    requires
        i <= t@.len(),
    ensures
        e == hex_run_end(t@, i as int),
        i <= e <= t@.len(),
{
    let mut j = i;
    while j < t.len() && hex_digit(t[j])
        invariant
            i <= j <= t@.len(),
            hex_run_end(t@, j as int) == hex_run_end(t@, i as int),
        decreases t@.len() - j,
    {
        j = j + 1;
    }
    j
}

fn white_space_from_exec(t: &[char], i: usize) -> (r: bool)
    requires
        i <= t@.len(),
    ensures
        r == white_space_from(t@, i as int),
{
    let mut j = i;
    while j < t.len()
        invariant
            i <= j <= t@.len(),
            forall|k: int| i <= k < j ==> #[trigger] is_white_space(t@[k]),
        decreases t@.len() - j,
    {
        if !white_space(t[j]) {
            return false;
        }
        j = j + 1;
    }
    true
}

fn prompt_body_at_exec(t: &[char], i: usize) -> (r: bool)
    requires
        i <= t@.len(),
    ensures
        r == prompt_body_at(t@, i as int),
{
    let a = digit_run_end_exec(t, i);
    if !(a > i && a < t.len() && t[a] == ':') {
        return false;
    }
    let b = hex_run_end_exec(t, a + 1);
    if !(b > a + 1 && b < t.len()) {
        return false;
    }
    if t[b] == '>' {
        return white_space_from_exec(t, b + 1);
    }
    if t[b] != ':' {
        return false;
    }
    let c = alnum_run_end_exec(t, b + 1);
    c > b + 1 && c < t.len() && t[c] == '>' && white_space_from_exec(t, c + 1)
}

fn prompt_at_exec(t: &[char], s: usize) -> (r: bool)
    requires
        s <= t@.len(),
    ensures
        r == prompt_at(t@, s as int),
{
    let n = t.len();
    if (s == 0 || t[s - 1] == '\n') && prompt_body_at_exec(t, s) {
        return true;
    }
    if s < n && s + 1 < n && t[s] == '\r' && t[s + 1] == '\n' && prompt_body_at_exec(t, s + 2) {
        return true;
    }
    if s < n && t[s] == '\n' && prompt_body_at_exec(t, s + 1) {
        return true;
    }
    s < n && s + 1 < n && t[s] == '>' && white_space(t[s + 1]) && prompt_body_at_exec(t, s + 2)
}

/// Character index of the leftmost prompt match of `t`.
pub fn first_prompt_index(t: &[char]) -> (r: Option<usize>)
    ensures
        match r {
            Some(s) => first_prompt(t@) == Some(s as int) && s <= t@.len(),
            None => first_prompt(t@) is None,
        },
{
    let n = t.len();
    let mut s: usize = 0;
    proof {
        lemma_first_prompt_range(t@, 0);
    }
    loop
        invariant
            n == t@.len(),
            s <= n,
            first_prompt(t@) == first_prompt_from(t@, s as int),
        decreases n - s,
    {
        if prompt_at_exec(t, s) {
            return Some(s);
        }
        if s == n {
            assert(first_prompt_from(t@, s + 1) is None);
            return None;
        }
        s = s + 1;
    }
}

/// Locate the position of a trailing cdb prompt: byte offsets of the
/// leftmost match and of the end of the text.
pub fn find_prompt(tail: &str) -> (r: Option<PromptMatch>)
    ensures
        match first_prompt(tail@) {
            Some(s) => r matches Some(m) && m.start == utf8_len(tail@.take(s)) && m.end == utf8_len(
                tail@,
            ),
            None => r is None,
        },
{
    let t = chars_of(tail);
    let end = tail.as_bytes().len();
    match first_prompt_index(t.as_slice()) {
        Some(s) => {
            let start = utf8_len_prefix(t.as_slice(), s);
            Some(PromptMatch { start, end })
        },
        None => None,
    }
}

/// Find the byte offset of the *last* prompt that ends at the end of the
/// supplied string. Every match ends at the end of the text and matches do
/// not overlap, so this is the start of the leftmost match.
pub fn rfind_prompt(s: &str) -> (r: Option<usize>)
    ensures
        match first_prompt(s@) {
            Some(i) => r == Some(utf8_len(s@.take(i)) as usize),
            None => r is None,
        },
{
    match find_prompt(s) {
        Some(m) => Some(m.start),
        None => None,
    }
}

/// Index of the last `\n` in `t` (`str::rfind('\n')`).
pub open spec fn last_newline(t: Seq<char>) -> Option<int>
    decreases t.len(),
{
    if t.len() == 0 {
        None
    } else if t.last() == '\n' {
        Some(t.len() - 1)
    } else {
        last_newline(t.drop_last())
    }
}

/// Index of the last `\n` in `t`, or the length when there is none.
pub open spec fn last_newline_or_len(t: Seq<char>) -> int {
    match last_newline(t) {
        Some(i) => i,
        None => t.len() as int,
    }
}

/// Number of leading `\r` / `\n` characters of `t`.
pub open spec fn leading_line_breaks(t: Seq<char>) -> nat
    decreases t.len(),
{
    if t.len() > 0 && (t[0] == '\r' || t[0] == '\n') {
        1 + leading_line_breaks(t.drop_first())
    } else {
        0
    }
}

/// The command echo cdb prints first: the command followed by `\r\n` or by
/// `\n`, or the command alone when it is all that remains.
pub open spec fn echo_candidates(command: Seq<char>) -> Seq<Seq<char>> {
    seq![command + seq!['\r', '\n'], command + seq!['\n'], command]
}

/// The text before the trailing prompt (or before the last line when no
/// prompt is present).
pub open spec fn before_prompt(raw: Seq<char>) -> Seq<char> {
    match first_prompt(raw) {
        Some(pos) => raw.take(pos),
        None => raw.take(last_newline_or_len(raw)),
    }
}

/// `content` with the leading echo of the command (after leading line
/// breaks) removed: the command with its line break, or the whole
/// remaining text when it is just the command. A mere prefix of the first
/// output line is never removed. `content` itself when there is no echo.
pub open spec fn strip_echo(content: Seq<char>, command: Seq<char>) -> Seq<char> {
    let trimmed = content.skip(leading_line_breaks(content) as int);
    let cands = echo_candidates(command);
    if is_prefix(cands[0], trimmed) {
        trimmed.skip(cands[0].len() as int)
    } else if is_prefix(cands[1], trimmed) {
        trimmed.skip(cands[1].len() as int)
    } else if trimmed == cands[2] {
        Seq::empty()
    } else {
        content
    }
}

/// The echo of the command cdb prints first, followed by `\n` or `\r\n`,
/// is removed, leaving exactly the text after it (for a command that does
/// not itself start with a line break).
pub proof fn law_echo_is_stripped(command: Seq<char>, sep: Seq<char>, rest: Seq<char>)
    requires
        command.len() > 0,
        command[0] != '\r' && command[0] != '\n',
        sep == seq!['\n'] || sep == seq!['\r', '\n'],
    ensures
        strip_echo(command + sep + rest, command) == rest,
{
    let content = command + sep + rest;
    assert(content[0] == command[0]);
    assert(leading_line_breaks(content) == 0);
    assert(content.skip(0) == content);
    let cands = echo_candidates(command);
    let n = command.len() as int;
    assert(content.take(n + sep.len()) == command + sep);
    if sep == seq!['\n'] {
        assert(content[n] == '\n');
        assert(cands[0][n] == '\r');
        assert(!is_prefix(cands[0], content));
        assert(cands[1] == command + sep);
        assert(content.skip(n + 1) == rest);
    } else {
        assert(cands[0] == command + sep);
        assert(content.skip(n + 2) == rest);
    }
}

/// Echo removal takes away a whole echo and nothing less: the command
/// followed by its line break, or the command when it is all that
/// remains; otherwise the content is kept as it is.
pub proof fn law_echo_removal_is_whole(content: Seq<char>, command: Seq<char>)
    ensures
        ({
            let t = content.skip(leading_line_breaks(content) as int);
            let r = strip_echo(content, command);
            ||| r == content
            ||| t == command + seq!['\r', '\n'] + r
            ||| t == command + seq!['\n'] + r
            ||| t == command && r.len() == 0
        }),
{
    let t = content.skip(leading_line_breaks(content) as int);
    let cands = echo_candidates(command);
    if is_prefix(cands[0], t) {
        assert(t =~= cands[0] + t.skip(cands[0].len() as int));
    } else if is_prefix(cands[1], t) {
        assert(t =~= cands[1] + t.skip(cands[1].len() as int));
    }
}

/// What `clean_command_output` returns.
pub open spec fn cleaned_output(raw: Seq<char>, command: Seq<char>) -> Seq<char> {
    trim_end(strip_echo(before_prompt(raw), command))
}

fn last_newline_or_len_exec(t: &[char]) -> (r: usize)
    ensures
        r == last_newline_or_len(t@),
        r <= t@.len(),
{
    let n = t.len();
    let mut i = n;
    while i > 0 && t[i - 1] != '\n'
        invariant
            i <= n == t@.len(),
            forall|k: int| i <= k < n ==> t@[k] != '\n',
        decreases i,
    {
        i = i - 1;
    }
    proof {
        lemma_last_newline(t@, i as int);
    }
    if i == 0 {
        n
    } else {
        i - 1
    }
}

/// Characterisation of `last_newline_or_len` by the position of the last
/// line break.
proof fn lemma_last_newline(t: Seq<char>, i: int)
    requires
        0 <= i <= t.len(),
        forall|k: int| i <= k < t.len() ==> t[k] != '\n',
        i == 0 || t[i - 1] == '\n',
    ensures
        last_newline(t) == if i == 0 {
            None
        } else {
            Some(i - 1)
        },
    decreases t.len(),
{
    if t.len() == 0 {
    } else if t.last() == '\n' {
        assert(i == t.len());
    } else {
        assert(i < t.len());
        let u = t.drop_last();
        assert forall|k: int| i <= k < u.len() implies u[k] != '\n' by {
            assert(u[k] == t[k]);
        }
        if i > 0 {
            assert(u[i - 1] == t[i - 1]);
        }
        lemma_last_newline(u, i);
    }
}

fn leading_line_breaks_exec(t: &[char]) -> (r: usize)
    ensures
        r == leading_line_breaks(t@),
        r <= t@.len(),
{
    let mut i: usize = 0;
    assert(t@.skip(0) == t@);
    while i < t.len() && (t[i] == '\r' || t[i] == '\n')
        invariant
            i <= t@.len(),
            leading_line_breaks(t@) == i + leading_line_breaks(t@.skip(i as int)),
        decreases t@.len() - i,
    {
        assert(t@.skip(i as int).drop_first() == t@.skip(i + 1));
        i = i + 1;
    }
    assert(t@.skip(0) == t@);
    i
}

fn concat_chars(a: &[char], b: &[char]) -> (r: Vec<char>)
    ensures
        r@ == a@ + b@,
{
    let mut r: Vec<char> = Vec::new();
    let n = a.len();
    for i in 0..n
        invariant
            n == a@.len(),
            r@ == a@.take(i as int),
    {
        r.push(a[i]);
        assert(a@.take(i + 1) == a@.take(i as int).push(a@[i as int]));
    }
    assert(a@.take(n as int) == a@);
    let m = b.len();
    for i in 0..m
        invariant
            m == b@.len(),
            r@ == a@ + b@.take(i as int),
    {
        r.push(b[i]);
        assert(b@.take(i + 1) == b@.take(i as int).push(b@[i as int]));
    }
    assert(b@.take(m as int) == b@);
    r
}

fn slice_to_vec(a: &[char], from: usize, to: usize) -> (r: Vec<char>)
    requires
        from <= to <= a@.len(),
    ensures
        r@ == a@.subrange(from as int, to as int),
{
    let mut r: Vec<char> = Vec::new();
    for i in from..to
        invariant
            from <= to <= a@.len(),
            r@ == a@.subrange(from as int, i as int),
    {
        r.push(a[i]);
        assert(a@.subrange(from as int, i + 1) == a@.subrange(from as int, i as int).push(
            a@[i as int],
        ));
    }
    r
}

/// Strip the trailing prompt and the leading echo of the issued command
/// from raw cdb output.
pub fn clean_command_output(raw: &str, command: &str) -> (r: String)
    ensures
        r@ == cleaned_output(raw@, command@),
{
    let t = chars_of(raw);
    let trimmed_end = last_newline_or_len_exec(t.as_slice());
    let cut = match first_prompt_index(t.as_slice()) {
        Some(pos) => pos,
        None => trimmed_end,
    };
    let content = slice_to_vec(t.as_slice(), 0, cut);
    assert(content@ == before_prompt(raw@));
    let cmd = chars_of(command);
    let c0 = concat_chars(cmd.as_slice(), &['\r', '\n']);
    let c1 = concat_chars(cmd.as_slice(), &['\n']);
    assert(c0@ == echo_candidates(command@)[0]);
    assert(c1@ == echo_candidates(command@)[1]);
    let lead = leading_line_breaks_exec(content.as_slice());
    let trimmed = slice_to_vec(content.as_slice(), lead, content.len());
    assert(trimmed@ == content@.skip(lead as int));
    let stripped = if has_prefix(trimmed.as_slice(), c0.as_slice()) {
        slice_to_vec(trimmed.as_slice(), c0.len(), trimmed.len())
    } else if has_prefix(trimmed.as_slice(), c1.as_slice()) {
        slice_to_vec(trimmed.as_slice(), c1.len(), trimmed.len())
    } else if chars_eq(trimmed.as_slice(), cmd.as_slice()) {
        Vec::new()
    } else {
        content
    };
    assert(stripped@ == strip_echo(before_prompt(raw@), command@));
    let keep = trim_end_length(stripped.as_slice());
    proof {
        lemma_trim_end_len_bound(stripped@);
    }
    let out = slice_to_vec(stripped.as_slice(), 0, keep);
    assert(out@ == stripped@.take(keep as int));
    string_of(out.as_slice())
}

} // verus!
