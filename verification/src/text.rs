//! Text derivations: markdown stripping, the display name, and the text
//! handed to the chunker.
//!
//! The plain text of a markdown document is defined by a single left-to-
//! right pass, [`spec_strip_markdown`]: leading heading, quote and space
//! markers are dropped at the start of each line, inline emphasis and code
//! markers are dropped everywhere, and a link written `[text](url)` keeps
//! its text and loses its address.  A bracket that never closes is kept as
//! written.

use vstd::prelude::*;
use vstd::string::{StrSliceExecFns, StringExecFns};

verus! {

/// A whitespace character as the display-name fallback counts them: the
/// Unicode white-space set, the one `str::trim` removes.
pub open spec fn is_space(c: char) -> bool {
    ||| c == ' '
    ||| c == '\t'
    ||| c == '\n'
    ||| c == '\u{000B}'
    ||| c == '\u{000C}'
    ||| c == '\r'
    ||| c == '\u{0085}'
    ||| c == '\u{00A0}'
    ||| c == '\u{1680}'
    ||| c == '\u{2000}'
    ||| c == '\u{2001}'
    ||| c == '\u{2002}'
    ||| c == '\u{2003}'
    ||| c == '\u{2004}'
    ||| c == '\u{2005}'
    ||| c == '\u{2006}'
    ||| c == '\u{2007}'
    ||| c == '\u{2008}'
    ||| c == '\u{2009}'
    ||| c == '\u{200A}'
    ||| c == '\u{2028}'
    ||| c == '\u{2029}'
    ||| c == '\u{202F}'
    ||| c == '\u{205F}'
    ||| c == '\u{3000}'
}

/// An inline marker that the stripper drops wherever it stands.
pub open spec fn is_marker(c: char) -> bool {
    c == '*' || c == '_' || c == '`'
}

/// A marker that the stripper drops at the start of a line.
pub open spec fn is_line_marker(c: char) -> bool {
    c == '#' || c == '>' || c == ' '
}

/// Where the stripper stands inside link syntax: plain text, the text
/// between `[` and `]`, just past the `]`, or inside the `(...)` address.
pub enum StripModeV {
    Text,
    LinkText(Seq<char>),
    LinkEnd(Seq<char>),
    LinkUrl,
}

/// The stripper's whole state: whether the next character still stands at
/// the start of its line, and the link mode.
pub struct StripV {
    pub line_start: bool,
    pub mode: StripModeV,
}

/// The stripper's state before any input.
pub open spec fn strip_init() -> StripV {
    StripV { line_start: true, mode: StripModeV::Text }
}

/// One character handled in plain-text mode.
pub open spec fn spec_text_step(line_start: bool, c: char) -> (StripV, Seq<char>) {
    if c == '\n' {
        (StripV { line_start: true, mode: StripModeV::Text }, seq!['\n'])
    } else if line_start && is_line_marker(c) {
        (StripV { line_start: true, mode: StripModeV::Text }, Seq::empty())
    } else if is_marker(c) {
        (StripV { line_start: false, mode: StripModeV::Text }, Seq::empty())
    } else if c == '[' {
        (StripV { line_start: false, mode: StripModeV::LinkText(Seq::empty()) }, Seq::empty())
    } else {
        (StripV { line_start: false, mode: StripModeV::Text }, seq![c])
    }
}

/// One character of input: the state after it and the characters it
/// emits.
pub open spec fn spec_strip_step(st: StripV, c: char) -> (StripV, Seq<char>) {
    match st.mode {
        StripModeV::Text => spec_text_step(st.line_start, c),
        StripModeV::LinkText(buf) => if c == ']' {
            (StripV { line_start: false, mode: StripModeV::LinkEnd(buf) }, Seq::empty())
        } else if c == '\n' {
            (StripV { line_start: true, mode: StripModeV::Text }, seq!['['] + buf + seq!['\n'])
        } else {
            (StripV { line_start: false, mode: StripModeV::LinkText(buf.push(c)) }, Seq::empty())
        },
        StripModeV::LinkEnd(buf) => if c == '(' {
            (StripV { line_start: false, mode: StripModeV::LinkUrl }, buf)
        } else {
            let r = spec_text_step(false, c);
            (r.0, seq!['['] + buf + seq![']'] + r.1)
        },
        StripModeV::LinkUrl => if c == ')' {
            (StripV { line_start: false, mode: StripModeV::Text }, Seq::empty())
        } else if c == '\n' {
            (StripV { line_start: true, mode: StripModeV::Text }, seq!['\n'])
        } else {
            (StripV { line_start: false, mode: StripModeV::LinkUrl }, Seq::empty())
        },
    }
}

/// What an unfinished link emits when the input ends.
pub open spec fn spec_strip_flush(st: StripV) -> Seq<char> {
    match st.mode {
        StripModeV::Text => Seq::empty(),
        StripModeV::LinkText(buf) => seq!['['] + buf,
        StripModeV::LinkEnd(buf) => seq!['['] + buf + seq![']'],
        StripModeV::LinkUrl => Seq::empty(),
    }
}

/// The whole input folded through the stripper from a given state.
pub open spec fn spec_strip_from(s: Seq<char>, st: StripV) -> (StripV, Seq<char>)
    decreases s.len(),
{
    if s.len() == 0 {
        (st, Seq::empty())
    } else {
        let r1 = spec_strip_step(st, s[0]);
        let r2 = spec_strip_from(s.drop_first(), r1.0);
        (r2.0, r1.1 + r2.1)
    }
}

/// The plain text of a markdown document.
pub open spec fn spec_strip_markdown(s: Seq<char>) -> Seq<char> {
    let r = spec_strip_from(s, strip_init());
    r.1 + spec_strip_flush(r.0)
}

/// Folding one more character continues where the fold left off.
proof fn lemma_strip_from_push(s: Seq<char>, c: char, st: StripV)
    ensures
        spec_strip_from(s.push(c), st) == {
            let r1 = spec_strip_from(s, st);
            let r2 = spec_strip_step(r1.0, c);
            (r2.0, r1.1 + r2.1)
        },
    decreases s.len(),
{
    reveal_with_fuel(spec_strip_from, 3);
    let r1 = spec_strip_from(s, st);
    let r2 = spec_strip_step(r1.0, c);
    if s.len() == 0 {
        assert(s.push(c)[0] == c);
        assert(s.push(c).drop_first() =~= Seq::<char>::empty());
        assert(spec_strip_step(st, c).1 + Seq::<char>::empty() =~= spec_strip_step(st, c).1);
        assert(Seq::<char>::empty() + spec_strip_step(st, c).1 =~= spec_strip_step(st, c).1);
        assert(r1.1 + r2.1 =~= spec_strip_from(s.push(c), st).1);
    } else {
        assert(s.push(c)[0] == s[0]);
        assert(s.push(c).drop_first() =~= s.drop_first().push(c));
        let h = spec_strip_step(st, s[0]);
        lemma_strip_from_push(s.drop_first(), c, h.0);
        let q1 = spec_strip_from(s.drop_first(), h.0);
        let q2 = spec_strip_step(q1.0, c);
        assert(h.1 + (q1.1 + q2.1) =~= (h.1 + q1.1) + q2.1);
    }
}

/// Where the executable stripper stands inside link syntax; the buffered
/// link text lives in the stripper itself.
pub enum StripMode {
    Text,
    LinkText,
    LinkEnd,
    LinkUrl,
}

/// The executable stripper state.
pub struct Stripper {
    pub line_start: bool,
    pub mode: StripMode,
    pub buf: Vec<char>,
}

impl View for Stripper {
    type V = StripV;

    open spec fn view(&self) -> StripV {
        StripV {
            line_start: self.line_start,
            mode: match self.mode {
                StripMode::Text => StripModeV::Text,
                StripMode::LinkText => StripModeV::LinkText(self.buf@),
                StripMode::LinkEnd => StripModeV::LinkEnd(self.buf@),
                StripMode::LinkUrl => StripModeV::LinkUrl,
            },
        }
    }
}

impl Stripper {
    /// The stripper before any input.
    pub fn new() -> (r: Stripper)
        ensures
            r@ == strip_init(),
    {
        Stripper { line_start: true, mode: StripMode::Text, buf: Vec::new() }
    }

    /// Handles one character in plain-text mode, appending what it emits.
    fn text_step(&mut self, c: char, out: &mut Vec<char>)
        requires
            old(self).buf@.len() == 0,
        ensures
            final(self)@ == spec_text_step(old(self)@.line_start, c).0,
            final(out)@ == old(out)@ + spec_text_step(old(self)@.line_start, c).1,
            final(self).buf@.len() == 0 || final(self)@.mode is LinkText,
    {
        if c == '\n' {
            self.line_start = true;
            self.mode = StripMode::Text;
            out.push('\n');
        } else if self.line_start && (c == '#' || c == '>' || c == ' ') {
            self.mode = StripMode::Text;
            proof {
                assert(out@ =~= old(out)@ + spec_text_step(old(self)@.line_start, c).1);
            }
        } else if c == '*' || c == '_' || c == '`' {
            self.line_start = false;
            self.mode = StripMode::Text;
            proof {
                assert(out@ =~= old(out)@ + spec_text_step(old(self)@.line_start, c).1);
            }
        } else if c == '[' {
            self.line_start = false;
            self.mode = StripMode::LinkText;
            proof {
                assert(self.buf@ =~= Seq::<char>::empty());
                assert(out@ =~= old(out)@ + spec_text_step(old(self)@.line_start, c).1);
            }
        } else {
            self.line_start = false;
            self.mode = StripMode::Text;
            out.push(c);
        }
        proof {
            assert(out@ =~= old(out)@ + spec_text_step(old(self)@.line_start, c).1);
            assert(self@ == spec_text_step(old(self)@.line_start, c).0);
        }
    }

    /// Handles one character, appending what it emits.
    pub fn step(&mut self, c: char, out: &mut Vec<char>)
        ensures
            final(self)@ == spec_strip_step(old(self)@, c).0,
            final(out)@ == old(out)@ + spec_strip_step(old(self)@, c).1,
    {
        match self.mode {
            StripMode::Text => {
                self.buf.clear();
                proof {
                    assert(self@ == old(self)@);
                }
                self.text_step(c, out);
            },
            StripMode::LinkText => {
                if c == ']' {
                    self.line_start = false;
                    self.mode = StripMode::LinkEnd;
                    proof {
                        assert(out@ =~= old(out)@ + spec_strip_step(old(self)@, c).1);
                    }
                } else if c == '\n' {
                    out.push('[');
                    out.append(&mut self.buf);
                    out.push('\n');
                    self.line_start = true;
                    self.mode = StripMode::Text;
                    proof {
                        assert(out@ =~= old(out)@ + spec_strip_step(old(self)@, c).1);
                    }
                } else {
                    self.line_start = false;
                    self.buf.push(c);
                    proof {
                        assert(out@ =~= old(out)@ + spec_strip_step(old(self)@, c).1);
                    }
                }
            },
            StripMode::LinkEnd => {
                if c == '(' {
                    self.line_start = false;
                    self.mode = StripMode::LinkUrl;
                    out.append(&mut self.buf);
                    proof {
                        assert(out@ =~= old(out)@ + spec_strip_step(old(self)@, c).1);
                    }
                } else {
                    out.push('[');
                    out.append(&mut self.buf);
                    out.push(']');
                    let ghost mid = out@;
                    self.mode = StripMode::Text;
                    self.line_start = false;
                    proof {
                        assert(self@.mode is Text && self.buf@.len() == 0);
                    }
                    self.text_step(c, out);
                    proof {
                        assert(out@ =~= old(out)@ + spec_strip_step(old(self)@, c).1);
                    }
                }
            },
            StripMode::LinkUrl => {
                if c == ')' {
                    self.line_start = false;
                    self.mode = StripMode::Text;
                } else if c == '\n' {
                    self.line_start = true;
                    self.mode = StripMode::Text;
                    out.push('\n');
                } else {
                    self.line_start = false;
                }
                proof {
                    assert(out@ =~= old(out)@ + spec_strip_step(old(self)@, c).1);
                }
            },
        }
    }

    /// Appends what an unfinished link leaves behind at the end of input.
    pub fn flush(&mut self, out: &mut Vec<char>)
        ensures
            final(out)@ == old(out)@ + spec_strip_flush(old(self)@),
    {
        match self.mode {
            StripMode::Text => {
                proof {
                    assert(out@ =~= old(out)@ + spec_strip_flush(old(self)@));
                }
            },
            StripMode::LinkText => {
                out.push('[');
                out.append(&mut self.buf);
                proof {
                    assert(out@ =~= old(out)@ + spec_strip_flush(old(self)@));
                }
            },
            StripMode::LinkEnd => {
                out.push('[');
                out.append(&mut self.buf);
                out.push(']');
                proof {
                    assert(out@ =~= old(out)@ + spec_strip_flush(old(self)@));
                }
            },
            StripMode::LinkUrl => {
                proof {
                    assert(out@ =~= old(out)@ + spec_strip_flush(old(self)@));
                }
            },
        }
    }
}

/// The characters of a string, in order.
pub fn chars_of(s: &str) -> (r: Vec<char>)
    ensures
        r@ == s@,
{
    let n = s.unicode_len();
    let mut out: Vec<char> = Vec::new();
    let mut i: usize = 0;
    while i < n
        invariant
            i <= n,
            n == s@.len(),
            out@ == s@.take(i as int),
        decreases n - i,
    {
        out.push(s.get_char(i));
        proof {
            assert(out@ =~= s@.take(i + 1));
        }
        i = i + 1;
    }
    proof {
        assert(out@ =~= s@);
    }
    out
}

/// Relies on `String`'s `FromIterator<char>`: collecting characters
/// yields the string made of exactly those characters in order.
#[verifier::external_body]
fn string_of_chars(v: &Vec<char>) -> (r: String)
    ensures
        r@ == v@,
{
    v.iter().collect()
}

/// Strips markdown syntax from a document, leaving its plain text.
pub fn strip_markdown(s: &str) -> (r: String)
    ensures
        r@ == spec_strip_markdown(s@),
{
    let chars = chars_of(s);
    let mut st = Stripper::new();
    let mut out: Vec<char> = Vec::new();
    let mut i: usize = 0;
    while i < chars.len()
        invariant
            i <= chars@.len(),
            chars@ == s@,
            st@ == spec_strip_from(s@.take(i as int), strip_init()).0,
            out@ == spec_strip_from(s@.take(i as int), strip_init()).1,
        decreases chars@.len() - i,
    {
        proof {
            assert(s@.take(i + 1) =~= s@.take(i as int).push(s@[i as int]));
            lemma_strip_from_push(s@.take(i as int), s@[i as int], strip_init());
        }
        st.step(chars[i], &mut out);
        i = i + 1;
    }
    proof {
        assert(s@.take(s@.len() as int) =~= s@);
    }
    st.flush(&mut out);
    string_of_chars(&out)
}

/// Every character of the sequence is whitespace; true of the empty
/// sequence.
pub open spec fn spec_all_space(s: Seq<char>) -> bool {
    forall|i: int| 0 <= i < s.len() ==> is_space(#[trigger] s[i])
}

/// The display name of an entry: its name, unless the name is empty or
/// whitespace-only, in which case its URL stands in.
pub open spec fn spec_display_name(name: Seq<char>, url: Seq<char>) -> Seq<char> {
    if spec_all_space(name) {
        url
    } else {
        name
    }
}

/// Returns whether the character is whitespace.
pub fn is_space_char(c: char) -> (r: bool)
    ensures
        r == is_space(c),
{
    c == ' ' || c == '\t' || c == '\n' || c == '\u{000B}' || c == '\u{000C}' || c == '\r' || c
        == '\u{0085}' || c == '\u{00A0}' || c == '\u{1680}' || c == '\u{2000}' || c == '\u{2001}'
        || c == '\u{2002}' || c == '\u{2003}' || c == '\u{2004}' || c == '\u{2005}' || c
        == '\u{2006}' || c == '\u{2007}' || c == '\u{2008}' || c == '\u{2009}' || c == '\u{200A}'
        || c == '\u{2028}' || c == '\u{2029}' || c == '\u{202F}' || c == '\u{205F}' || c
        == '\u{3000}'
}

/// Picks the display name of an entry.
pub fn display_name(name: &str, url: &str) -> (r: String)
    ensures
        r@ == spec_display_name(name@, url@),
{
    let n = name.unicode_len();
    let mut i: usize = 0;
    while i < n
        invariant
            i <= n,
            n == name@.len(),
            forall|k: int| 0 <= k < i ==> is_space(#[trigger] name@[k]),
        decreases n - i,
    {
        if !is_space_char(name.get_char(i)) {
            return name.to_owned();
        }
        i = i + 1;
    }
    url.to_owned()
}

/// The sequence holds a dot somewhere.
pub open spec fn spec_has_dot(s: Seq<char>) -> bool {
    exists|i: int| 0 <= i < s.len() && s[i] == '.'
}

/// The name up to its first dot: a display form that drops everything
/// from the first file extension on.  A name without a dot is kept whole.
pub open spec fn spec_before_first_dot(s: Seq<char>) -> Seq<char>
    decreases s.len(),
{
    if s.len() == 0 {
        s
    } else if s[0] == '.' {
        Seq::empty()
    } else {
        seq![s[0]] + spec_before_first_dot(s.drop_first())
    }
}

/// The name up to its last dot: a display form that drops only the final
/// file extension.  A name without a dot is kept whole.
pub open spec fn spec_before_last_dot(s: Seq<char>) -> Seq<char>
    decreases s.len(),
{
    if !spec_has_dot(s) {
        s
    } else if s.len() == 0 {
        s
    } else if s[s.len() - 1] == '.' {
        s.drop_last()
    } else {
        spec_before_last_dot(s.drop_last())
    }
}

/// A name that stops before its first dot equals the prefix up to the
/// first dot position.
proof fn lemma_before_first_dot_take(s: Seq<char>, i: int)
    requires
        0 <= i <= s.len(),
        forall|k: int| 0 <= k < i ==> s[k] != '.',
        i < s.len() ==> s[i] == '.',
    ensures
        spec_before_first_dot(s) == s.take(i),
    decreases s.len(),
{
    if s.len() == 0 {
        assert(s.take(i) =~= s);
    } else if i == 0 {
        assert(s.take(0int) =~= Seq::<char>::empty());
    } else {
        lemma_before_first_dot_take(s.drop_first(), i - 1);
        assert(seq![s[0]] + s.drop_first().take(i - 1) =~= s.take(i));
    }
}

/// A name that stops before its last dot equals the prefix up to the
/// last dot position.
proof fn lemma_before_last_dot_take(s: Seq<char>, j: int)
    requires
        0 <= j < s.len(),
        s[j] == '.',
        forall|k: int| j < k < s.len() ==> s[k] != '.',
    ensures
        spec_before_last_dot(s) == s.take(j),
    decreases s.len(),
{
    if j == s.len() - 1 {
        assert(s.drop_last() =~= s.take(j));
    } else {
        assert(spec_has_dot(s));
        assert(s[s.len() - 1] != '.');
        let t = s.drop_last();
        assert(t[j] == '.');
        lemma_before_last_dot_take(t, j);
        assert(t.take(j) =~= s.take(j));
    }
}

/// A name without any dot is kept whole by both rules.
proof fn lemma_no_dot_keeps_name(s: Seq<char>)
    requires
        forall|k: int| 0 <= k < s.len() ==> s[k] != '.',
    ensures
        spec_before_first_dot(s) == s,
        spec_before_last_dot(s) == s,
    decreases s.len(),
{
    lemma_before_first_dot_take(s, s.len() as int);
    assert(s.take(s.len() as int) =~= s);
}

/// How a display name is derived from the entry's own name before the
/// URL fallback applies; plugin variants differ only in this rule.
#[derive(Clone, Copy, PartialEq, Eq, Structural, Debug)]
pub enum NameRule {
    /// The name is used as it arrived.
    Full,
    /// Everything from the first dot on is dropped.
    TrimAfterFirstDot,
    /// Only the last file extension is dropped.
    DropLastExtension,
}

/// The name a rule derives.
pub open spec fn spec_derive_name(rule: NameRule, name: Seq<char>) -> Seq<char> {
    match rule {
        NameRule::Full => name,
        NameRule::TrimAfterFirstDot => spec_before_first_dot(name),
        NameRule::DropLastExtension => spec_before_last_dot(name),
    }
}

/// Applies a name-derivation rule.
pub fn derive_name(rule: NameRule, name: &str) -> (r: String)
    ensures
        r@ == spec_derive_name(rule, name@),
{
    match rule {
        NameRule::Full => name.to_owned(),
        NameRule::TrimAfterFirstDot => {
            let chars = chars_of(name);
            let mut i: usize = 0;
            while i < chars.len()
                invariant
                    i <= chars@.len(),
                    chars@ == name@,
                    rule == NameRule::TrimAfterFirstDot,
                    forall|k: int| 0 <= k < i ==> name@[k] != '.',
                decreases chars@.len() - i,
            {
                if chars[i] == '.' {
                    proof {
                        lemma_before_first_dot_take(name@, i as int);
                    }
                    let mut out: Vec<char> = Vec::new();
                    let mut k: usize = 0;
                    while k < i
                        invariant
                            k <= i,
                            i <= chars@.len(),
                            chars@ == name@,
                            out@ == name@.take(k as int),
                            spec_before_first_dot(name@) == name@.take(i as int),
                            rule == NameRule::TrimAfterFirstDot,
                        decreases i - k,
                    {
                        out.push(chars[k]);
                        proof {
                            assert(out@ =~= name@.take(k + 1));
                        }
                        k = k + 1;
                    }
                    return string_of_chars(&out);
                }
                i = i + 1;
            }
            proof {
                lemma_no_dot_keeps_name(name@);
            }
            name.to_owned()
        },
        NameRule::DropLastExtension => {
            let chars = chars_of(name);
            let mut i: usize = chars.len();
            while i > 0
                invariant
                    i <= chars@.len(),
                    chars@ == name@,
                    rule == NameRule::DropLastExtension,
                    forall|k: int| i <= k < name@.len() ==> name@[k] != '.',
                decreases i,
            {
                i = i - 1;
                if chars[i] == '.' {
                    proof {
                        lemma_before_last_dot_take(name@, i as int);
                    }
                    let mut out: Vec<char> = Vec::new();
                    let mut k: usize = 0;
                    while k < i
                        invariant
                            k <= i,
                            i <= chars@.len(),
                            chars@ == name@,
                            out@ == name@.take(k as int),
                            spec_before_last_dot(name@) == name@.take(i as int),
                            rule == NameRule::DropLastExtension,
                        decreases i - k,
                    {
                        out.push(chars[k]);
                        proof {
                            assert(out@ =~= name@.take(k + 1));
                        }
                        k = k + 1;
                    }
                    return string_of_chars(&out);
                }
            }
            proof {
                lemma_no_dot_keeps_name(name@);
            }
            name.to_owned()
        },
    }
}

/// The text handed to the chunker: the display name, a newline, then the
/// plain text.
pub open spec fn spec_chunk_input(name: Seq<char>, plain: Seq<char>) -> Seq<char> {
    name + seq!['\n'] + plain
}

/// Joins the display name and the plain text for chunking.
pub fn chunk_input(name: &str, plain: &str) -> (r: String)
    ensures
        r@ == spec_chunk_input(name@, plain@),
{
    let mut s = name.to_owned();
    s.append("\n");
    s.append(plain);
    proof {
        reveal_strlit("\n");
        assert(s@ =~= spec_chunk_input(name@, plain@));
    }
    s
}

} // verus!
