//! An indenting text sink.
//!
//! Text is written character by character. A line feed ends the physical
//! line; the first other character of a physical line is preceded by one tab
//! per indentation level. A line that stays empty gets no indentation.

use vstd::prelude::*;
use crate::text::push_char;

verus! {

/// What a stream is, as far as its output goes: the text so far, the
/// indentation in force, and whether the next character starts a line.
pub struct StreamState {
    pub indent: nat,
    pub at_line_start: bool,
    pub text: Seq<char>,
}

/// `n` tab characters.
pub open spec fn tabs(n: nat) -> Seq<char> {
    Seq::new(n, |i: int| '\t')
}

impl StreamState {
    /// A fresh stream: nothing written, no indentation, at the start of a line.
    pub open spec fn start() -> StreamState {
        StreamState { indent: 0, at_line_start: true, text: Seq::empty() }
    }

    /// The state after one more character.
    pub open spec fn put(self, c: char) -> StreamState {
        if c == '\n' {
            StreamState { at_line_start: true, text: self.text.push('\n'), ..self }
        } else if self.at_line_start {
            StreamState {
                at_line_start: false,
                text: (self.text + tabs(self.indent)).push(c),
                ..self
            }
        } else {
            StreamState { text: self.text.push(c), ..self }
        }
    }

    /// The state after the characters of `s`, in order.
    pub open spec fn write(self, s: Seq<char>) -> StreamState
        decreases s.len(),
    {
        if s.len() == 0 {
            self
        } else {
            self.write(s.drop_last()).put(s.last())
        }
    }

    /// One level deeper.
    pub open spec fn indented(self) -> StreamState {
        StreamState { indent: self.indent + 1, ..self }
    }

    /// One level back; level 0 stays.
    pub open spec fn unindented(self) -> StreamState {
        StreamState { indent: if self.indent > 0 { (self.indent - 1) as nat } else { 0 }, ..self }
    }
}

/// Writing `a` and then `b` is writing `a + b`.
pub proof fn lemma_write_concat(st: StreamState, a: Seq<char>, b: Seq<char>)
    ensures
        st.write(a).write(b) == st.write(a + b),
    decreases b.len(),
{
    if b.len() == 0 {
        assert(a + b =~= a);
    } else {
        lemma_write_concat(st, a, b.drop_last());
        assert((a + b).drop_last() =~= a + b.drop_last());
        assert((a + b).last() == b.last());
    }
}

/// Text without a line feed, written in the middle of a line, is appended as
/// it is.
pub proof fn lemma_write_mid_line(st: StreamState, s: Seq<char>)
    requires
        !st.at_line_start,
        !s.contains('\n'),
    ensures
        st.write(s) == (StreamState { text: st.text + s, ..st }),
    decreases s.len(),
{
    if s.len() == 0 {
        assert(st.text + s =~= st.text);
    } else {
        let front = s.drop_last();
        assert(forall|i: int| 0 <= i < front.len() ==> front[i] == s[i]);
        assert(!front.contains('\n'));
        lemma_write_mid_line(st, front);
        assert(s.contains(s.last()));
        assert((st.text + front).push(s.last()) =~= st.text + s);
    }
}

/// The indentation is inserted once per physical line: text without a line
/// feed, and not empty, written at the start of a line comes out behind one
/// tab per level.
pub proof fn lemma_write_line_start(st: StreamState, s: Seq<char>)
    requires
        st.at_line_start,
        s.len() > 0,
        !s.contains('\n'),
    ensures
        st.write(s) == (StreamState {
            at_line_start: false,
            text: st.text + tabs(st.indent) + s,
            ..st
        }),
{
    let head = s.subrange(0, 1);
    let rest = s.subrange(1, s.len() as int);
    assert(head + rest =~= s);
    lemma_write_concat(st, head, rest);
    assert(head.drop_last() =~= Seq::<char>::empty());
    assert(st.write(head.drop_last()) == st);
    assert(s.contains(s[0]));
    assert(st.write(head) == st.put(s[0]));
    assert(forall|i: int| 0 <= i < rest.len() ==> rest[i] == s[i + 1]);
    assert(!rest.contains('\n'));
    lemma_write_mid_line(st.put(s[0]), rest);
    assert((st.text + tabs(st.indent)).push(s[0]) + rest =~= st.text + tabs(st.indent) + s);
}

/// An empty line gets no indentation: a line feed at the start of a line
/// adds the line feed alone.
pub proof fn lemma_write_empty_line(st: StreamState)
    ensures
        st.write(seq!['\n']) == (StreamState {
            at_line_start: true,
            text: st.text.push('\n'),
            ..st
        }),
{
    let s = seq!['\n'];
    assert(s.drop_last() =~= Seq::<char>::empty());
    assert(st.write(s.drop_last()) == st);
}

/// A text sink that indents what is written to it.
pub struct TSStream {
    indent_level: usize,
    is_start_of_line: bool,
    inner: String,
}

impl View for TSStream {
    type V = StreamState;

    closed spec fn view(&self) -> StreamState {
        StreamState {
            indent: self.indent_level as nat,
            at_line_start: self.is_start_of_line,
            text: self.inner@,
        }
    }
}

impl TSStream {
    /// An empty stream at indentation level 0.
    pub fn new() -> (stream: TSStream)
        ensures
            stream@ == StreamState::start(),
    {
        TSStream { indent_level: 0, is_start_of_line: true, inner: String::new() }
    }

    /// The indentation level in force.
    pub fn indent_level(&self) -> (level: usize)
        ensures
            level == self@.indent,
    {
        self.indent_level
    }

    /// Whether the next character written starts a physical line.
    pub fn is_start_of_line(&self) -> (at_start: bool)
        ensures
            at_start == self@.at_line_start,
    {
        self.is_start_of_line
    }

    /// The text written so far.
    pub fn as_str(&self) -> (text: &str)
        ensures
            text@ == self@.text,
    {
        self.inner.as_str()
    }

    /// Ends the stream and hands out its text.
    pub fn into_string(self) -> (text: String)
        ensures
            text@ == self@.text,
    {
        self.inner
    }

    /// Lines begun from now on are indented one level deeper.
    pub fn indent(&mut self)
        requires
            old(self)@.indent < usize::MAX,
        ensures
            final(self)@ == old(self)@.indented(),
    {
        self.indent_level += 1;
    }

    /// Takes back one level of indentation.
    pub fn unindent(&mut self)
        requires
            old(self)@.indent > 0,
        ensures
            final(self)@ == old(self)@.unindented(),
    {
        self.indent_level -= 1;
    }

    /// Ends the current physical line.
    pub fn line(&mut self)
        ensures
            final(self)@ == old(self)@.put('\n'),
            final(self)@.indent == old(self)@.indent,
    {
        self.is_start_of_line = true;
        push_char(&mut self.inner, '\n');
    }

    /// Writes one character, indenting first where it starts a line.
    pub fn write_char(&mut self, c: char)
        ensures
            final(self)@ == old(self)@.put(c),
            final(self)@.indent == old(self)@.indent,
    {
        if c == '\n' {
            self.line();
        } else {
            if self.is_start_of_line {
                self.is_start_of_line = false;
                let mut written: usize = 0;
                while written < self.indent_level
                    invariant
                        written <= self.indent_level,
                        self.indent_level == old(self).indent_level,
                        !self.is_start_of_line,
                        self.inner@ == old(self).inner@ + tabs(written as nat),
                    decreases self.indent_level - written,
                {
                    push_char(&mut self.inner, '\t');
                    written += 1;
                    assert(self.inner@ =~= old(self).inner@ + tabs(written as nat));
                }
            }
            push_char(&mut self.inner, c);
        }
    }

    /// Writes `value`, splitting it at line feeds so that every physical
    /// line that is not empty is indented exactly once.
    pub fn write_str(&mut self, value: &str)
        ensures
            final(self)@ == old(self)@.write(value@),
            final(self)@.indent == old(self)@.indent,
    {
        for c in it: value.chars()
            invariant
                it.seq() == value@,
                self@ == old(self)@.write(value@.subrange(0, it.index() as int)),
                self@.indent == old(self)@.indent,
        {
            proof {
                let done = value@.subrange(0, it.index() as int);
                let next = value@.subrange(0, it.index() as int + 1);
                assert(next.drop_last() =~= done);
                assert(next.last() == c);
            }
            self.write_char(c);
        }
        assert(value@.subrange(0, value@.len() as int) =~= value@);
    }
}

} // verus!
