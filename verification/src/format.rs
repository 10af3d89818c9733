//! Rendering: what a value writes when it becomes a fragment of the bar.

use vstd::prelude::*;
use vstd::utf8::encode_utf8;
use crate::position::Align;
use crate::text::push_char;
use crate::util::Error;

verus! {

/// The bytes that write `text`: its characters in UTF-8.
pub open spec fn utf8(text: Seq<char>) -> Seq<u8> {
    encode_utf8(text)
}

/// Two texts one after the other are written by the bytes of the first and
/// then those of the second.
pub proof fn lemma_utf8_concat(a: Seq<char>, b: Seq<char>)
    ensures
        utf8(a + b) == utf8(a) + utf8(b),
    decreases a.len(),
{
    if a.len() > 0 {
        lemma_utf8_concat(a.drop_first(), b);
        assert((a + b).drop_first() == a.drop_first() + b);
    }
}

/// A buffer that collects what values write.
pub struct Formatter {
    buf: Vec<u8>,
}

impl View for Formatter {
    type V = Seq<u8>;

    /// The bytes written so far.
    closed spec fn view(&self) -> Seq<u8> {
        self.buf@
    }
}

/// A value that can be rendered.
pub trait Format {
    /// The bytes that this value writes.
    spec fn rendered(&self) -> Seq<u8>;

    /// Whether this value can be rendered: writing it succeeds where it
    /// can, and fails where it cannot.
    spec fn renders(&self) -> bool;

    /// Writes this value at the end of `fmt`. Where this fails, what `fmt`
    /// held before is still there, with whatever was written after it.
    fn fmt(&self, fmt: &mut Formatter) -> (done: Result<(), Error>)
        ensures
            done is Ok <==> self.renders(),
            done is Ok ==> final(fmt)@ == old(fmt)@ + self.rendered(),
            done is Err ==> old(fmt)@.is_prefix_of(final(fmt)@),
    ;
}

impl Formatter {
    /// A buffer with nothing written.
    pub fn new() -> (fmt: Formatter)
        ensures
            fmt@ == Seq::<u8>::empty(),
    {
        Formatter { buf: Vec::new() }
    }

    /// Writes `source` at the end of the buffer. This succeeds where
    /// `source` can be rendered, and only there.
    pub fn write<T: Format + ?Sized>(&mut self, source: &T) -> (done: Result<(), Error>)
        ensures
            done is Ok <==> source.renders(),
            done is Ok ==> final(self)@ == old(self)@ + source.rendered(),
            done is Err ==> old(self)@.is_prefix_of(final(self)@),
    {
        source.fmt(self)
    }

    /// Writes `bytes` at the end of the buffer as they are.
    pub fn write_bytes(&mut self, bytes: &[u8])
        ensures
            final(self)@ == old(self)@ + bytes@,
    {
        self.buf.extend_from_slice(bytes);
    }

    /// The bytes written so far.
    pub fn into_bytes(self) -> (bytes: Vec<u8>)
        ensures
            bytes@ == self@,
    {
        self.buf
    }
}

impl Format for str {
    /// A text writes its characters in UTF-8.
    open spec fn rendered(&self) -> Seq<u8> {
        utf8(self@)
    }

    open spec fn renders(&self) -> bool {
        true
    }

    fn fmt(&self, fmt: &mut Formatter) -> (done: Result<(), Error>)
        ensures
            done is Ok,
    {
        fmt.buf.extend_from_slice(self.as_bytes());
        Ok(())
    }
}

impl Format for char {
    /// A character writes its UTF-8 encoding.
    open spec fn rendered(&self) -> Seq<u8> {
        utf8(seq![*self])
    }

    open spec fn renders(&self) -> bool {
        true
    }

    fn fmt(&self, fmt: &mut Formatter) -> (done: Result<(), Error>)
        ensures
            done is Ok,
    {
        let mut text = String::new();
        push_char(&mut text, *self);
        text.as_str().fmt(fmt)
    }
}

/// The marker that opens a zone in the line for the renderer: `%{l}`,
/// `%{c}` or `%{r}`.
pub open spec fn zone_marker(zone: Align) -> Seq<char> {
    match zone {
        Align::Left => "%{l}"@,
        Align::Center => "%{c}"@,
        Align::Right => "%{r}"@,
    }
}

impl Format for Align {
    /// A zone writes its marker.
    open spec fn rendered(&self) -> Seq<u8> {
        utf8(zone_marker(*self))
    }

    open spec fn renders(&self) -> bool {
        true
    }

    fn fmt(&self, fmt: &mut Formatter) -> (done: Result<(), Error>)
        ensures
            done is Ok,
    {
        let align = match *self {
            Align::Left => "%{l}",
            Align::Center => "%{c}",
            Align::Right => "%{r}",
        };
        align.fmt(fmt)
    }
}

} // verus!
