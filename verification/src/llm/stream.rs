//! Streaming text responses, consumable in two modes.
//!
//! A [`TextStream`] is a lazy, single-pass sequence of fallible text chunks
//! produced by a backend. It can be consumed chunk by chunk through
//! [`TextStream::next_chunk`], or drained into a single concatenated result
//! through [`TextStreamAdapter::collect`] / [`collect_text`]. Draining stops
//! at the first failing chunk and surfaces that error alone; no partial
//! concatenation is exposed on failure.

use vstd::prelude::*;

verus! {

/// The view of one pulled chunk: the text as a character sequence on
/// success, the error unchanged on failure.
pub open spec fn chunk_view<E>(chunk: Result<String, E>) -> Result<Seq<char>, E> {
    match chunk {
        Ok(text) => Ok(text@),
        Err(e) => Err(e),
    }
}

/// Prefixes a drain outcome with already-accumulated text; an error absorbs
/// the prefix.
pub open spec fn prepend_text<E>(prefix: Seq<char>, rest: Result<Seq<char>, E>) -> Result<
    Seq<char>,
    E,
> {
    match rest {
        Ok(text) => Ok(prefix + text),
        Err(e) => Err(e),
    }
}

/// The outcome of draining a chunk sequence: the in-order concatenation of
/// the chunk texts if every chunk succeeds, otherwise the first error.
pub open spec fn collect_spec<E>(chunks: Seq<Result<Seq<char>, E>>) -> Result<Seq<char>, E>
    decreases chunks.len(),
{
    if chunks.len() == 0 {
        Ok(Seq::empty())
    } else {
        match chunks[0] {
            Ok(text) => prepend_text(text, collect_spec(chunks.skip(1))),
            Err(e) => Err(e),
        }
    }
}

/// Holds when every chunk of the sequence is a success.
pub open spec fn all_ok<E>(chunks: Seq<Result<Seq<char>, E>>) -> bool {
    forall|i: int| 0 <= i < chunks.len() ==> chunks[i] is Ok
}

/// The in-order concatenation of the successful chunk texts.
pub open spec fn concat_text<E>(chunks: Seq<Result<Seq<char>, E>>) -> Seq<char>
    decreases chunks.len(),
{
    if chunks.len() == 0 {
        Seq::empty()
    } else {
        (match chunks[0] {
            Ok(text) => text,
            Err(_) => Seq::empty(),
        }) + concat_text(chunks.skip(1))
    }
}

/// An empty prefix leaves a drain outcome unchanged.
proof fn lemma_prepend_empty<E>(rest: Result<Seq<char>, E>)
    ensures
        prepend_text(Seq::empty(), rest) == rest,
{
    match rest {
        Ok(text) => {
            assert(Seq::empty() + text =~= text);
        },
        Err(_) => {},
    }
}

/// Accumulating two prefixes one after the other equals accumulating their
/// concatenation.
proof fn lemma_prepend_assoc<E>(first: Seq<char>, second: Seq<char>, rest: Result<Seq<char>, E>)
    ensures
        prepend_text(first + second, rest) == prepend_text(first, prepend_text(second, rest)),
{
    match rest {
        Ok(text) => {
            assert((first + second) + text =~= first + (second + text));
        },
        Err(_) => {},
    }
}

/// Draining a sequence whose chunks all succeed yields their in-order
/// concatenation.
pub proof fn lemma_collect_all_ok<E>(chunks: Seq<Result<Seq<char>, E>>)
    requires
        all_ok(chunks),
    ensures
        collect_spec(chunks) == Ok::<Seq<char>, E>(concat_text(chunks)),
    decreases chunks.len(),
{
    if chunks.len() > 0 {
        assert(chunks[0] is Ok);
        assert forall|i: int| 0 <= i < chunks.skip(1).len() implies chunks.skip(1)[i] is Ok by {
            assert(chunks.skip(1)[i] == chunks[i + 1]);
        }
        lemma_collect_all_ok(chunks.skip(1));
    }
}

/// Draining a sequence whose first failure sits at position `i` yields
/// exactly that error: everything before it is absorbed, nothing after it is
/// looked at.
pub proof fn lemma_collect_first_error<E>(chunks: Seq<Result<Seq<char>, E>>, i: int)
    requires
        0 <= i < chunks.len(),
        chunks[i] is Err,
        forall|k: int| 0 <= k < i ==> chunks[k] is Ok,
    ensures
        collect_spec(chunks) == chunks[i],
    decreases i,
{
    if i == 0 {
    } else {
        assert(chunks[0] is Ok);
        assert forall|k: int| 0 <= k < i - 1 implies chunks.skip(1)[k] is Ok by {
            assert(chunks.skip(1)[k] == chunks[k + 1]);
        }
        assert(chunks.skip(1)[i - 1] == chunks[i]);
        lemma_collect_first_error(chunks.skip(1), i - 1);
    }
}

/// The number of chunks before the first failing one: the index of the
/// first error, or the length of the sequence when every chunk succeeds.
pub open spec fn error_free_prefix<E>(chunks: Seq<Result<Seq<char>, E>>) -> int
    decreases chunks.len(),
{
    if chunks.len() == 0 {
        0
    } else if chunks[0] is Err {
        0
    } else {
        1 + error_free_prefix(chunks.skip(1))
    }
}

/// When the chunks up to position `i` succeed and the chunk at `i` fails,
/// `i` is exactly the error-free prefix length.
proof fn lemma_error_free_prefix_at<E>(chunks: Seq<Result<Seq<char>, E>>, i: int)
    requires
        0 <= i < chunks.len(),
        chunks[i] is Err,
        forall|k: int| 0 <= k < i ==> chunks[k] is Ok,
    ensures
        error_free_prefix(chunks) == i,
    decreases i,
{
    if i > 0 {
        assert(chunks[0] is Ok);
        assert forall|k: int| 0 <= k < i - 1 implies chunks.skip(1)[k] is Ok by {
            assert(chunks.skip(1)[k] == chunks[k + 1]);
        }
        assert(chunks.skip(1)[i - 1] == chunks[i]);
        lemma_error_free_prefix_at(chunks.skip(1), i - 1);
    }
}

/// A lazy, single-pass source of fallible text chunks.
///
/// `remaining` is the ghost sequence of chunks the stream will still yield,
/// in order; each successful pull removes exactly the head. Implementations
/// supplied by backends decide what the chunks are; this crate's combinators
/// are verified against this interface alone.
pub trait TextStream: Sized {
    /// The error type produced by this text stream.
    type Error;

    /// The chunks this stream will still yield, in order.
    spec fn remaining(&self) -> Seq<Result<Seq<char>, Self::Error>>;

    /// Pulls the next chunk. `Some` yields exactly the head of `remaining`
    /// and drops it from the stream; `None` means the stream is exhausted
    /// and stays exhausted.
    fn next_chunk(&mut self) -> (r: Option<Result<String, Self::Error>>)
        ensures
            match r {
                Some(chunk) => old(self).remaining().len() > 0 && chunk_view(chunk) == old(
                    self,
                ).remaining()[0] && final(self).remaining() == old(self).remaining().skip(1),
                None => old(self).remaining().len() == 0 && final(self).remaining() == old(
                    self,
                ).remaining(),
            },
    ;
}

/// Drains a stream to completion: concatenates the texts of the remaining
/// chunks in order, or returns the first error, discarding anything
/// accumulated before it. On success the stream is exhausted; on failure
/// exactly the chunks up to and including the failing one have been pulled,
/// and everything after it is still in the stream, untouched.
pub fn collect_text<S: TextStream>(stream: &mut S) -> (r: Result<String, S::Error>)
    ensures
        chunk_view(r) == collect_spec(old(stream).remaining()),
        r is Ok ==> final(stream).remaining().len() == 0,
        r is Err ==> final(stream).remaining() == old(stream).remaining().skip(
            error_free_prefix(old(stream).remaining()) + 1,
        ),
{
    let ghost orig = stream.remaining();
    let ghost mut pulled: int = 0;
    let mut buffer = String::new();
    proof {
        lemma_prepend_empty(collect_spec(stream.remaining()));
        assert(orig.skip(0) =~= orig);
    }
    loop
        invariant
            orig == old(stream).remaining(),
            0 <= pulled <= orig.len(),
            stream.remaining() == orig.skip(pulled),
            forall|k: int| 0 <= k < pulled ==> orig[k] is Ok,
            prepend_text(buffer@, collect_spec(stream.remaining())) == collect_spec(orig),
        decreases stream.remaining().len(),
    {
        match stream.next_chunk() {
            Some(chunk) => match chunk {
                Ok(text) => {
                    proof {
                        lemma_prepend_assoc(buffer@, text@, collect_spec(stream.remaining()));
                        assert(orig.skip(pulled)[0] == orig[pulled]);
                        assert(orig.skip(pulled).skip(1) =~= orig.skip(pulled + 1));
                        pulled = pulled + 1;
                    }
                    buffer.append(text.as_str());
                },
                Err(e) => {
                    proof {
                        assert(orig.skip(pulled)[0] == orig[pulled]);
                        lemma_error_free_prefix_at(orig, pulled);
                        assert(orig.skip(pulled).skip(1) =~= orig.skip(pulled + 1));
                    }
                    return Err(e);
                },
            },
            None => {
                proof {
                    assert(buffer@ + Seq::<char>::empty() =~= buffer@);
                }
                return Ok(buffer);
            },
        }
    }
}

/// A chunk source over an in-memory list of chunks, yielded front to back.
/// Useful for tests and for replaying an already-received response.
pub struct VecSource<E> {
    chunks: Vec<Result<String, E>>,
}

impl<E> VecSource<E> {
    /// Wraps a list of chunks as a stream that yields them in order.
    pub fn new(chunks: Vec<Result<String, E>>) -> (s: VecSource<E>)
        ensures
            s.remaining() == chunks@.map_values(|c: Result<String, E>| chunk_view(c)),
    {
        VecSource { chunks }
    }
}

impl<E> TextStream for VecSource<E> {
    type Error = E;

    closed spec fn remaining(&self) -> Seq<Result<Seq<char>, E>> {
        self.chunks@.map_values(|c: Result<String, E>| chunk_view(c))
    }

    fn next_chunk(&mut self) -> (r: Option<Result<String, E>>) {
        if self.chunks.len() == 0 {
            None
        } else {
            let ghost before = self.chunks@;
            let chunk = self.chunks.remove(0);
            proof {
                assert forall|i: int| 0 <= i < self.chunks@.len() implies self.chunks@[i]
                    == before[i + 1] by {}
                assert(self.remaining() =~= before.map_values(
                    |c: Result<String, E>| chunk_view(c),
                ).skip(1));
            }
            Some(chunk)
        }
    }
}

/// Presents any [`TextStream`] through both consumption modes: lazy pulls
/// via [`TextStream::next_chunk`], or a single drain via
/// [`TextStreamAdapter::collect`]. Pulls already taken lazily are gone; a
/// later drain concatenates only what remains.
pub struct TextStreamAdapter<S: TextStream> {
    stream: S,
}

impl<S: TextStream> TextStream for TextStreamAdapter<S> {
    type Error = S::Error;

    closed spec fn remaining(&self) -> Seq<Result<Seq<char>, S::Error>> {
        self.stream.remaining()
    }

    fn next_chunk(&mut self) -> (r: Option<Result<String, S::Error>>) {
        self.stream.next_chunk()
    }
}

impl<S: TextStream> TextStreamAdapter<S> {
    /// Drains the stream: the concatenation of all remaining chunk texts in
    /// order, or the first error with the partial concatenation discarded.
    /// Consumes the adapter; a drained stream cannot be restarted.
    pub fn collect(self) -> (r: Result<String, S::Error>)
        ensures
            chunk_view(r) == collect_spec(self.remaining()),
    {
        let mut stream = self.stream;
        collect_text(&mut stream)
    }
}

/// Wraps a chunk source so it can be consumed chunk by chunk or drained to a
/// single result.
pub fn text_stream<S: TextStream>(stream: S) -> (t: TextStreamAdapter<S>)
    ensures
        t.remaining() == stream.remaining(),
{
    TextStreamAdapter { stream }
}

} // verus!
