//! The writer: bytes are gathered in memory and handed over in one piece
//! when the writer is closed.

use vstd::prelude::*;

verus! {

/// Gathers the bytes written to one file until it is closed or aborted.
pub struct OpfsWriter {
    path: String,
    buffer: Option<Vec<u8>>,
}

/// A writer seen as its path and the bytes it holds (`None` once they were
/// handed over or thrown away).
pub struct WriterView {
    pub path: Seq<char>,
    pub buffer: Option<Seq<u8>>,
}

/// The bytes a buffer holds, an absent buffer holding none.
pub open spec fn held_bytes(buffer: Option<Seq<u8>>) -> Seq<u8> {
    match buffer {
        Some(b) => b,
        None => Seq::empty(),
    }
}

/// A writer just opened on `path`.
pub open spec fn spec_new_writer(path: Seq<char>) -> WriterView {
    WriterView { path, buffer: Some(Seq::empty()) }
}

/// The writer after `bs` was written to it.
pub open spec fn spec_write(w: WriterView, bs: Seq<u8>) -> WriterView {
    WriterView { path: w.path, buffer: Some(held_bytes(w.buffer) + bs) }
}

/// The writer after its bytes were handed over, and those bytes.
pub open spec fn spec_take(w: WriterView) -> (WriterView, Seq<u8>) {
    (WriterView { path: w.path, buffer: None }, held_bytes(w.buffer))
}

/// The writer after it was aborted.
pub open spec fn spec_abort(w: WriterView) -> WriterView {
    WriterView { path: w.path, buffer: None }
}

/// The writer after the chunks were written to it, in order.
pub open spec fn spec_write_all(w: WriterView, chunks: Seq<Seq<u8>>) -> WriterView
    decreases chunks.len(),
{
    if chunks.len() == 0 {
        w
    } else {
        spec_write(spec_write_all(w, chunks.drop_last()), chunks.last())
    }
}

/// The chunks one after the other.
pub open spec fn concat_chunks(chunks: Seq<Seq<u8>>) -> Seq<u8>
    decreases chunks.len(),
{
    if chunks.len() == 0 {
        Seq::empty()
    } else {
        concat_chunks(chunks.drop_last()) + chunks.last()
    }
}

impl View for OpfsWriter {
    type V = WriterView;

    closed spec fn view(&self) -> WriterView {
        WriterView {
            path: self.path@,
            buffer: match self.buffer {
                Some(b) => Some(b@),
                None => None,
            },
        }
    }
}

impl OpfsWriter {
    /// A writer for the file at `path`, holding no bytes yet.
    pub fn new(path: &str) -> (w: Self)
        ensures
            w@ == spec_new_writer(path@),
            w@.path == path@,
            w@.buffer == Some(Seq::<u8>::empty()),
    {
        OpfsWriter { path: path.to_owned(), buffer: Some(Vec::new()) }
    }

    /// The path of the file being written.
    pub fn path(&self) -> (p: &str)
        ensures
            p@ == self@.path,
    {
        self.path.as_str()
    }

    /// Appends `bs` to the bytes held; a writer that had handed over or
    /// thrown away its bytes starts again from none.
    pub fn write(&mut self, bs: &[u8])
        ensures
            final(self)@ == spec_write(old(self)@, bs@),
            final(self)@.path == old(self)@.path,
            final(self)@.buffer == Some(held_bytes(old(self)@.buffer) + bs@),
    {
        let mut held: Option<Vec<u8>> = None;
        std::mem::swap(&mut held, &mut self.buffer);
        let mut buf = match held {
            Some(b) => b,
            None => Vec::new(),
        };
        let ghost before = buf@;
        buf.extend_from_slice(bs);
        assert(buf@ =~= before + bs@);
        self.buffer = Some(buf);
    }

    /// Hands over the bytes held, as closing does before they are written to
    /// the file; the writer holds none afterwards.
    pub fn take_content(&mut self) -> (content: Vec<u8>)
        ensures
            (final(self)@, content@) == spec_take(old(self)@),
            final(self)@.path == old(self)@.path,
            final(self)@.buffer is None,
            content@ == held_bytes(old(self)@.buffer),
    {
        let mut held: Option<Vec<u8>> = None;
        std::mem::swap(&mut held, &mut self.buffer);
        match held {
            Some(b) => b,
            None => Vec::new(),
        }
    }

    /// Throws away the bytes held.
    pub fn abort(&mut self)
        ensures
            final(self)@ == spec_abort(old(self)@),
            final(self)@.path == old(self)@.path,
            final(self)@.buffer is None,
    {
        self.buffer = None;
    }
}

/// What is handed over on closing is everything written since the writer
/// was opened, in the order it was written.
pub proof fn lemma_close_hands_over_all_writes(path: Seq<char>, chunks: Seq<Seq<u8>>)
    ensures
        spec_write_all(spec_new_writer(path), chunks).buffer == Some(concat_chunks(chunks)),
        spec_take(spec_write_all(spec_new_writer(path), chunks)).1 == concat_chunks(chunks),
    decreases chunks.len(),
{
    if chunks.len() > 0 {
        lemma_close_hands_over_all_writes(path, chunks.drop_last());
    } else {
        assert(concat_chunks(chunks) =~= Seq::<u8>::empty());
    }
}

/// A writer holds the very path it was opened on, and no write, close or
/// abort changes it: the bytes go to the file the caller named.
pub proof fn lemma_writer_keeps_path(path: Seq<char>, chunks: Seq<Seq<u8>>)
    ensures
        spec_new_writer(path).path == path,
        spec_write_all(spec_new_writer(path), chunks).path == path,
        spec_take(spec_write_all(spec_new_writer(path), chunks)).0.path == path,
        spec_abort(spec_write_all(spec_new_writer(path), chunks)).path == path,
    decreases chunks.len(),
{
    if chunks.len() > 0 {
        lemma_writer_keeps_path(path, chunks.drop_last());
    }
}

/// Aborting throws away what was written: closing afterwards hands over no
/// bytes, and a write afterwards starts again from none.
pub proof fn lemma_abort_discards(w: WriterView, bs: Seq<u8>)
    ensures
        spec_take(spec_abort(w)).1 == Seq::<u8>::empty(),
        spec_write(spec_abort(w), bs).buffer == Some(bs),
{
    assert(Seq::<u8>::empty() + bs =~= bs);
}

/// Closing hands the bytes over once: a second close hands over none.
pub proof fn lemma_take_once(w: WriterView)
    ensures
        spec_take(spec_take(w).0).1 == Seq::<u8>::empty(),
        spec_take(w).0.path == w.path,
{
}

} // verus!
