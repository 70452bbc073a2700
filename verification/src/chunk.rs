//! A chunk: encoded instructions, one source-line marker per byte, and a
//! pool of constants. A chunk only grows; what was written keeps its place.

use crate::value::{views, Value, ValueView};
use vstd::prelude::*;

verus! {

/// A compiled unit of bytecode.
#[derive(Debug)]
pub struct Chunk {
    code: Vec<u8>,
    lines: Vec<u8>,
    constants: Vec<Value>,
}

/// What a chunk holds: its bytes, the line marker of each byte, and its
/// constants, each in the order in which they were added.
pub struct ChunkView {
    pub code: Seq<u8>,
    pub lines: Seq<u8>,
    pub constants: Seq<ValueView>,
}

/// The failure of a read from the constant pool: `index` is not below `len`,
/// the number of constants in the pool.
#[derive(Debug, PartialEq, Eq, Copy, Clone, Structural)]
pub struct OutOfRange {
    pub index: usize,
    pub len: usize,
}

impl ChunkView {
    /// The chunk with nothing in it.
    pub open spec fn empty() -> ChunkView {
        ChunkView { code: Seq::empty(), lines: Seq::empty(), constants: Seq::empty() }
    }

    /// Every byte has its line marker.
    pub open spec fn well_formed(self) -> bool {
        self.lines.len() == self.code.len()
    }

    /// The chunk with one more byte and its line marker at the end.
    pub open spec fn write(self, byte: u8, line: u8) -> ChunkView {
        ChunkView {
            code: self.code.push(byte),
            lines: self.lines.push(line),
            constants: self.constants,
        }
    }

    /// The chunk with one more constant at the end of the pool.
    pub open spec fn add_constant(self, value: ValueView) -> ChunkView {
        ChunkView {
            code: self.code,
            lines: self.lines,
            constants: self.constants.push(value),
        }
    }
}

/// One way in which a chunk grows.
pub enum Growth {
    /// A byte of code is written, with its line marker.
    Write(u8, u8),
    /// A constant is added to the pool.
    AddConstant(ValueView),
}

/// The chunk after it has grown in the given ways, one after the other.
pub open spec fn grown(chunk: ChunkView, growth: Seq<Growth>) -> ChunkView
    decreases growth.len(),
{
    if growth.len() == 0 {
        chunk
    } else {
        let before = grown(chunk, growth.drop_last());
        match growth.last() {
            Growth::Write(byte, line) => before.write(byte, line),
            Growth::AddConstant(value) => before.add_constant(value),
        }
    }
}

/// The number of bytes written in the course of the given growth.
pub open spec fn written_bytes(growth: Seq<Growth>) -> nat
    decreases growth.len(),
{
    if growth.len() == 0 {
        0
    } else {
        written_bytes(growth.drop_last()) + if growth.last() is Write {
            1nat
        } else {
            0nat
        }
    }
}

/// However a chunk grows, every byte keeps its line marker: a chunk in
/// which each byte has one grows by as many line markers as bytes, and what
/// it held before stays where it was.
pub proof fn lemma_growth_keeps_lines(chunk: ChunkView, growth: Seq<Growth>)
    requires
        chunk.well_formed(),
    ensures
        grown(chunk, growth).well_formed(),
        grown(chunk, growth).code.len() == chunk.code.len() + written_bytes(growth),
        grown(chunk, growth).lines.len() == chunk.lines.len() + written_bytes(growth),
        grown(chunk, growth).code.take(chunk.code.len() as int) == chunk.code,
        grown(chunk, growth).lines.take(chunk.lines.len() as int) == chunk.lines,
    decreases growth.len(),
{
    if growth.len() > 0 {
        lemma_growth_keeps_lines(chunk, growth.drop_last());
        let before = grown(chunk, growth.drop_last());
        assert(grown(chunk, growth).code.take(chunk.code.len() as int) =~= before.code.take(
            chunk.code.len() as int,
        ));
        assert(grown(chunk, growth).lines.take(chunk.lines.len() as int) =~= before.lines.take(
            chunk.lines.len() as int,
        ));
    } else {
        assert(chunk.code.take(chunk.code.len() as int) =~= chunk.code);
        assert(chunk.lines.take(chunk.lines.len() as int) =~= chunk.lines);
    }
}

/// A chunk that starts empty and has bytes written to it, in any number
/// and with constants added in between, has as many line markers as bytes
/// written.
pub proof fn lemma_written_bytes_have_lines(growth: Seq<Growth>)
    ensures
        grown(ChunkView::empty(), growth).code.len() == written_bytes(growth),
        grown(ChunkView::empty(), growth).lines.len() == written_bytes(growth),
{
    lemma_growth_keeps_lines(ChunkView::empty(), growth);
}

/// A constant keeps its index and its value for as long as the chunk
/// lives: after `value` was added to `chunk`, and however the chunk grows
/// after that, the pool holds `value` at the index that the addition
/// returned, which is the number of constants that `chunk` had.
pub proof fn lemma_constant_stays(chunk: ChunkView, value: ValueView, growth: Seq<Growth>)
    ensures
        chunk.constants.len() < grown(chunk.add_constant(value), growth).constants.len(),
        grown(chunk.add_constant(value), growth).constants[chunk.constants.len() as int]
            == value,
    decreases growth.len(),
{
    if growth.len() > 0 {
        lemma_constant_stays(chunk, value, growth.drop_last());
    }
}

impl View for Chunk {
    type V = ChunkView;

    closed spec fn view(&self) -> ChunkView {
        ChunkView { code: self.code@, lines: self.lines@, constants: views(self.constants@) }
    }
}

impl Chunk {
    /// Every byte of code has its line marker. To keep this true at every
    /// moment, `write` and `add_constant` take the chunk's parts out, change
    /// them, and put them back as a whole.
    #[verifier::type_invariant]
    spec fn lines_cover_code(&self) -> bool {
        self.lines@.len() == self.code@.len()
    }

    /// An empty chunk.
    pub fn new() -> (chunk: Chunk)
        ensures
            chunk@ == ChunkView::empty(),
    {
        let chunk = Chunk { code: Vec::new(), lines: Vec::new(), constants: Vec::new() };
        assert(chunk@.constants =~= Seq::empty());
        chunk
    }

    /// Appends one byte of code and the marker of the source line it came
    /// from.
    pub fn write(&mut self, byte: u8, line: u8)
        ensures
            final(self)@ == old(self)@.write(byte, line),
            final(self)@.well_formed(),
    {
        let mut taken = Chunk::new();
        std::mem::swap(self, &mut taken);
        proof {
            use_type_invariant(&taken);
        }
        let Chunk { mut code, mut lines, constants } = taken;
        code.push(byte);
        lines.push(line);
        *self = Chunk { code, lines, constants };
    }

    /// Adds a constant at the end of the pool and returns its index. The
    /// constants added before keep their indices.
    pub fn add_constant(&mut self, value: Value) -> (index: usize)
        ensures
            index == old(self)@.constants.len(),
            final(self)@ == old(self)@.add_constant(value@),
    {
        let mut taken = Chunk::new();
        std::mem::swap(self, &mut taken);
        proof {
            use_type_invariant(&taken);
        }
        let Chunk { code, lines, mut constants } = taken;
        let index = constants.len();
        constants.push(value);
        assert(views(constants@) =~= views(old(self).constants@).push(value@));
        *self = Chunk { code, lines, constants };
        index
    }

    /// Returns a copy of the constant at `index`, or the error if the pool
    /// has no such constant.
    pub fn read_constant(&self, index: usize) -> (read: Result<Value, OutOfRange>)
        ensures
            match read {
                Ok(value) => {
                    &&& index < self@.constants.len()
                    &&& value@ == self@.constants[index as int]
                },
                Err(e) => {
                    &&& index >= self@.constants.len()
                    &&& e == (OutOfRange { index, len: self@.constants.len() as usize })
                },
            },
    {
        if index < self.constants.len() {
            Ok(self.constants[index].clone())
        } else {
            Err(OutOfRange { index, len: self.constants.len() })
        }
    }

    /// The bytes of code.
    pub fn code(&self) -> (code: &Vec<u8>)
        ensures
            code@ == self@.code,
            self@.well_formed(),
    {
        proof {
            use_type_invariant(self);
        }
        &self.code
    }

    /// The line markers, one for each byte of code.
    pub fn lines(&self) -> (lines: &Vec<u8>)
        ensures
            lines@ == self@.lines,
            self@.well_formed(),
    {
        proof {
            use_type_invariant(self);
        }
        &self.lines
    }

    /// The constant pool.
    pub fn constants(&self) -> (constants: &Vec<Value>)
        ensures
            views(constants@) == self@.constants,
    {
        &self.constants
    }
}

} // verus!
