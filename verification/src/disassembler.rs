//! The disassembler: a read-only walk over a chunk that renders each
//! instruction as one line of text.
//!
//! A line holds the byte offset, the source-line marker (or a continuation
//! mark where the byte before has the same marker), the opcode's mnemonic,
//! and for a constant instruction the operand and the constant in its debug
//! form. The text goes to a `String` that the caller supplies; numbers are
//! rendered by a function that the caller supplies too.

use crate::chunk::{Chunk, ChunkView};
use crate::opcodes::OpCode;
use crate::text::{append_decimal, decimal, followed_by};
use crate::value::{
    has_one_text, is_debug_text_of, lemma_debug_text_unique, renderings, renders_one_way,
    ValueView,
};
use vstd::prelude::*;

verus! {

/// The offset of the instruction after the one at `offset`: two bytes on
/// for a constant instruction whose operand byte is there, one byte on
/// otherwise.
pub open spec fn next_offset(chunk: ChunkView, offset: int) -> int {
    if OpCode::decoding(chunk.code[offset]) == Some(OpCode::OP_CONSTANT) && offset + 1
        < chunk.code.len() {
        offset + 2
    } else {
        offset + 1
    }
}

/// What a line shows for the source line of the byte at `offset`: a
/// continuation mark if the byte before it has the same marker, else the
/// marker in decimal and a space.
pub open spec fn line_mark(chunk: ChunkView, offset: int) -> Seq<char> {
    if offset > 0 && chunk.lines[offset] == chunk.lines[offset - 1] {
        "  | "@
    } else {
        decimal(chunk.lines[offset] as nat) + " "@
    }
}

/// How a line begins: the offset in decimal, a space, and the line mark.
pub open spec fn line_head(chunk: ChunkView, offset: int) -> Seq<char> {
    decimal(offset as nat) + " "@ + line_mark(chunk, offset)
}

/// The constant that the line for the instruction at `offset` shows: that
/// of a constant instruction whose operand byte is there and names a
/// constant of the pool.
pub open spec fn shown_constant(chunk: ChunkView, offset: int) -> Option<ValueView> {
    if OpCode::decoding(chunk.code[offset]) == Some(OpCode::OP_CONSTANT) && offset + 1
        < chunk.code.len() && chunk.code[offset + 1] < chunk.constants.len() {
        Some(chunk.constants[chunk.code[offset + 1] as int])
    } else {
        None
    }
}

/// Whether `text` is what a line shows after the mnemonic of a constant
/// instruction at `offset`: the operand in decimal and the constant in its
/// debug form, or a note that there is no operand, or no such constant.
pub open spec fn is_operand_text(
    number_texts: spec_fn(u64, Seq<char>) -> bool,
    chunk: ChunkView,
    offset: int,
    text: Seq<char>,
) -> bool {
    if offset + 1 >= chunk.code.len() {
        text == " <missing operand>"@
    } else {
        let index = chunk.code[offset + 1];
        let shown = " "@ + decimal(index as nat) + " "@;
        if index >= chunk.constants.len() {
            text == shown + "<no such constant>"@
        } else {
            exists|constant: Seq<char>| #[trigger]
                is_debug_text_of(number_texts, chunk.constants[index as int], constant) && text
                    == shown + constant
        }
    }
}

/// Whether `text` is what a line shows after the line mark for the
/// instruction at `offset`.
pub open spec fn is_instruction_body(
    number_texts: spec_fn(u64, Seq<char>) -> bool,
    chunk: ChunkView,
    offset: int,
    text: Seq<char>,
) -> bool {
    let byte = chunk.code[offset];
    match OpCode::decoding(byte) {
        None => text == "Unknown opcode: "@ + decimal(byte as nat),
        Some(OpCode::OP_CONSTANT) => exists|operand: Seq<char>| #[trigger]
            is_operand_text(number_texts, chunk, offset, operand) && text
                == OpCode::OP_CONSTANT.mnemonic_text() + operand,
        Some(op) => text == op.mnemonic_text(),
    }
}

/// Whether `text` is the line for the instruction at `offset`, newline
/// included.
pub open spec fn is_instruction_text(
    number_texts: spec_fn(u64, Seq<char>) -> bool,
    chunk: ChunkView,
    offset: int,
    text: Seq<char>,
) -> bool {
    exists|body: Seq<char>| #[trigger]
        is_instruction_body(number_texts, chunk, offset, body) && text == line_head(chunk, offset)
            + body + "\n"@
}

/// Whether `text` holds the lines of the instructions from `offset` to the
/// end of the code, in order.
pub open spec fn is_listing_from(
    number_texts: spec_fn(u64, Seq<char>) -> bool,
    chunk: ChunkView,
    offset: int,
    text: Seq<char>,
) -> bool
    decreases chunk.code.len() - offset,
{
    if 0 <= offset < chunk.code.len() {
        exists|line: Seq<char>, rest: Seq<char>|
            is_instruction_text(number_texts, chunk, offset, line) && is_listing_from(
                number_texts,
                chunk,
                next_offset(chunk, offset),
                rest,
            ) && text == #[trigger] followed_by(line, rest)
    } else {
        text == Seq::<char>::empty()
    }
}

/// Whether `text` is the listing of the whole chunk under the heading
/// `name`.
pub open spec fn is_listing(
    number_texts: spec_fn(u64, Seq<char>) -> bool,
    chunk: ChunkView,
    name: Seq<char>,
    text: Seq<char>,
) -> bool {
    exists|lines: Seq<char>| #[trigger]
        is_listing_from(number_texts, chunk, 0, lines) && text == "== "@ + name + " ==\n"@ + lines
}

fn append_line_head(chunk: &Chunk, offset: usize, out: &mut String)
    requires
        offset < chunk@.code.len(),
    ensures
        final(out)@ == old(out)@ + line_head(chunk@, offset as int),
{
    let lines = chunk.lines();
    append_decimal(out, offset);
    out.append(" ");
    if offset > 0 && lines[offset] == lines[offset - 1] {
        out.append("  | ");
    } else {
        append_decimal(out, lines[offset] as usize);
        out.append(" ");
    }
    assert(out@ =~= old(out)@ + line_head(chunk@, offset as int));
}

fn unknown_instruction(byte: u8, offset: usize, out: &mut String) -> (next: usize)
    requires
        offset < usize::MAX,
    ensures
        next == offset + 1,
        final(out)@ == old(out)@ + ("Unknown opcode: "@ + decimal(byte as nat)) + "\n"@,
{
    out.append("Unknown opcode: ");
    append_decimal(out, byte as usize);
    out.append("\n");
    assert(out@ =~= old(out)@ + ("Unknown opcode: "@ + decimal(byte as nat)) + "\n"@);
    offset + 1
}

fn simple_instruction(name: &str, offset: usize, out: &mut String) -> (next: usize)
    requires
        offset < usize::MAX,
    ensures
        next == offset + 1,
        final(out)@ == old(out)@ + name@ + "\n"@,
{
    out.append(name);
    out.append("\n");
    offset + 1
}

fn constant_instruction<F: Fn(u64) -> String>(
    name: &str,
    chunk: &Chunk,
    offset: usize,
    number_text: &F,
    out: &mut String,
) -> (next: usize)
    requires
        offset < chunk@.code.len(),
        OpCode::decoding(chunk@.code[offset as int]) == Some(OpCode::OP_CONSTANT),
        name@ == OpCode::OP_CONSTANT.mnemonic_text(),
        forall|bits: u64| call_requires(*number_text, (bits,)),
    ensures
        next == next_offset(chunk@, offset as int),
        exists|body: Seq<char>| #[trigger]
            is_instruction_body(renderings(*number_text), chunk@, offset as int, body)
                && final(out)@ == old(out)@ + body + "\n"@,
{
    let ghost number_texts = renderings(*number_text);
    let code = chunk.code();
    let len = code.len();
    out.append(name);
    if offset + 1 >= len {
        out.append(" <missing operand>");
        out.append("\n");
        proof {
            let operand = " <missing operand>"@;
            assert(is_operand_text(number_texts, chunk@, offset as int, operand));
            assert(is_instruction_body(number_texts, chunk@, offset as int, name@ + operand));
            assert(out@ =~= old(out)@ + (name@ + operand) + "\n"@);
        }
        return offset + 1;
    }
    let index = code[offset + 1];
    out.append(" ");
    append_decimal(out, index as usize);
    out.append(" ");
    let ghost shown = " "@ + decimal(index as nat) + " "@;
    let ghost operand;
    match chunk.read_constant(index as usize) {
        Ok(constant) => {
            let rendered = constant.debug_text(number_text);
            out.append(rendered.as_str());
            proof {
                operand = shown + rendered@;
            }
        },
        Err(_) => {
            out.append("<no such constant>");
            proof {
                operand = shown + "<no such constant>"@;
            }
        },
    }
    out.append("\n");
    proof {
        assert(is_operand_text(number_texts, chunk@, offset as int, operand));
        assert(is_instruction_body(number_texts, chunk@, offset as int, name@ + operand));
        assert(out@ =~= old(out)@ + (name@ + operand) + "\n"@);
    }
    offset + 2
}

impl Chunk {
    /// Appends to `out` the listing of the whole chunk: a heading with
    /// `name`, then one line for each instruction from the first byte to the
    /// last, with `number_text` rendering the numbers among the constants.
    /// The chunk is only read.
    pub fn disassemble<F: Fn(u64) -> String>(&self, name: &str, number_text: &F, out: &mut String)
        requires
            forall|bits: u64| call_requires(*number_text, (bits,)),
        ensures
            exists|text: Seq<char>| #[trigger]
                is_listing(renderings(*number_text), self@, name@, text) && final(out)@ == old(
                    out,
                )@ + text,
    {
        let ghost number_texts = renderings(*number_text);
        out.append("== ");
        out.append(name);
        out.append(" ==\n");
        let ghost heading = "== "@ + name@ + " ==\n"@;
        let ghost lines = Seq::<char>::empty();
        let len = self.code().len();
        let mut offset: usize = 0;
        assert(out@ =~= old(out)@ + heading + lines);
        while offset < len
            invariant
                len == self@.code.len(),
                number_texts == renderings(*number_text),
                forall|bits: u64| call_requires(*number_text, (bits,)),
                out@ == old(out)@ + heading + lines,
                forall|rest: Seq<char>| #[trigger]
                    is_listing_from(number_texts, self@, offset as int, rest) ==> is_listing_from(
                        number_texts,
                        self@,
                        0,
                        lines + rest,
                    ),
            decreases len - offset,
        {
            let ghost before = out@;
            let next = self.disassemble_instruction(offset, number_text, out);
            proof {
                let line = choose|text: Seq<char>| #[trigger]
                    is_instruction_text(number_texts, self@, offset as int, text) && out@
                        == before + text;
                assert forall|rest: Seq<char>| #[trigger]
                    is_listing_from(number_texts, self@, next as int, rest) implies is_listing_from(
                    number_texts,
                    self@,
                    0,
                    lines + line + rest,
                ) by {
                    assert(line + rest == followed_by(line, rest));
                    assert(is_listing_from(number_texts, self@, offset as int, line + rest));
                    assert(lines + (line + rest) =~= lines + line + rest);
                }
                lines = lines + line;
                assert(out@ =~= old(out)@ + heading + lines);
            }
            offset = next;
        }
        proof {
            assert(is_listing_from(number_texts, self@, offset as int, Seq::<char>::empty()));
            assert(lines + Seq::<char>::empty() =~= lines);
            assert(is_listing(number_texts, self@, name@, heading + lines));
            assert(out@ =~= old(out)@ + (heading + lines));
        }
    }

    /// Appends to `out` the line for the instruction at `offset`, with
    /// `number_text` rendering a number, and returns the offset of the
    /// instruction after it. A byte that is no opcode is shown as such, and
    /// the walk goes on with the next byte.
    pub fn disassemble_instruction<F: Fn(u64) -> String>(
        &self,
        offset: usize,
        number_text: &F,
        out: &mut String,
    ) -> (next: usize)
        requires
            offset < self@.code.len(),
            forall|bits: u64| call_requires(*number_text, (bits,)),
        ensures
            next == next_offset(self@, offset as int),
            offset < next <= self@.code.len(),
            exists|text: Seq<char>| #[trigger]
                is_instruction_text(renderings(*number_text), self@, offset as int, text)
                    && final(out)@ == old(out)@ + text,
    {
        let ghost number_texts = renderings(*number_text);
        let code = self.code();
        assert(offset < code.len());
        let byte = code[offset];
        append_line_head(self, offset, out);
        let ghost at_body = out@;
        let next = match OpCode::decode(byte) {
            Some(OpCode::OP_CONSTANT) => constant_instruction(
                OpCode::OP_CONSTANT.mnemonic(),
                self,
                offset,
                number_text,
                out,
            ),
            Some(op) => {
                let next = simple_instruction(op.mnemonic(), offset, out);
                assert(is_instruction_body(
                    number_texts,
                    self@,
                    offset as int,
                    op.mnemonic_text(),
                ));
                next
            },
            None => {
                let next = unknown_instruction(byte, offset, out);
                assert(is_instruction_body(
                    number_texts,
                    self@,
                    offset as int,
                    "Unknown opcode: "@ + decimal(byte as nat),
                ));
                next
            },
        };
        proof {
            let body = choose|body: Seq<char>| #[trigger]
                is_instruction_body(number_texts, self@, offset as int, body) && out@ == at_body
                    + body + "\n"@;
            let text = line_head(self@, offset as int) + body + "\n"@;
            assert(is_instruction_text(number_texts, self@, offset as int, text));
            assert(out@ =~= old(out)@ + text);
        }
        next
    }
}

/// Whether the line for the instruction at `offset` is rendered in one way
/// only: it shows no number, or it shows a number that has one text only.
pub open spec fn shows_one_way(
    number_texts: spec_fn(u64, Seq<char>) -> bool,
    chunk: ChunkView,
    offset: int,
) -> bool {
    match shown_constant(chunk, offset) {
        Some(constant) => renders_one_way(number_texts, constant),
        None => true,
    }
}

/// Whether each line from `offset` to the end of the code is rendered in
/// one way only.
pub open spec fn lists_one_way(
    number_texts: spec_fn(u64, Seq<char>) -> bool,
    chunk: ChunkView,
    offset: int,
) -> bool
    decreases chunk.code.len() - offset,
{
    if 0 <= offset < chunk.code.len() {
        shows_one_way(number_texts, chunk, offset) && lists_one_way(
            number_texts,
            chunk,
            next_offset(chunk, offset),
        )
    } else {
        true
    }
}

/// Where every number has one text only, each line of every chunk is
/// rendered in one way only.
pub proof fn lemma_lists_one_way(
    number_texts: spec_fn(u64, Seq<char>) -> bool,
    chunk: ChunkView,
    offset: int,
)
    requires
        forall|bits: u64| has_one_text(number_texts, bits),
    ensures
        lists_one_way(number_texts, chunk, offset),
    decreases chunk.code.len() - offset,
{
    if 0 <= offset < chunk.code.len() {
        lemma_lists_one_way(number_texts, chunk, next_offset(chunk, offset));
    }
}

/// Disassembling an instruction twice gives the same line: where the line
/// shows no number, or a number that has one text only, the instruction has
/// one line only. The offset of the next instruction is `next_offset`, the
/// same at every call.
pub proof fn lemma_instruction_text_unique(
    number_texts: spec_fn(u64, Seq<char>) -> bool,
    chunk: ChunkView,
    offset: int,
    a: Seq<char>,
    b: Seq<char>,
)
    requires
        shows_one_way(number_texts, chunk, offset),
        is_instruction_text(number_texts, chunk, offset, a),
        is_instruction_text(number_texts, chunk, offset, b),
    ensures
        a == b,
{
    let body_a = choose|body: Seq<char>| #[trigger]
        is_instruction_body(number_texts, chunk, offset, body) && a == line_head(chunk, offset)
            + body + "\n"@;
    let body_b = choose|body: Seq<char>| #[trigger]
        is_instruction_body(number_texts, chunk, offset, body) && b == line_head(chunk, offset)
            + body + "\n"@;
    if OpCode::decoding(chunk.code[offset]) == Some(OpCode::OP_CONSTANT) {
        let name = OpCode::OP_CONSTANT.mnemonic_text();
        let operand_a = choose|operand: Seq<char>| #[trigger]
            is_operand_text(number_texts, chunk, offset, operand) && body_a == name + operand;
        let operand_b = choose|operand: Seq<char>| #[trigger]
            is_operand_text(number_texts, chunk, offset, operand) && body_b == name + operand;
        if let Some(value) = shown_constant(chunk, offset) {
            let shown = " "@ + decimal(chunk.code[offset + 1] as nat) + " "@;
            let constant_a = choose|constant: Seq<char>| #[trigger]
                is_debug_text_of(number_texts, value, constant) && operand_a == shown + constant;
            let constant_b = choose|constant: Seq<char>| #[trigger]
                is_debug_text_of(number_texts, value, constant) && operand_b == shown + constant;
            lemma_debug_text_unique(number_texts, value, constant_a, constant_b);
        }
        assert(operand_a == operand_b);
    }
    assert(body_a == body_b);
}

/// Where each line from `offset` on is rendered in one way only, the
/// instructions from `offset` on have one listing only.
pub proof fn lemma_listing_from_unique(
    number_texts: spec_fn(u64, Seq<char>) -> bool,
    chunk: ChunkView,
    offset: int,
    a: Seq<char>,
    b: Seq<char>,
)
    requires
        lists_one_way(number_texts, chunk, offset),
        is_listing_from(number_texts, chunk, offset, a),
        is_listing_from(number_texts, chunk, offset, b),
    ensures
        a == b,
    decreases chunk.code.len() - offset,
{
    if 0 <= offset < chunk.code.len() {
        let next = next_offset(chunk, offset);
        let (line_a, rest_a) = choose|line: Seq<char>, rest: Seq<char>|
            is_instruction_text(number_texts, chunk, offset, line) && is_listing_from(
                number_texts,
                chunk,
                next,
                rest,
            ) && a == #[trigger] followed_by(line, rest);
        let (line_b, rest_b) = choose|line: Seq<char>, rest: Seq<char>|
            is_instruction_text(number_texts, chunk, offset, line) && is_listing_from(
                number_texts,
                chunk,
                next,
                rest,
            ) && b == #[trigger] followed_by(line, rest);
        lemma_instruction_text_unique(number_texts, chunk, offset, line_a, line_b);
        lemma_listing_from_unique(number_texts, chunk, next, rest_a, rest_b);
    }
}

/// Disassembling a chunk twice gives the same text: where each number that
/// the listing shows has one text only, the chunk has one listing only under
/// a given name.
pub proof fn lemma_listing_unique(
    number_texts: spec_fn(u64, Seq<char>) -> bool,
    chunk: ChunkView,
    name: Seq<char>,
    a: Seq<char>,
    b: Seq<char>,
)
    requires
        lists_one_way(number_texts, chunk, 0),
        is_listing(number_texts, chunk, name, a),
        is_listing(number_texts, chunk, name, b),
    ensures
        a == b,
{
    let lines_a = choose|lines: Seq<char>| #[trigger]
        is_listing_from(number_texts, chunk, 0, lines) && a == "== "@ + name + " ==\n"@ + lines;
    let lines_b = choose|lines: Seq<char>| #[trigger]
        is_listing_from(number_texts, chunk, 0, lines) && b == "== "@ + name + " ==\n"@ + lines;
    lemma_listing_from_unique(number_texts, chunk, 0, lines_a, lines_b);
}

} // verus!
