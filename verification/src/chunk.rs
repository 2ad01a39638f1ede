//! A chunk of bytecode: the code bytes, the constant pool, and a run-length
//! table that says which source line each byte came from.
use vstd::prelude::*;
use crate::opcodes::OpCode;
use crate::value::{Value, ValueArray, ValueView};

verus! {

/// The sum of the run lengths of a line table.
pub open spec fn run_total(lines: Seq<(usize, usize)>) -> int
    decreases lines.len(),
{
    if lines.len() == 0 {
        0
    } else {
        run_total(lines.drop_last()) + lines.last().1
    }
}

/// The line table after one more byte of the given line: the last run grows
/// if it has that line, else a new run of one byte begins.
pub open spec fn with_line(lines: Seq<(usize, usize)>, line: usize) -> Seq<(usize, usize)> {
    if lines.len() > 0 && lines.last().0 == line {
        lines.drop_last().push((line, (lines.last().1 + 1) as usize))
    } else {
        lines.push((line, 1usize))
    }
}

/// The line that the table gives for an offset: that of the first run at
/// whose end the count of bytes has reached the offset, and 0 if there is no
/// such run.
pub open spec fn line_at(lines: Seq<(usize, usize)>, offset: int) -> usize
    decreases lines.len(),
{
    if lines.len() == 0 {
        0
    } else if lines[0].1 >= offset {
        lines[0].0
    } else {
        line_at(lines.drop_first(), offset - lines[0].1)
    }
}

/// The lines of the runs never go down from one run to the next.
pub open spec fn lines_ascend(lines: Seq<(usize, usize)>) -> bool {
    forall|i: int, j: int| 0 <= i <= j < lines.len() ==> lines[i].0 <= lines[j].0
}

/// Every run has at least one byte, and two runs that follow each other
/// differ in line.
#[verifier::opaque]
pub open spec fn runs_proper(lines: Seq<(usize, usize)>) -> bool {
    &&& forall|i: int| 0 <= i < lines.len() ==> (#[trigger] lines[i]).1 >= 1
    &&& forall|i: int| 0 <= i < lines.len() - 1 ==> (#[trigger] lines[i]).0 != lines[i + 1].0
}

/// What a chunk holds.
pub struct ChunkView {
    pub code: Seq<u8>,
    pub lines: Seq<(usize, usize)>,
    pub constants: Seq<ValueView>,
}

impl ChunkView {
    /// The line table accounts for every byte of the code, and for no more;
    /// every run has at least one byte, and two runs that follow each other
    /// differ in line.
    pub open spec fn wf(self) -> bool {
        run_total(self.lines) == self.code.len() && runs_proper(self.lines)
    }

    /// The chunk without code and without constants.
    pub open spec fn empty() -> ChunkView {
        ChunkView { code: Seq::empty(), lines: Seq::empty(), constants: Seq::empty() }
    }

    /// The chunk after one more byte of code from the given line.
    pub open spec fn write_byte(self, byte: u8, line: usize) -> ChunkView {
        ChunkView { code: self.code.push(byte), lines: with_line(self.lines, line), ..self }
    }

    /// The chunk after one more constant.
    pub open spec fn write_constant(self, value: ValueView) -> ChunkView {
        ChunkView { constants: self.constants.push(value), ..self }
    }

    /// The line of the byte at an offset, as `line_at` counts.
    pub open spec fn get_line(self, offset: int) -> usize {
        line_at(self.lines, offset)
    }
}

/// One decoded instruction.
#[derive(Debug, Clone, Copy, PartialEq, Eq, Structural)]
pub struct Instruction {
    /// Where the instruction begins.
    pub offset: usize,
    /// The source line of its first byte.
    pub line: usize,
    /// Whether the byte before it has the same line.
    pub same_line: bool,
    /// The instruction, or `None` where the byte encodes none.
    pub op: Option<OpCode>,
    /// The index into the constant pool that follows the instruction, where
    /// it has one and the code holds all of its bytes.
    pub operand: Option<usize>,
    /// Where the next instruction begins.
    pub next: usize,
}

/// The number that the operand bytes of the instruction at an offset make,
/// if the instruction has an operand and the code holds all of its bytes: one
/// byte, or three with the lowest first.
pub open spec fn operand_at(code: Seq<u8>, op: Option<OpCode>, offset: int) -> Option<usize> {
    match op {
        Some(o) => if o.width_spec() == 2 && offset + 1 < code.len() {
            Some(code[offset + 1] as usize)
        } else if o.width_spec() == 4 && offset + 3 < code.len() {
            Some((code[offset + 1] + 256 * code[offset + 2] + 65536 * code[offset + 3]) as usize)
        } else {
            None
        },
        None => None,
    }
}

/// How many bytes the instruction at an offset takes; a byte that encodes no
/// instruction takes one.
pub open spec fn width_at(op: Option<OpCode>) -> int {
    match op {
        Some(o) => o.width_spec(),
        None => 1,
    }
}

impl ChunkView {
    /// Where the instruction after the one at an offset begins: at the end of
    /// that one, or at the end of the code where that one is cut short.
    pub open spec fn next_offset(self, offset: int) -> int {
        let end = offset + width_at(OpCode::decode(self.code[offset]));
        if end <= self.code.len() {
            end
        } else {
            self.code.len() as int
        }
    }

    /// The instruction that begins at an offset within the code.
    pub open spec fn instruction_at(self, offset: int) -> Instruction {
        let op = OpCode::decode(self.code[offset]);
        Instruction {
            offset: offset as usize,
            line: self.get_line(offset),
            same_line: offset > 0 && self.get_line(offset) == self.get_line(offset - 1),
            op,
            operand: operand_at(self.code, op, offset),
            next: self.next_offset(offset) as usize,
        }
    }

    /// The instructions from an offset to the end of the code, each beginning
    /// where the one before it ends.
    pub open spec fn instructions_from(self, offset: int) -> Seq<Instruction>
        decreases self.code.len() - offset,
    {
        if 0 <= offset < self.code.len() {
            seq![self.instruction_at(offset)] + self.instructions_from(self.next_offset(offset))
        } else {
            Seq::empty()
        }
    }
}

#[derive(Debug)]
pub struct Chunk {
    code: Vec<u8>,
    lines: Vec<(usize, usize)>,
    constants: ValueArray,
}

impl View for Chunk {
    type V = ChunkView;

    closed spec fn view(&self) -> ChunkView {
        ChunkView { code: self.code@, lines: self.lines@, constants: self.constants@ }
    }
}

impl Chunk {
    /// The line table accounts for every byte of the code. `new` gives such a
    /// chunk and every method keeps it so.
    pub open spec fn wf(&self) -> bool {
        self@.wf()
    }

    pub fn new() -> (chunk: Self)
        ensures
            chunk@ == ChunkView::empty(),
            chunk.wf(),
    {
        proof {
            reveal(runs_proper);
        }
        Self { code: Vec::new(), constants: ValueArray::new(), lines: Vec::new() }
    }

    pub fn get_code(&self) -> (code: &Vec<u8>)
        ensures
            code@ == self@.code,
    {
        &self.code
    }

    /// How many constants the pool holds.
    pub fn constant_count(&self) -> (n: usize)
        ensures
            n == self@.constants.len(),
    {
        self.constants.len()
    }

    /// A copy of the constant at an index of the pool.
    pub fn read_constant(&self, index: u16) -> (value: Value)
        requires
            index < self@.constants.len(),
        ensures
            value@ == self@.constants[index as int],
    {
        self.constants.read(index as usize)
    }

    /// The constant at an index, or `None` if the pool has no such index.
    pub fn constant_at(&self, index: usize) -> (value: Option<Value>)
        ensures
            value is Some <==> index < self@.constants.len(),
            value is Some ==> value->0@ == self@.constants[index as int],
    {
        if index < self.constants.len() {
            Some(self.constants.read(index))
        } else {
            None
        }
    }

    /// Appends a byte of code that came from the given source line.
    pub fn write_byte(&mut self, byte: u8, line: usize)
        requires
            old(self).wf(),
        ensures
            final(self)@ == old(self)@.write_byte(byte, line),
            final(self).wf(),
    {
        self.code.push(byte);
        let written = self.code.len();
        assert(old(self)@.code.len() + 1 == written);
        let n = self.lines.len();
        proof {
            lemma_with_line_total(self.lines@, line);
            lemma_with_line_proper(self.lines@, line);
        }
        if n > 0 && self.lines[n - 1].0 == line {
            let run = self.lines[n - 1].1;
            proof {
                lemma_run_total_bounds(self.lines@, n - 1);
            }
            self.lines.set(n - 1, (line, run + 1));
            assert(self.lines@ =~= with_line(old(self).lines@, line));
        } else {
            self.lines.push((line, 1));
        }
    }

    /// Appends a value to the constant pool and returns its index. No code is
    /// written.
    pub fn write_constant(&mut self, value: Value, line: usize) -> (index: usize)
        ensures
            index == old(self)@.constants.len(),
            final(self)@ == old(self)@.write_constant(value@),
            final(self).wf() == old(self).wf(),
    {
        self.constants.write(value)
    }

    /// Empties the chunk.
    pub fn free(&mut self)
        ensures
            final(self)@ == ChunkView::empty(),
            final(self).wf(),
    {
        proof {
            reveal(runs_proper);
        }
        self.code.clear();
        self.lines.clear();
        self.constants.free();
    }

    /// The source line of the byte at an offset.
    pub fn get_line(&self, offset: usize) -> (line: usize)
        ensures
            line == self@.get_line(offset as int),
    {
        let mut left: usize = offset;
        let mut i: usize = 0;
        assert(self.lines@.skip(0) =~= self.lines@);
        while i < self.lines.len()
            invariant
                i <= self.lines@.len(),
                line_at(self.lines@, offset as int) == line_at(
                    self.lines@.skip(i as int),
                    left as int,
                ),
            decreases self.lines@.len() - i,
        {
            let ghost rest = self.lines@.skip(i as int);
            assert(rest[0] == self.lines@[i as int]);
            assert(rest.drop_first() =~= self.lines@.skip(i + 1));
            let run = self.lines[i].1;
            if run >= left {
                return self.lines[i].0;
            }
            left = left - run;
            i += 1;
        }
        assert(self.lines@.skip(i as int).len() == 0);
        0
    }

    /// Decodes the instruction that begins at an offset, or gives `None` if
    /// the offset is not within the code.
    pub fn disassemble_instruction(&self, offset: usize) -> (r: Option<Instruction>)
        ensures
            r is Some <==> offset < self@.code.len(),
            r is Some ==> r->0 == self@.instruction_at(offset as int),
    {
        let len = self.code.len();
        if offset >= len {
            return None;
        }
        let line = self.get_line(offset);
        let same_line = offset > 0 && line == self.get_line(offset - 1);
        let op = OpCode::from_byte(self.code[offset]);
        let width: usize = match op {
            Some(o) => o.width(),
            None => 1,
        };
        let operand: Option<usize> = if width == 2 && len - offset > 1 {
            Some(self.code[offset + 1] as usize)
        } else if width == 4 && len - offset > 3 {
            let b1: usize = self.code[offset + 1] as usize;
            let b2: usize = self.code[offset + 2] as usize;
            let b3: usize = self.code[offset + 3] as usize;
            Some(b1 + 256 * b2 + 65536 * b3)
        } else {
            None
        };
        let next: usize = if len - offset >= width {
            offset + width
        } else {
            len
        };
        Some(Instruction { offset, line, same_line, op, operand, next })
    }

    /// Decodes the whole code, instruction by instruction.
    pub fn disassemble(&self) -> (listing: Vec<Instruction>)
        ensures
            listing@ == self@.instructions_from(0),
    {
        let mut listing: Vec<Instruction> = Vec::new();
        let mut offset: usize = 0;
        while offset < self.code.len()
            invariant
                self@.instructions_from(0) == listing@ + self@.instructions_from(offset as int),
            decreases self@.code.len() - offset,
        {
            let ghost before = listing@;
            match self.disassemble_instruction(offset) {
                Some(instruction) => {
                    listing.push(instruction);
                    assert(listing@ + self@.instructions_from(instruction.next as int) =~= before
                        + self@.instructions_from(offset as int));
                    offset = instruction.next;
                },
                None => {
                    return listing;
                },
            }
        }
        assert(listing@ + Seq::<Instruction>::empty() =~= listing@);
        listing
    }
}

/// The total of a line table is at least each of its run lengths.
pub proof fn lemma_run_total_bounds(lines: Seq<(usize, usize)>, i: int)
    requires
        0 <= i < lines.len(),
    ensures
        lines[i].1 <= run_total(lines),
        run_total(lines) >= 0,
    decreases lines.len(),
{
    if lines.len() > 1 {
        lemma_run_total_bounds(lines.drop_last(), if i < lines.len() - 1 { i } else { 0 });
    } else {
        assert(run_total(lines.drop_last()) == 0);
    }
}

/// One more byte makes the total of the line table one more.
pub proof fn lemma_with_line_total(lines: Seq<(usize, usize)>, line: usize)
    requires
        run_total(lines) < usize::MAX,
    ensures
        run_total(with_line(lines, line)) == run_total(lines) + 1,
{
    if lines.len() > 0 && lines.last().0 == line {
        lemma_run_total_bounds(lines, lines.len() - 1);
        let grown = lines.drop_last().push((line, (lines.last().1 + 1) as usize));
        assert(grown.drop_last() =~= lines.drop_last());
    } else {
        assert(lines.push((line, 1usize)).drop_last() =~= lines);
    }
}

/// What it is for runs to be proper.
pub proof fn lemma_runs_proper(lines: Seq<(usize, usize)>)
    ensures
        runs_proper(lines) <==> (forall|i: int| 0 <= i < lines.len() ==> (#[trigger] lines[i]).1
            >= 1) && (forall|i: int|
            0 <= i < lines.len() - 1 ==> (#[trigger] lines[i]).0 != lines[i + 1].0),
{
    reveal(runs_proper);
}

/// One more byte keeps the runs proper: each has at least one byte, and two
/// that follow each other differ in line.
pub proof fn lemma_with_line_proper(lines: Seq<(usize, usize)>, line: usize)
    requires
        runs_proper(lines),
        run_total(lines) < usize::MAX,
    ensures
        runs_proper(with_line(lines, line)),
{
    reveal(runs_proper);
    let after = with_line(lines, line);
    if lines.len() > 0 && lines.last().0 == line {
        lemma_run_total_bounds(lines, lines.len() - 1);
        assert forall|i: int| 0 <= i < after.len() implies (#[trigger] after[i]).1 >= 1 by {
            if i < lines.len() - 1 {
                assert(after[i] == lines[i]);
            }
        }
        assert forall|i: int| 0 <= i < after.len() - 1 implies (#[trigger] after[i]).0 != after[i
            + 1].0 by {
            assert(after[i] == lines[i]);
            assert(after[i + 1].0 == lines[i + 1].0);
        }
    } else {
        assert forall|i: int| 0 <= i < after.len() implies (#[trigger] after[i]).1 >= 1 by {
            if i < lines.len() {
                assert(after[i] == lines[i]);
            }
        }
        assert forall|i: int| 0 <= i < after.len() - 1 implies (#[trigger] after[i]).0 != after[i
            + 1].0 by {
            assert(after[i] == lines[i]);
            if i + 1 < lines.len() {
                assert(after[i + 1] == lines[i + 1]);
            }
        }
    }
}

/// A byte from a line that is not before the line of the last run keeps the
/// lines of the runs from going down, and its line is that of the last run
/// then. So the lines never go down in a chunk whose bytes were written with
/// lines that never go down.
pub proof fn lemma_with_line_ascends(lines: Seq<(usize, usize)>, line: usize)
    requires
        lines_ascend(lines),
        lines.len() > 0 ==> lines.last().0 <= line,
    ensures
        lines_ascend(with_line(lines, line)),
        with_line(lines, line).last().0 == line,
{
    let after = with_line(lines, line);
    assert forall|i: int, j: int| 0 <= i <= j < after.len() implies after[i].0 <= after[j].0 by {
        if j < lines.len() {
            assert(after[i].0 == lines[i].0);
            assert(after[j].0 == lines[j].0);
        } else if i < lines.len() {
            assert(after[i].0 == lines[i].0);
            assert(lines[i].0 <= lines.last().0);
        }
    }
}

/// The total of a line table is the first run length and the total of the rest.
pub proof fn lemma_run_total_front(lines: Seq<(usize, usize)>)
    requires
        lines.len() > 0,
    ensures
        run_total(lines) == lines[0].1 + run_total(lines.drop_first()),
    decreases lines.len(),
{
    if lines.len() == 1 {
        assert(lines.drop_last() =~= lines.drop_first());
        assert(run_total(lines.drop_last()) == 0);
    } else {
        lemma_run_total_front(lines.drop_last());
        assert(lines.drop_last().drop_first() =~= lines.drop_first().drop_last());
        assert(lines.drop_first().last() == lines.last());
        assert(lines.drop_last()[0] == lines[0]);
    }
}

/// For an offset from 0 to the total of a table with at least one run, the
/// table gives the line of one of its runs.
pub proof fn lemma_line_at_member(lines: Seq<(usize, usize)>, offset: int)
    requires
        lines.len() > 0,
        offset <= run_total(lines),
    ensures
        exists|j: int| 0 <= j < lines.len() && line_at(lines, offset) == lines[j].0,
    decreases lines.len(),
{
    if lines[0].1 >= offset {
        assert(line_at(lines, offset) == lines[0].0);
    } else {
        let rest = lines.drop_first();
        lemma_run_total_front(lines);
        if rest.len() == 0 {
            assert(run_total(rest) == 0);
        } else {
            lemma_line_at_member(rest, offset - lines[0].1);
            let j = choose|j: int|
                0 <= j < rest.len() && line_at(rest, offset - lines[0].1) == rest[j].0;
            assert(rest[j] == lines[j + 1]);
        }
    }
}

/// Where the lines of the runs never go down, a later offset within the code
/// never has an earlier line: `get_line` does not decrease from one offset to
/// a greater one, up to the length of the code.
pub proof fn lemma_get_line_monotonic(chunk: ChunkView, a: int, b: int)
    requires
        chunk.wf(),
        lines_ascend(chunk.lines),
        a <= b <= chunk.code.len(),
    ensures
        chunk.get_line(a) <= chunk.get_line(b),
{
    lemma_line_at_monotonic(chunk.lines, a, b);
}

/// `line_at` does not decrease from one offset to a greater one, up to the
/// total of the table, where the lines of the runs never go down.
pub proof fn lemma_line_at_monotonic(lines: Seq<(usize, usize)>, a: int, b: int)
    requires
        lines_ascend(lines),
        a <= b <= run_total(lines),
    ensures
        line_at(lines, a) <= line_at(lines, b),
    decreases lines.len(),
{
    if lines.len() > 0 {
        let rest = lines.drop_first();
        lemma_run_total_front(lines);
        assert(lines_ascend(rest)) by {
            assert forall|i: int, j: int| 0 <= i <= j < rest.len() implies rest[i].0
                <= rest[j].0 by {
                assert(rest[i] == lines[i + 1]);
                assert(rest[j] == lines[j + 1]);
            }
        }
        if lines[0].1 >= b {
        } else if lines[0].1 >= a {
            if rest.len() == 0 {
                assert(run_total(rest) == 0);
            } else {
                lemma_line_at_member(rest, b - lines[0].1);
                let j = choose|j: int|
                    0 <= j < rest.len() && line_at(rest, b - lines[0].1) == rest[j].0;
                assert(rest[j] == lines[j + 1]);
            }
        } else {
            lemma_line_at_monotonic(rest, a - lines[0].1, b - lines[0].1);
        }
    }
}

/// The chunk after a sequence of bytes was written, all from one line.
pub open spec fn write_bytes(chunk: ChunkView, bytes: Seq<u8>, line: usize) -> ChunkView
    decreases bytes.len(),
{
    if bytes.len() == 0 {
        chunk
    } else {
        write_bytes(chunk, bytes.drop_last(), line).write_byte(bytes.last(), line)
    }
}

/// Bytes written to an empty chunk, all from one line, make one run: every
/// offset up to their number has that line.
pub proof fn lemma_one_line(bytes: Seq<u8>, line: usize, k: int)
    requires
        0 < bytes.len() <= usize::MAX,
        k <= bytes.len(),
    ensures
        write_bytes(ChunkView::empty(), bytes, line).code == bytes,
        write_bytes(ChunkView::empty(), bytes, line).lines == seq![(line, bytes.len() as usize)],
        write_bytes(ChunkView::empty(), bytes, line).get_line(k) == line,
        write_bytes(ChunkView::empty(), bytes, line).wf(),
    decreases bytes.len(),
{
    reveal(runs_proper);
    let before = write_bytes(ChunkView::empty(), bytes.drop_last(), line);
    let after = write_bytes(ChunkView::empty(), bytes, line);
    let run = seq![(line, bytes.len() as usize)];
    if bytes.len() == 1 {
        assert(bytes.drop_last().len() == 0);
        assert(before == ChunkView::empty());
        assert(after.code =~= bytes);
        assert(after.lines =~= run);
    } else {
        lemma_one_line(bytes.drop_last(), line, 0);
        assert(after.code =~= bytes);
        assert(after.lines =~= run);
    }
    assert(run.drop_last() =~= Seq::<(usize, usize)>::empty());
    assert(run_total(run.drop_last()) == 0);
}

/// The chunk after a sequence of values was written to the constant pool.
pub open spec fn write_constants(chunk: ChunkView, values: Seq<ValueView>) -> ChunkView
    decreases values.len(),
{
    if values.len() == 0 {
        chunk
    } else {
        write_constants(chunk, values.drop_last()).write_constant(values.last())
    }
}

/// After any sequence of values was written to the pool of a chunk, the pool
/// holds what it held before and then the values in the order in which they
/// were written: the i-th written value is read back at the i-th new index,
/// however many there are.
pub proof fn lemma_constants_read_back(chunk: ChunkView, values: Seq<ValueView>)
    ensures
        write_constants(chunk, values).constants == chunk.constants + values,
        write_constants(chunk, values).code == chunk.code,
        write_constants(chunk, values).lines == chunk.lines,
        forall|i: int|
            0 <= i < values.len() ==> write_constants(chunk, values).constants[chunk.constants.len()
                + i] == values[i],
    decreases values.len(),
{
    if values.len() == 0 {
        assert(chunk.constants + values =~= chunk.constants);
    } else {
        lemma_constants_read_back(chunk, values.drop_last());
        assert(write_constants(chunk, values).constants =~= chunk.constants + values);
    }
}

} // verus!
