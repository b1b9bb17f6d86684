//! The diff-based screen buffer: a flat row-major grid of cells plus a queue
//! of pending writes, and the flush protocol that turns the queue into an
//! explicit sequence of terminal commands.
//!
//! The buffer itself performs no I/O. `render` returns the commands that the
//! surrounding program must hand to the terminal; the grid and the queue are
//! plain data that every contract speaks about directly.

use vstd::prelude::*;
use vstd::arithmetic::div_mod::lemma_fundamental_div_mod_converse_div;
use vstd::arithmetic::div_mod::lemma_fundamental_div_mod_converse_mod;
use vstd::arithmetic::div_mod::lemma_multiply_divide_lt;
use crate::cell::AttrSet;
use crate::cell::Cell;
use crate::cell::Color;
use crate::cell::default_cell;

verus! {

/// One queued logical write: a cell destined for a grid index.
#[derive(Clone, Copy, PartialEq, Eq, Structural, Debug)]
pub struct Update {
    pub cell: Cell,
    pub index: usize,
}

/// One terminal command, as plain data. The surrounding program performs
/// each command against the real terminal; the buffer only decides which
/// commands to emit and in what order.
#[derive(Clone, Copy, PartialEq, Eq, Structural, Debug)]
pub enum Command {
    /// Move the cursor to (column, row).
    MoveTo(u16, u16),
    /// Change the color used for subsequent glyphs.
    SetForeground(Color),
    /// Change the color painted behind subsequent glyphs.
    SetBackground(Color),
    /// Emit one glyph at the cursor position.
    Print(char),
    /// Clear the whole screen.
    Clear,
    /// Flush the buffered output stream to the terminal.
    Flush,
}

/// Failure of a queued write request.
#[derive(Clone, Copy, PartialEq, Eq, Structural, Debug)]
pub enum BufferError {
    /// The request addressed a cell outside the grid.
    IndexOutOfRange,
}

/// The number of cells in a grid of the given (width, height).
pub open spec fn area_of(dims: (u16, u16)) -> int {
    dims.0 * dims.1
}

/// The row a grid index lies in, under the row-major convention
/// `index == row * width + column`.
pub open spec fn row_of(index: int, width: int) -> int {
    index / width
}

/// The column a grid index lies in.
pub open spec fn col_of(index: int, width: int) -> int {
    index % width
}

/// The commands one queued write turns into at flush time: a cursor move to
/// the write's (column, row), a background-color change only when the cell's
/// background differs from the default, a foreground-color change only when
/// its foreground differs from the default, and the glyph itself.
pub open spec fn commands_of(u: Update, width: int) -> Seq<Command> {
    seq![Command::MoveTo(col_of(u.index as int, width) as u16, row_of(u.index as int, width) as u16)]
        + (if u.cell.bg != default_cell().bg {
            seq![Command::SetBackground(u.cell.bg)]
        } else {
            Seq::<Command>::empty()
        })
        + (if u.cell.fg != default_cell().fg {
            seq![Command::SetForeground(u.cell.fg)]
        } else {
            Seq::<Command>::empty()
        })
        + seq![Command::Print(u.cell.ch)]
}

/// The commands a whole queue turns into, in insertion order.
pub open spec fn commands_of_queue(ups: Seq<Update>, width: int) -> Seq<Command>
    decreases ups.len(),
{
    if ups.len() == 0 {
        Seq::<Command>::empty()
    } else {
        commands_of_queue(ups.drop_last(), width) + commands_of(ups.last(), width)
    }
}

/// The grid after all queued writes are applied in insertion order; a later
/// write to the same index overwrites an earlier one.
pub open spec fn apply_queue(cells: Seq<Cell>, ups: Seq<Update>) -> Seq<Cell>
    decreases ups.len(),
{
    if ups.len() == 0 {
        cells
    } else {
        apply_queue(cells, ups.drop_last()).update(ups.last().index as int, ups.last().cell)
    }
}

/// Applying a queue of in-range writes never changes the grid's length.
pub proof fn lemma_apply_queue_len(cells: Seq<Cell>, ups: Seq<Update>)
    requires
        forall|i: int| 0 <= i < ups.len() ==> (#[trigger] ups[i]).index < cells.len(),
    ensures
        apply_queue(cells, ups).len() == cells.len(),
    decreases ups.len(),
{
    if ups.len() > 0 {
        assert(forall|i: int|
            0 <= i < ups.drop_last().len() ==> (#[trigger] ups.drop_last()[i]).index
                < cells.len());
        lemma_apply_queue_len(cells, ups.drop_last());
        assert(ups.last().index < cells.len());
    }
}

/// The writes a run request queues: one per glyph, at consecutive indices,
/// all with the given colors and reset attributes. Indices are taken
/// verbatim: a run crossing a row boundary spills into the next row's
/// cells, with no wrap correction.
pub open spec fn run_update_at(start: int, glyphs: Seq<char>, fg: Color, bg: Color, i: int) -> Update {
    Update {
        cell: Cell { ch: glyphs[i], fg, bg, attr: AttrSet::Reset },
        index: (start + i) as usize,
    }
}

/// One run request as a whole: the update at each offset in turn.
pub open spec fn run_updates(start: int, glyphs: Seq<char>, fg: Color, bg: Color) -> Seq<Update> {
    Seq::new(glyphs.len(), |i: int| run_update_at(start, glyphs, fg, bg, i))
}

/// Queueing the first `i + 1` glyphs of a run queues the first `i` and then
/// one more write at offset `i`.
proof fn lemma_run_updates_step(start: int, glyphs: Seq<char>, fg: Color, bg: Color, i: int)
    requires
        0 <= i < glyphs.len(),
    ensures
        run_updates(start, glyphs.take(i + 1), fg, bg) == run_updates(
            start,
            glyphs.take(i),
            fg,
            bg,
        ).push(run_update_at(start, glyphs, fg, bg, i)),
{
    let a = run_updates(start, glyphs.take(i + 1), fg, bg);
    let b = run_updates(start, glyphs.take(i), fg, bg).push(run_update_at(start, glyphs, fg, bg, i));
    assert forall|j: int| 0 <= j < a.len() implies a[j] == b[j] by {
        assert(a[j] == run_update_at(start, glyphs.take(i + 1), fg, bg, j));
        if j < i {
            assert(b[j] == run_update_at(start, glyphs.take(i), fg, bg, j));
            assert(glyphs.take(i + 1)[j] == glyphs[j]);
            assert(glyphs.take(i)[j] == glyphs[j]);
        } else {
            assert(b[j] == run_update_at(start, glyphs, fg, bg, i));
            assert(glyphs.take(i + 1)[i] == glyphs[i]);
        }
    }
    assert(a =~= b);
}

/// The screen buffer: grid dimensions, the cell grid itself, and the queue
/// of writes not yet materialized into the grid.
pub struct Buffer {
    pub cells: Vec<Cell>,
    pub updates: Vec<Update>,
    pub dims: (u16, u16),
}

impl Buffer {
    /// The number of cells in this buffer's grid.
    pub open spec fn area(self) -> int {
        area_of(self.dims)
    }

    /// Well-formedness: the grid has exactly width*height cells, and every
    /// queued write addresses a cell inside the grid.
    pub open spec fn wf(self) -> bool {
        &&& self.cells@.len() == self.area()
        &&& forall|i: int|
            0 <= i < self.updates@.len() ==> (#[trigger] self.updates@[i]).index < self.area()
    }

    /// A fresh buffer of the given dimensions: width*height default cells
    /// and an empty queue.
    pub fn new(dims: (u16, u16)) -> (b: Buffer)
        ensures
            b.wf(),
            b.dims == dims,
            b.cells@.len() == area_of(dims),
            forall|i: int| 0 <= i < area_of(dims) ==> b.cells@[i] == default_cell(),
            b.updates@ == Seq::<Update>::empty(),
    {
        proof {
            assert((dims.0 as int) * (dims.1 as int) <= 0xFFFF * 0xFFFF) by (nonlinear_arith)
                requires
                    dims.0 <= 0xFFFF,
                    dims.1 <= 0xFFFF,
            ;
        }
        let area: usize = (dims.0 as usize) * (dims.1 as usize);
        let mut cells: Vec<Cell> = Vec::new();
        let mut k: usize = 0;
        while k < area
            invariant
                k <= area,
                area == area_of(dims),
                cells@.len() == k,
                forall|i: int| 0 <= i < k ==> cells@[i] == default_cell(),
            decreases area - k,
        {
            cells.push(Cell::default());
            k += 1;
        }
        Buffer { cells, updates: Vec::new(), dims }
    }

    /// The grid's cell count as a machine integer.
    fn area_len(&self) -> (a: usize)
        ensures
            a == self.area(),
    {
        proof {
            assert((self.dims.0 as int) * (self.dims.1 as int) <= 0xFFFF * 0xFFFF)
                by (nonlinear_arith)
                requires
                    self.dims.0 <= 0xFFFF,
                    self.dims.1 <= 0xFFFF,
            ;
        }
        (self.dims.0 as usize) * (self.dims.1 as usize)
    }

    /// Queue one write. An in-range index is appended to the pending queue;
    /// an out-of-range index is rejected and changes nothing.
    pub fn update_cell(&mut self, cell: Cell, index: usize) -> (r: Result<(), BufferError>)
        requires
            old(self).wf(),
        ensures
            final(self).wf(),
            final(self).dims == old(self).dims,
            final(self).cells@ == old(self).cells@,
            index < old(self).area() ==> r == Ok::<(), BufferError>(()) && final(self).updates@
                == old(self).updates@.push(Update { cell, index }),
            index >= old(self).area() ==> r == Err::<(), BufferError>(
                BufferError::IndexOutOfRange,
            ) && final(self).updates@ == old(self).updates@,
    {
        let area = self.area_len();
        if index < area {
            self.updates.push(Update { cell, index });
            Ok(())
        } else {
            Err(BufferError::IndexOutOfRange)
        }
    }

    /// Queue one write per glyph at consecutive indices starting at `index`.
    /// A run that does not fit inside the grid is rejected whole and changes
    /// nothing.
    pub fn update_contiguous_cells(
        &mut self,
        index: usize,
        chars: Vec<char>,
        fg: Color,
        bg: Color,
    ) -> (r: Result<(), BufferError>)
        requires
            old(self).wf(),
        ensures
            final(self).wf(),
            final(self).dims == old(self).dims,
            final(self).cells@ == old(self).cells@,
            index + chars@.len() <= old(self).area() ==> r == Ok::<(), BufferError>(())
                && final(self).updates@ == old(self).updates@ + run_updates(
                index as int,
                chars@,
                fg,
                bg,
            ),
            index + chars@.len() > old(self).area() ==> r == Err::<(), BufferError>(
                BufferError::IndexOutOfRange,
            ) && final(self).updates@ == old(self).updates@,
    {
        let area = self.area_len();
        if index > area || chars.len() > area - index {
            return Err(BufferError::IndexOutOfRange);
        }
        let ghost ix = index as int;
        let mut i: usize = 0;
        proof {
            assert(self.updates@ =~= old(self).updates@ + run_updates(
                ix,
                chars@.take(0),
                fg,
                bg,
            ));
        }
        while i < chars.len()
            invariant
                i <= chars@.len(),
                ix == index as int,
                area == old(self).area(),
                ix + chars@.len() <= area,
                self.wf(),
                self.dims == old(self).dims,
                self.cells@ == old(self).cells@,
                self.updates@ == old(self).updates@ + run_updates(
                    ix,
                    chars@.take(i as int),
                    fg,
                    bg,
                ),
            decreases chars@.len() - i,
        {
            let cell = Cell { ch: chars[i], fg, bg, attr: AttrSet::Reset };
            let r = self.update_cell(cell, index + i);
            proof {
                assert(r == Ok::<(), BufferError>(()));
                lemma_run_updates_step(ix, chars@, fg, bg, i as int);
                assert(run_update_at(ix, chars@, fg, bg, i as int) == Update {
                    cell,
                    index: (index + i) as usize,
                });
                assert(self.updates@ =~= old(self).updates@ + run_updates(
                    ix,
                    chars@.take(i + 1),
                    fg,
                    bg,
                ));
            }
            i += 1;
        }
        proof {
            assert(chars@.take(chars@.len() as int) =~= chars@);
        }
        Ok(())
    }

    /// Flush the pending queue. An empty queue emits no commands at all.
    /// Otherwise each queued write, in insertion order, becomes its command
    /// sequence, followed by one stream flush; the writes are materialized
    /// into the grid and the queue is left empty.
    pub fn render(&mut self) -> (cmds: Vec<Command>)
        requires
            old(self).wf(),
        ensures
            final(self).wf(),
            final(self).dims == old(self).dims,
            final(self).updates@ == Seq::<Update>::empty(),
            final(self).cells@ == apply_queue(old(self).cells@, old(self).updates@),
            cmds@ == if old(self).updates@.len() == 0 {
                Seq::<Command>::empty()
            } else {
                commands_of_queue(old(self).updates@, old(self).dims.0 as int) + seq![
                    Command::Flush,
                ]
            },
    {
        let mut cmds: Vec<Command> = Vec::new();
        if self.updates.len() == 0 {
            return cmds;
        }
        let w = self.dims.0;
        let ghost h = self.dims.1;
        let mut k: usize = 0;
        while k < self.updates.len()
            invariant
                old(self).wf(),
                k <= self.updates@.len(),
                self.updates@.len() > 0,
                w == self.dims.0,
                h == self.dims.1,
                self.wf(),
                self.dims == old(self).dims,
                self.updates@ == old(self).updates@,
                self.cells@ == apply_queue(old(self).cells@, old(self).updates@.take(k as int)),
                cmds@ == commands_of_queue(old(self).updates@.take(k as int), w as int),
            decreases self.updates@.len() - k,
        {
            let u = self.updates[k];
            assert(u.index < area_of(self.dims));
            proof {
                if w == 0 {
                    assert(area_of(self.dims) == 0);
                }
                lemma_multiply_divide_lt(u.index as int, w as int, h as int);
                assert forall|i: int| 0 <= i < k implies (#[trigger] old(self).updates@.take(
                    k as int,
                )[i]).index < old(self).cells@.len() by {
                    assert(0 <= i < self.updates@.len());
                    assert(old(self).updates@.take(k as int)[i] == self.updates@[i]);
                    assert((self.updates@[i]).index < self.area());
                    assert(old(self).cells@.len() == old(self).area());
                    assert(self.area() == old(self).area());
                }
                lemma_apply_queue_len(old(self).cells@, old(self).updates@.take(k as int));
            }
            let col = u.index % (w as usize);
            let row = u.index / (w as usize);
            cmds.push(Command::MoveTo(col as u16, row as u16));
            if u.cell.bg != Color::Black {
                cmds.push(Command::SetBackground(u.cell.bg));
            }
            if u.cell.fg != Color::White {
                cmds.push(Command::SetForeground(u.cell.fg));
            }
            cmds.push(Command::Print(u.cell.ch));
            self.cells[u.index] = u.cell;
            proof {
                assert(old(self).updates@.take(k + 1).drop_last() =~= old(self).updates@.take(
                    k as int,
                ));
                assert(old(self).updates@.take(k + 1).last() == u);
                assert(commands_of_queue(old(self).updates@.take(k + 1), w as int)
                    == commands_of_queue(old(self).updates@.take(k as int), w as int)
                    + commands_of(u, w as int));
                assert(cmds@ =~= commands_of_queue(old(self).updates@.take(k + 1), w as int));
            }
            k += 1;
        }
        proof {
            assert(old(self).updates@.take(self.updates@.len() as int) =~= old(self).updates@);
        }
        self.updates.clear();
        cmds.push(Command::Flush);
        cmds
    }
}

/// Law: a single write queued at index `y*w + x` flushes as a cursor move
/// to column `x`, row `y`, followed by a background change only when the
/// cell's background is not the default, a foreground change only when its
/// foreground is not the default, and the cell's glyph; afterwards the grid
/// holds that cell at that index. An empty queue flushes to no commands.
pub proof fn lemma_single_write_flush(cells: Seq<Cell>, w: u16, h: u16, x: u16, y: u16, cell: Cell)
    requires
        x < w,
        y < h,
        cells.len() == w * h,
    ensures
        y * w + x < w * h,
        commands_of_queue(seq![Update { cell, index: (y * w + x) as usize }], w as int) == seq![
            Command::MoveTo(x, y),
        ]
            + (if cell.bg != default_cell().bg {
            seq![Command::SetBackground(cell.bg)]
        } else {
            Seq::<Command>::empty()
        })
            + (if cell.fg != default_cell().fg {
            seq![Command::SetForeground(cell.fg)]
        } else {
            Seq::<Command>::empty()
        })
            + seq![Command::Print(cell.ch)],
        apply_queue(cells, seq![Update { cell, index: (y * w + x) as usize }])[y * w + x] == cell,
        commands_of_queue(Seq::<Update>::empty(), w as int) == Seq::<Command>::empty(),
{
    assert(y * w + x < w * h) by (nonlinear_arith)
        requires
            x < w,
            y < h,
    ;
    assert(w * h <= 0xFFFF * 0xFFFF) by (nonlinear_arith)
        requires
            w <= 0xFFFF,
            h <= 0xFFFF,
    ;
    let idx: int = y * w + x;
    let u = Update { cell, index: idx as usize };
    assert(u.index as int == idx);
    lemma_fundamental_div_mod_converse_div(idx, w as int, y as int, x as int);
    lemma_fundamental_div_mod_converse_mod(idx, w as int, y as int, x as int);
    assert(col_of(idx, w as int) == x);
    assert(row_of(idx, w as int) == y);
    assert(seq![u].drop_last() =~= Seq::<Update>::empty());
    assert(seq![u].last() == u);
    assert(commands_of_queue(Seq::<Update>::empty(), w as int) == Seq::<Command>::empty());
    assert(commands_of_queue(seq![u], w as int) == commands_of_queue(Seq::<Update>::empty(), w as int)
        + commands_of(u, w as int));
    assert(Seq::<Command>::empty() + commands_of(u, w as int) =~= commands_of(u, w as int));
    assert(apply_queue(cells, Seq::<Update>::empty()) == cells);
    assert(apply_queue(cells, seq![u]) == cells.update(idx, cell));
}

/// Law: two writes queued to the same index both emit their full command
/// sequences at flush — there is no de-duplication — yet once the queue is
/// applied the grid holds only the later cell.
pub proof fn lemma_same_index_last_write_wins(
    cells: Seq<Cell>,
    w: u16,
    index: usize,
    c1: Cell,
    c2: Cell,
)
    requires
        index < cells.len(),
    ensures
        commands_of_queue(
            seq![Update { cell: c1, index }, Update { cell: c2, index }],
            w as int,
        ) == commands_of(Update { cell: c1, index }, w as int) + commands_of(
            Update { cell: c2, index },
            w as int,
        ),
        apply_queue(cells, seq![Update { cell: c1, index }, Update { cell: c2, index }])[
            index as int
        ] == c2,
{
    let u1 = Update { cell: c1, index };
    let u2 = Update { cell: c2, index };
    let q = seq![u1, u2];
    assert(q.drop_last() =~= seq![u1]);
    assert(q.last() == u2);
    assert(seq![u1].drop_last() =~= Seq::<Update>::empty());
    assert(seq![u1].last() == u1);
    assert(commands_of_queue(Seq::<Update>::empty(), w as int) == Seq::<Command>::empty());
    assert(commands_of_queue(seq![u1], w as int) == commands_of_queue(
        Seq::<Update>::empty(),
        w as int,
    ) + commands_of(u1, w as int));
    assert(commands_of_queue(q, w as int) == commands_of_queue(seq![u1], w as int) + commands_of(
        u2,
        w as int,
    ));
    assert(Seq::<Command>::empty() + commands_of(u1, w as int) =~= commands_of(u1, w as int));
    assert(apply_queue(cells, Seq::<Update>::empty()) == cells);
    assert(apply_queue(cells, seq![u1]) == cells.update(index as int, c1));
    assert(apply_queue(cells, q) == cells.update(index as int, c1).update(index as int, c2));
}

/// The full-screen purge: a clear followed by a stream flush, independent of
/// any pending writes. Used once at session start and once at session end.
pub fn purge() -> (cmds: Vec<Command>)
    ensures
        cmds@ == seq![Command::Clear, Command::Flush],
{
    let mut cmds: Vec<Command> = Vec::new();
    cmds.push(Command::Clear);
    cmds.push(Command::Flush);
    proof {
        assert(cmds@ =~= seq![Command::Clear, Command::Flush]);
    }
    cmds
}

} // verus!
