use termcore::buffer::{purge, Buffer, BufferError, Command};
use termcore::cell::{AttrSet, Cell, Color};

fn red_cell(ch: char) -> Cell {
    Cell { ch, fg: Color::Red, bg: Color::Black, attr: AttrSet::Reset }
}

#[test]
fn new_buffer_is_default_filled() {
    let b = Buffer::new((4, 3));
    assert_eq!(b.dims, (4, 3));
    assert_eq!(b.cells.len(), 12);
    for c in &b.cells {
        assert_eq!(*c, Cell::default());
        assert_eq!(c.ch, ' ');
        assert_eq!(c.fg, Color::White);
        assert_eq!(c.bg, Color::Black);
        assert_eq!(c.attr, AttrSet::Reset);
    }
    assert_eq!(b.updates.len(), 0);
}

#[test]
fn flush_empty_queue_emits_nothing() {
    let mut b = Buffer::new((5, 4));
    let cmds = b.render();
    assert_eq!(cmds.len(), 0);
    assert_eq!(b.cells, Buffer::new((5, 4)).cells);
}

#[test]
fn single_write_flush_targets_column_and_row() {
    let mut b = Buffer::new((5, 4));
    let cell = red_cell('A');
    // index = y*w + x with x = 2, y = 1
    assert_eq!(b.update_cell(cell, 1 * 5 + 2), Ok(()));
    let cmds = b.render();
    assert_eq!(
        cmds,
        vec![
            Command::MoveTo(2, 1),
            Command::SetForeground(Color::Red),
            Command::Print('A'),
            Command::Flush,
        ]
    );
    assert_eq!(b.cells[7], cell);
    // a second flush with no new writes emits nothing at all
    let again = b.render();
    assert_eq!(again.len(), 0);
}

#[test]
fn default_colors_emit_no_color_changes() {
    let mut b = Buffer::new((3, 3));
    let cell = Cell { ch: 'x', fg: Color::White, bg: Color::Black, attr: AttrSet::Reset };
    assert_eq!(b.update_cell(cell, 0), Ok(()));
    let cmds = b.render();
    assert_eq!(cmds, vec![Command::MoveTo(0, 0), Command::Print('x'), Command::Flush]);
}

#[test]
fn non_default_background_emits_background_change() {
    let mut b = Buffer::new((3, 3));
    let cell = Cell { ch: 'x', fg: Color::White, bg: Color::DarkRed, attr: AttrSet::Reset };
    assert_eq!(b.update_cell(cell, 4), Ok(()));
    let cmds = b.render();
    assert_eq!(
        cmds,
        vec![
            Command::MoveTo(1, 1),
            Command::SetBackground(Color::DarkRed),
            Command::Print('x'),
            Command::Flush,
        ]
    );
}

#[test]
fn out_of_range_write_is_rejected() {
    let mut b = Buffer::new((4, 2));
    let r = b.update_cell(red_cell('e'), 8);
    assert_eq!(r, Err(BufferError::IndexOutOfRange));
    assert_eq!(b.updates.len(), 0);
    assert_eq!(b.render().len(), 0);
}

#[test]
fn run_enqueues_one_write_per_glyph() {
    let mut b = Buffer::new((4, 2));
    let r = b.update_contiguous_cells(1, vec!['h', 'i'], Color::DarkRed, Color::Black);
    assert_eq!(r, Ok(()));
    assert_eq!(b.updates.len(), 2);
    assert_eq!(b.updates[0].index, 1);
    assert_eq!(b.updates[0].cell.ch, 'h');
    assert_eq!(b.updates[0].cell.fg, Color::DarkRed);
    assert_eq!(b.updates[0].cell.bg, Color::Black);
    assert_eq!(b.updates[1].index, 2);
    assert_eq!(b.updates[1].cell.ch, 'i');
    let cmds = b.render();
    assert_eq!(
        cmds,
        vec![
            Command::MoveTo(1, 0),
            Command::SetForeground(Color::DarkRed),
            Command::Print('h'),
            Command::MoveTo(2, 0),
            Command::SetForeground(Color::DarkRed),
            Command::Print('i'),
            Command::Flush,
        ]
    );
    assert_eq!(b.cells[1].ch, 'h');
    assert_eq!(b.cells[2].ch, 'i');
}

#[test]
fn run_crossing_row_boundary_spills_verbatim() {
    let mut b = Buffer::new((4, 2));
    // indices 3 and 4: the run crosses from row 0 into row 1 with no correction
    let r = b.update_contiguous_cells(3, vec!['a', 'b'], Color::White, Color::Black);
    assert_eq!(r, Ok(()));
    let cmds = b.render();
    assert_eq!(
        cmds,
        vec![
            Command::MoveTo(3, 0),
            Command::Print('a'),
            Command::MoveTo(0, 1),
            Command::Print('b'),
            Command::Flush,
        ]
    );
    assert_eq!(b.cells[3].ch, 'a');
    assert_eq!(b.cells[4].ch, 'b');
}

#[test]
fn run_that_does_not_fit_is_rejected_whole() {
    let mut b = Buffer::new((4, 2));
    let r = b.update_contiguous_cells(7, vec!['n', 'o'], Color::Red, Color::Black);
    assert_eq!(r, Err(BufferError::IndexOutOfRange));
    assert_eq!(b.updates.len(), 0);
}

#[test]
fn same_index_twice_last_write_wins_but_both_emit() {
    let mut b = Buffer::new((3, 3));
    let first = red_cell('1');
    let second = Cell { ch: '2', fg: Color::Green, bg: Color::Black, attr: AttrSet::Reset };
    assert_eq!(b.update_cell(first, 5), Ok(()));
    assert_eq!(b.update_cell(second, 5), Ok(()));
    let cmds = b.render();
    let prints: Vec<&Command> = cmds
        .iter()
        .filter(|c| matches!(c, Command::Print(_)))
        .collect();
    assert_eq!(prints.len(), 2);
    assert_eq!(
        cmds,
        vec![
            Command::MoveTo(2, 1),
            Command::SetForeground(Color::Red),
            Command::Print('1'),
            Command::MoveTo(2, 1),
            Command::SetForeground(Color::Green),
            Command::Print('2'),
            Command::Flush,
        ]
    );
    assert_eq!(b.cells[5], second);
}

#[test]
fn purge_is_clear_then_flush() {
    let cmds = purge();
    assert_eq!(cmds, vec![Command::Clear, Command::Flush]);
}
