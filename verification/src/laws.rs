use crate::console::{Console, ALERT_ATTRIBUTE, ALERT_DIRECTIVE, BLANK, ESCAPE, TAB_STOP};
use vstd::prelude::*;

verus! {

/// The sizes that a grid of `width` by `height` cells is measured in: a row
/// fits in the grid, the rows above the last and the last row make up the
/// grid, and the last row starts at an even offset.
pub proof fn lemma_grid_sizes(width: nat, height: nat)
    requires
        height > 0,
    ensures
        width * 2 <= width * height * 2,
        width * 2 * ((height - 1) as nat) + width * 2 == width * height * 2,
        (width * 2 * ((height - 1) as nat)) % 2 == 0,
{
    assert(width * 2 * ((height - 1) as nat) + width * 2 == width * height * 2)
        by (nonlinear_arith)
        requires
            height > 0,
    ;
    assert(width * 2 * ((height - 1) as nat) == (width * ((height - 1) as nat)) * 2)
        by (nonlinear_arith);
}

/// Both bytes of a cell of the grid lie inside the grid.
pub proof fn lemma_cell_in_grid(width: nat, height: nat, col: nat, row: nat)
    requires
        col < width,
        row < height,
    ensures
        row * width + col < width * height,
        (row * width + col) * 2 + 1 < width * height * 2,
{
    assert(row * width + col < width * height) by (nonlinear_arith)
        requires
            col < width,
            row < height,
    ;
}

/// Two cells of the grid that differ in column or row share no byte.
pub proof fn lemma_cells_apart(width: nat, col: nat, row: nat, other_col: nat, other_row: nat)
    requires
        col < width,
        other_col < width,
        col != other_col || row != other_row,
    ensures
        row * width + col != other_row * width + other_col,
{
    if row < other_row {
        assert(row * width + col < other_row * width + other_col) by (nonlinear_arith)
            requires
                col < width,
                row < other_row,
        ;
    } else if other_row < row {
        assert(other_row * width + other_col < row * width + col) by (nonlinear_arith)
            requires
                other_col < width,
                other_row < row,
        ;
    }
}

/// Scrolling, cell by cell: each cell above the last row shows what the cell
/// below it showed, and each cell of the last row is a blank in the active
/// attribute. Cursor, attribute and the bytes behind the grid stay.
pub proof fn lemma_scrolled_cells(c: Console)
    requires
        c.wf(),
    ensures
        c.scrolled().wf(),
        c.frames(c.scrolled()),
        forall|col: nat, row: nat|
            col < c.width && row + 1 < c.height ==> #[trigger] c.scrolled().cell(col, row)
                == c.cell(col, row + 1),
        forall|col: nat|
            col < c.width ==> #[trigger] c.scrolled().cell(col, (c.height - 1) as nat) == (
                BLANK,
                c.attribute,
            ),
{
    let s = c.scrolled();
    lemma_grid_sizes(c.width, c.height);
    assert forall|col: nat, row: nat| col < c.width && row + 1 < c.height implies #[trigger] s.cell(
        col,
        row,
    ) == c.cell(col, row + 1) by {
        lemma_cell_in_grid(c.width, (c.height - 1) as nat, col, row);
        lemma_cell_in_grid(c.width, c.height, col, row + 1);
        assert((row * c.width + col) * 2 + c.width * 2 == ((row + 1) * c.width + col) * 2)
            by (nonlinear_arith);
        assert(c.width * ((c.height - 1) as nat) * 2 == c.width * 2 * ((c.height - 1) as nat))
            by (nonlinear_arith);
    }
    assert forall|col: nat| col < c.width implies #[trigger] s.cell(col, (c.height - 1) as nat)
        == (BLANK, c.attribute) by {
        let last = (c.height - 1) as nat;
        lemma_cell_in_grid(c.width, c.height, col, last);
        assert((last * c.width + col) * 2 == c.width * 2 * last + col * 2) by (nonlinear_arith);
    }
}

/// Storing a character: the cell under the cursor takes the character and the
/// active attribute, every other cell of the grid keeps what it showed, and
/// the cursor moves one column right on its row.
pub proof fn lemma_stored_cells(c: Console, byte: u8)
    requires
        c.wf(),
        c.col < c.width,
    ensures
        c.stored(byte).wf(),
        c.frames(c.stored(byte)),
        c.stored(byte).col == c.col + 1,
        c.stored(byte).row == c.row,
        c.stored(byte).cell(c.col, c.row) == (byte, c.attribute),
        forall|col: nat, row: nat|
            col < c.width && row < c.height && (col != c.col || row != c.row)
                ==> #[trigger] c.stored(byte).cell(col, row) == c.cell(col, row),
{
    let s = c.stored(byte);
    lemma_cell_in_grid(c.width, c.height, c.col, c.row);
    assert forall|col: nat, row: nat|
        col < c.width && row < c.height && (col != c.col || row != c.row) implies #[trigger] s.cell(
        col,
        row,
    ) == c.cell(col, row) by {
        lemma_cell_in_grid(c.width, c.height, col, row);
        lemma_cells_apart(c.width, col, row, c.col, c.row);
    }
}

/// A line break keeps a console well formed and leaves the cursor at the
/// start of a row.
pub proof fn lemma_new_line_keeps_bounds(c: Console)
    requires
        c.wf(),
    ensures
        c.new_line().wf(),
        c.frames(c.new_line()),
        c.new_line().col == 0,
{
    lemma_scrolled_cells(c);
}

/// A visible character keeps a console well formed. It leaves the cursor
/// behind a cell of the grid, and that cell shows the character in the active
/// attribute, which stays active.
pub proof fn lemma_put_keeps_bounds(c: Console, byte: u8)
    requires
        c.wf(),
    ensures
        c.put(byte).wf(),
        c.frames(c.put(byte)),
        1 <= c.put(byte).col <= c.width,
        c.put(byte).attribute == c.attribute,
        c.put(byte).escape == c.escape,
        c.put(byte).cell((c.put(byte).col - 1) as nat, c.put(byte).row) == (byte, c.attribute),
{
    if c.col >= c.width {
        lemma_new_line_keeps_bounds(c);
        lemma_stored_cells(c.new_line(), byte);
    } else {
        lemma_stored_cells(c, byte);
    }
}

/// Any number of blanks keeps a console well formed.
pub proof fn lemma_put_blanks_keeps_bounds(c: Console, count: nat)
    requires
        c.wf(),
    ensures
        c.put_blanks(count).wf(),
        c.frames(c.put_blanks(count)),
    decreases count,
{
    if count > 0 {
        lemma_put_blanks_keeps_bounds(c, (count - 1) as nat);
        lemma_put_keeps_bounds(c.put_blanks((count - 1) as nat), BLANK);
    }
}

/// The bounds hold after every byte: whatever byte a well-formed console
/// takes, the cursor stays at most one column past the end of a row of the
/// grid, the geometry and the length of the surface stay, and no byte behind
/// the grid changes.
pub proof fn lemma_step_keeps_bounds(c: Console, byte: u8)
    requires
        c.wf(),
    ensures
        c.step(byte).wf(),
        c.frames(c.step(byte)),
{
    lemma_new_line_keeps_bounds(c);
    lemma_put_keeps_bounds(c, byte);
    lemma_put_blanks_keeps_bounds(c, Console::tab_width(c.col));
}

/// The bounds hold after every run of bytes, of any length.
pub proof fn lemma_run_keeps_bounds(c: Console, bytes: Seq<u8>)
    requires
        c.wf(),
    ensures
        c.run(bytes).wf(),
        c.frames(c.run(bytes)),
    decreases bytes.len(),
{
    if bytes.len() > 0 {
        lemma_run_keeps_bounds(c, bytes.drop_last());
        lemma_step_keeps_bounds(c.run(bytes.drop_last()), bytes.last());
    }
}

/// The bounds hold after each byte of a run: however far a well-formed
/// console has got through `bytes`, its cursor is at most one column past the
/// end of a row of the grid and nothing behind the grid has changed.
pub proof fn lemma_bounds_after_every_byte(c: Console, bytes: Seq<u8>)
    requires
        c.wf(),
    ensures
        forall|taken: int|
            0 <= taken <= bytes.len() ==> {
                let reached = #[trigger] c.run(bytes.take(taken));
                reached.col <= c.width && reached.row < c.height && c.frames(reached)
            },
{
    assert forall|taken: int| 0 <= taken <= bytes.len() implies {
        let reached = #[trigger] c.run(bytes.take(taken));
        reached.col <= c.width && reached.row < c.height && c.frames(reached)
    } by {
        lemma_run_keeps_bounds(c, bytes.take(taken));
    }
}

/// Wrapping: a visible character written with the cursor past the end of a
/// row that is not the last goes to the first cell of the next row, in the
/// active attribute, and no other cell changes.
pub proof fn lemma_put_wraps(c: Console, byte: u8)
    requires
        c.wf(),
        c.col == c.width,
        c.row + 1 < c.height,
    ensures
        c.put(byte).col == 1,
        c.put(byte).row == c.row + 1,
        c.put(byte).cell(0, c.row + 1) == (byte, c.attribute),
        forall|col: nat, row: nat|
            col < c.width && row < c.height && (col != 0 || row != c.row + 1)
                ==> #[trigger] c.put(byte).cell(col, row) == c.cell(col, row),
{
    let broken = c.new_line();
    lemma_stored_cells(broken, byte);
    assert forall|col: nat, row: nat|
        col < c.width && row < c.height && (col != 0 || row != c.row + 1) implies #[trigger] c.put(
        byte,
    ).cell(col, row) == c.cell(col, row) by {
        assert(broken.stored(byte).cell(col, row) == broken.cell(col, row));
    }
}

/// Scrolling on overflow: a visible character written with the cursor past the
/// end of the last row scrolls the grid and goes to the first cell of the
/// cleared last row. The first row is lost, every other row moves up, and the
/// rest of the last row is blank.
pub proof fn lemma_put_scrolls(c: Console, byte: u8)
    requires
        c.wf(),
        c.col == c.width,
        c.row + 1 == c.height,
    ensures
        c.put(byte).col == 1,
        c.put(byte).row == c.row,
        c.put(byte).cell(0, c.row) == (byte, c.attribute),
        forall|col: nat|
            0 < col < c.width ==> #[trigger] c.put(byte).cell(col, c.row) == (BLANK, c.attribute),
        forall|col: nat, row: nat|
            col < c.width && row + 1 < c.height ==> #[trigger] c.put(byte).cell(col, row)
                == c.cell(col, row + 1),
{
    let broken = c.new_line();
    lemma_scrolled_cells(c);
    assert(broken == c.scrolled().at(0, c.row));
    lemma_stored_cells(broken, byte);
    assert forall|col: nat| 0 < col < c.width implies #[trigger] c.put(byte).cell(col, c.row) == (
        BLANK,
        c.attribute,
    ) by {
        assert(broken.stored(byte).cell(col, c.row) == broken.cell(col, c.row));
        assert(broken.cell(col, c.row) == c.scrolled().cell(col, (c.height - 1) as nat));
    }
    assert forall|col: nat, row: nat| col < c.width && row + 1 < c.height implies #[trigger] c.put(
        byte,
    ).cell(col, row) == c.cell(col, row + 1) by {
        assert(broken.stored(byte).cell(col, row) == broken.cell(col, row));
        assert(broken.cell(col, row) == c.scrolled().cell(col, row));
    }
}

/// A run of bytes may be cut anywhere: taking the first part and then the
/// rest leaves the console as taking the whole at once does.
pub proof fn lemma_run_in_parts(c: Console, first: Seq<u8>, rest: Seq<u8>)
    ensures
        c.run(first + rest) == c.run(first).run(rest),
    decreases rest.len(),
{
    if rest.len() == 0 {
        assert(first + rest =~= first);
    } else {
        assert((first + rest).drop_last() =~= first + rest.drop_last());
        assert((first + rest).last() == rest.last());
        lemma_run_in_parts(c, first, rest.drop_last());
    }
}

/// A run of one byte is one step.
pub proof fn lemma_run_of_one(c: Console, byte: u8)
    ensures
        c.run(seq![byte]) == c.step(byte),
{
    assert(seq![byte].drop_last() =~= Seq::<u8>::empty());
    assert(c.run(seq![byte].drop_last()) == c);
}

/// Blanks that fit on the row fill it cell by cell from the cursor on, and
/// change nothing else of the cursor's row and the console's state.
pub proof fn lemma_blanks_fill_row(c: Console, count: nat)
    requires
        c.wf(),
        c.col + count <= c.width,
    ensures
        c.put_blanks(count).wf(),
        c.frames(c.put_blanks(count)),
        c.put_blanks(count).col == c.col + count,
        c.put_blanks(count).row == c.row,
        c.put_blanks(count).attribute == c.attribute,
        c.put_blanks(count).escape == c.escape,
        forall|col: nat|
            c.col <= col < c.col + count ==> #[trigger] c.put_blanks(count).cell(col, c.row) == (
                BLANK,
                c.attribute,
            ),
    decreases count,
{
    if count > 0 {
        let before = c.put_blanks((count - 1) as nat);
        lemma_blanks_fill_row(c, (count - 1) as nat);
        lemma_stored_cells(before, BLANK);
        let after = c.put_blanks(count);
        assert(after == before.stored(BLANK));
        assert forall|col: nat| c.col <= col < c.col + count implies #[trigger] after.cell(
            col,
            c.row,
        ) == (BLANK, c.attribute) by {
            if col < before.col {
                assert(before.cell(col, c.row) == (BLANK, c.attribute));
                assert(after.cell(col, c.row) == before.cell(col, c.row));
            }
        }
    }
}

/// A tab that fits on the row: from a cursor with room for the padding, a tab
/// writes between one and four blanks and moves the cursor right to the next
/// multiple of four columns, on the same row. Every cell it passes shows a
/// blank in the active attribute.
pub proof fn lemma_tab_reaches_stop(c: Console)
    requires
        c.wf(),
        c.col + Console::tab_width(c.col) <= c.width,
    ensures
        1 <= Console::tab_width(c.col) <= TAB_STOP,
        c.tabbed().col == c.col + Console::tab_width(c.col),
        c.tabbed().col % (TAB_STOP as nat) == 0,
        c.tabbed().col > c.col,
        c.tabbed().row == c.row,
        forall|col: nat|
            c.col <= col < c.tabbed().col ==> #[trigger] c.tabbed().cell(col, c.row) == (
                BLANK,
                c.attribute,
            ),
{
    lemma_blanks_fill_row(c, Console::tab_width(c.col));
}

/// The alert escape: outside an escape, a backslash and then `c` change the
/// active attribute to the alert attribute and nothing else, so that a
/// visible character that follows is stored with the alert attribute.
pub proof fn lemma_alert_escape(c: Console, next: u8)
    requires
        c.wf(),
        !c.escape,
    ensures
        c.run(seq![ESCAPE, ALERT_DIRECTIVE]) == (Console { attribute: ALERT_ATTRIBUTE, ..c }),
        c.run(seq![ESCAPE, ALERT_DIRECTIVE, next]) == (Console {
            attribute: ALERT_ATTRIBUTE,
            ..c
        }).step(next),
        ({
            let after = (Console { attribute: ALERT_ATTRIBUTE, ..c }).put(next);
            after.cell((after.col - 1) as nat, after.row) == (next, ALERT_ATTRIBUTE)
        }),
{
    let alert = Console { attribute: ALERT_ATTRIBUTE, ..c };
    lemma_run_of_one(c, ESCAPE);
    lemma_run_in_parts(c, seq![ESCAPE], seq![ALERT_DIRECTIVE]);
    lemma_run_of_one(c.step(ESCAPE), ALERT_DIRECTIVE);
    assert(seq![ESCAPE] + seq![ALERT_DIRECTIVE] =~= seq![ESCAPE, ALERT_DIRECTIVE]);
    assert(c.step(ESCAPE).step(ALERT_DIRECTIVE) == alert);
    lemma_run_in_parts(c, seq![ESCAPE, ALERT_DIRECTIVE], seq![next]);
    lemma_run_of_one(alert, next);
    assert(seq![ESCAPE, ALERT_DIRECTIVE] + seq![next] =~= seq![ESCAPE, ALERT_DIRECTIVE, next]);
    lemma_put_keeps_bounds(alert, next);
}

/// An unknown escape: outside an escape, a backslash and then any byte but `c`
/// write that byte as a visible character in the attribute that was active
/// before, and leave the attribute as it was.
pub proof fn lemma_unknown_escape(c: Console, directive: u8)
    requires
        c.wf(),
        !c.escape,
        directive != ALERT_DIRECTIVE,
    ensures
        c.run(seq![ESCAPE, directive]) == c.put(directive),
        c.put(directive).attribute == c.attribute,
        ({
            let after = c.put(directive);
            after.cell((after.col - 1) as nat, after.row) == (directive, c.attribute)
        }),
{
    lemma_run_of_one(c, ESCAPE);
    lemma_run_in_parts(c, seq![ESCAPE], seq![directive]);
    lemma_run_of_one(c.step(ESCAPE), directive);
    assert(seq![ESCAPE] + seq![directive] =~= seq![ESCAPE, directive]);
    lemma_put_keeps_bounds(c, directive);
}

} // verus!
