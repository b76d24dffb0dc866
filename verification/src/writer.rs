use crate::console::{
    Console, ALERT_ATTRIBUTE, ALERT_DIRECTIVE, BLANK, ESCAPE, NEWLINE, TAB, TAB_STOP,
};
use crate::error::GeometryError;
use crate::laws::{
    lemma_cell_in_grid, lemma_grid_sizes, lemma_run_keeps_bounds, lemma_step_keeps_bounds,
};
use vstd::prelude::*;
use vstd::string::StringSliceAdditionalSpecFns;

verus! {

/// A console over a surface of two-byte cells.
///
/// The writer owns the bytes it draws on for as long as it lives and hands
/// them out through [`FrameBufferWriter::surface`] and
/// [`FrameBufferWriter::into_surface`].
pub struct FrameBufferWriter {
    surface: Vec<u8>,
    width: usize,
    height: usize,
    position: (usize, usize),
    color_code: u8,
    escape: bool,
}

impl View for FrameBufferWriter {
    type V = Console;

    closed spec fn view(&self) -> Console {
        Console {
            width: self.width as nat,
            height: self.height as nat,
            surface: self.surface@,
            col: self.position.0 as nat,
            row: self.position.1 as nat,
            attribute: self.color_code,
            escape: self.escape,
        }
    }
}

impl FrameBufferWriter {
    /// Every writer holds a well-formed console.
    #[verifier::type_invariant]
    spec fn inv(&self) -> bool {
        self@.wf()
    }

    /// Makes a console of `width` columns and `height` rows over `surface`,
    /// with the cursor in the top left corner and `color_code` as the active
    /// attribute. The surface is taken as it is: nothing is cleared.
    ///
    /// An empty grid is refused, and so is a surface that cannot hold
    /// `width * height * 2` bytes.
    pub fn new(surface: Vec<u8>, width: usize, height: usize, color_code: u8) -> (made: Result<
        Self,
        GeometryError,
    >)
        ensures
            (width == 0 || height == 0) ==> made == Err::<Self, GeometryError>(
                GeometryError::EmptyGrid,
            ),
            (width > 0 && height > 0 && surface@.len() < width * height * 2) ==> made == Err::<
                Self,
                GeometryError,
            >(GeometryError::SurfaceTooSmall),
            (width > 0 && height > 0 && surface@.len() >= width * height * 2) ==> made.is_ok(),
            made.is_ok() ==> made.unwrap()@.wf() && made.unwrap()@ == (Console {
                width: width as nat,
                height: height as nat,
                surface: surface@,
                col: 0,
                row: 0,
                attribute: color_code,
                escape: false,
            }),
    {
        if width == 0 || height == 0 {
            return Err(GeometryError::EmptyGrid);
        }
        let given = surface.len();
        let cells = match width.checked_mul(height) {
            Some(cells) => cells,
            None => {
                assert(given < width * height * 2) by (nonlinear_arith)
                    requires
                        given <= usize::MAX,
                        width * height > usize::MAX,
                ;
                return Err(GeometryError::SurfaceTooSmall);
            },
        };
        let needed = match cells.checked_mul(2) {
            Some(needed) => needed,
            None => {
                return Err(GeometryError::SurfaceTooSmall);
            },
        };
        if given < needed {
            return Err(GeometryError::SurfaceTooSmall);
        }
        Ok(
            FrameBufferWriter {
                surface,
                width,
                height,
                position: (0, 0),
                color_code,
                escape: false,
            },
        )
    }

    /// Moves the grid up by one row: each row but the first is copied over the
    /// row above it, byte by byte from the left, and the last row is then
    /// cleared to blanks in the active attribute. The cursor stays in place.
    pub fn scroll_up(&mut self)
        ensures
            final(self)@.wf(),
            final(self)@ == old(self)@.scrolled(),
    {
        proof {
            use_type_invariant(&*self);
            lemma_grid_sizes(self.width as nat, self.height as nat);
            assert(self.surface.len() == self.surface@.len());
        }
        let row_bytes = self.width * 2;
        let kept = row_bytes * (self.height - 1);
        let mut at: usize = 0;
        while at < kept
            invariant
                at <= kept,
                kept + row_bytes == old(self)@.grid_bytes(),
                row_bytes == old(self)@.row_bytes(),
                self.surface.len() == old(self).surface.len(),
                self.width == old(self).width,
                self.height == old(self).height,
                self.position == old(self).position,
                self.color_code == old(self).color_code,
                self.escape == old(self).escape,
                old(self)@.wf(),
                forall|i: int|
                    0 <= i < at ==> self.surface@[i] == old(self).surface@[i + row_bytes],
                forall|i: int|
                    at <= i < self.surface@.len() ==> self.surface@[i] == old(self).surface@[i],
            decreases kept - at,
        {
            let byte = self.surface[at + row_bytes];
            self.surface[at] = byte;
            at += 1;
        }
        let mut col: usize = 0;
        while col < self.width
            invariant
                col <= self.width,
                kept % 2 == 0,
                kept + row_bytes == old(self)@.grid_bytes(),
                row_bytes == old(self)@.row_bytes(),
                self.surface.len() == old(self).surface.len(),
                self.width == old(self).width,
                self.height == old(self).height,
                self.position == old(self).position,
                self.color_code == old(self).color_code,
                self.escape == old(self).escape,
                old(self)@.wf(),
                forall|i: int|
                    0 <= i < kept ==> self.surface@[i] == old(self).surface@[i + row_bytes],
                forall|i: int|
                    kept <= i < kept + col * 2 ==> self.surface@[i] == (if i % 2 == 0 {
                        BLANK
                    } else {
                        self.color_code
                    }),
                forall|i: int|
                    kept + row_bytes <= i < self.surface@.len() ==> self.surface@[i] == old(
                        self,
                    ).surface@[i],
            decreases self.width - col,
        {
            let cell = kept + col * 2;
            self.surface[cell] = BLANK;
            self.surface[cell + 1] = self.color_code;
            col += 1;
        }
        assert(self.surface@ =~= old(self)@.scrolled_surface());
    }

    /// Breaks the line: the cursor returns to column 0 and moves down a row;
    /// on the last row the grid scrolls instead and the cursor stays there.
    pub fn new_line(&mut self)
        ensures
            final(self)@.wf(),
            final(self)@ == old(self)@.new_line(),
    {
        proof {
            use_type_invariant(&*self);
        }
        if self.position.1 + 1 < self.height {
            self.position = (0, self.position.1 + 1);
        } else {
            self.scroll_up();
            self.position = (0, self.height - 1);
        }
    }

    /// Writes `c` as a visible character, whatever its value: breaks the line
    /// first where the cursor is past the end of its row, stores `c` and the
    /// active attribute in the cell under the cursor, and moves the cursor one
    /// column right.
    pub fn write_char(&mut self, c: u8)
        ensures
            final(self)@.wf(),
            final(self)@ == old(self)@.put(c),
    {
        proof {
            use_type_invariant(&*self);
        }
        if self.position.0 >= self.width {
            self.new_line();
        }
        let (x, y) = self.position;
        // Holds of every well-formed console once the line is broken; the
        // surface is not touched without it.
        if x < self.width && y < self.height {
            proof {
                lemma_cell_in_grid(self.width as nat, self.height as nat, x as nat, y as nat);
                assert(self.surface.len() == self.surface@.len());
            }
            let cell = (y * self.width + x) * 2;
            self.surface[cell] = c;
            self.surface[cell + 1] = self.color_code;
            self.position = (x + 1, y);
        }
    }

    /// Writes blanks up to the next tab stop: `4 - col % 4` of them, each as a
    /// visible character, so that a tab may wrap and scroll.
    pub fn write_tab(&mut self)
        ensures
            final(self)@.wf(),
            final(self)@ == old(self)@.tabbed(),
    {
        proof {
            use_type_invariant(&*self);
        }
        let spaces = TAB_STOP - self.position.0 % TAB_STOP;
        let mut written: usize = 0;
        while written < spaces
            invariant
                written <= spaces,
                spaces == Console::tab_width(old(self)@.col),
                self@.wf(),
                self@ == old(self)@.put_blanks(written as nat),
            decreases spaces - written,
        {
            self.write_char(BLANK);
            written += 1;
        }
    }

    /// Takes the byte that follows a backslash. `c` selects the alert
    /// attribute and writes nothing. Any other byte has no special meaning
    /// here, not even a line feed, a tab or a second backslash: it is written
    /// as a visible character. The escape is over in both cases.
    pub fn handle_escape_sequence(&mut self, byte: u8)
        ensures
            final(self)@.wf(),
            final(self)@ == old(self)@.directed(byte),
    {
        proof {
            use_type_invariant(&*self);
        }
        self.escape = false;
        if byte == ALERT_DIRECTIVE {
            self.color_code = ALERT_ATTRIBUTE;
        } else {
            self.write_char(byte);
        }
    }

    /// Takes one byte of the stream. After a backslash the byte is a
    /// directive; otherwise a line feed breaks the line, a tab pads to the next
    /// tab stop, a backslash opens an escape, and any other byte is written as
    /// a visible character.
    pub fn write_byte(&mut self, byte: u8)
        ensures
            final(self)@.wf(),
            final(self)@ == old(self)@.step(byte),
            old(self)@.frames(final(self)@),
    {
        proof {
            use_type_invariant(&*self);
            lemma_step_keeps_bounds(self@, byte);
        }
        if self.escape {
            self.handle_escape_sequence(byte);
        } else if byte == NEWLINE {
            self.new_line();
        } else if byte == TAB {
            self.write_tab();
        } else if byte == ESCAPE {
            self.escape = true;
        } else {
            self.write_char(byte);
        }
    }

    /// Takes `bytes` one at a time, in order.
    pub fn write_bytes(&mut self, bytes: &[u8])
        ensures
            final(self)@.wf(),
            final(self)@ == old(self)@.run(bytes@),
            old(self)@.frames(final(self)@),
    {
        proof {
            use_type_invariant(&*self);
            lemma_run_keeps_bounds(self@, bytes@);
        }
        let mut taken: usize = 0;
        while taken < bytes.len()
            invariant
                taken <= bytes@.len(),
                self@.wf(),
                self@ == old(self)@.run(bytes@.take(taken as int)),
            decreases bytes@.len() - taken,
        {
            assert(bytes@.take(taken + 1).drop_last() =~= bytes@.take(taken as int));
            self.write_byte(bytes[taken]);
            taken += 1;
        }
        assert(bytes@.take(taken as int) =~= bytes@);
    }

    /// Takes the UTF-8 bytes of `s` one at a time, in order. Nothing is
    /// decoded: a character of several bytes fills several cells.
    pub fn write_string(&mut self, s: &str)
        ensures
            final(self)@.wf(),
            final(self)@ == old(self)@.run(s.spec_bytes()),
            old(self)@.frames(final(self)@),
    {
        self.write_bytes(s.as_bytes());
    }

    /// Moves the cursor to column `x` of row `y` and returns `true`, or, where
    /// that is no cell of the grid, changes nothing and returns `false`.
    pub fn set_position(&mut self, x: usize, y: usize) -> (moved: bool)
        ensures
            final(self)@.wf(),
            moved == (x < old(self)@.width && y < old(self)@.height),
            final(self)@ == old(self)@.moved_to(x as nat, y as nat),
    {
        proof {
            use_type_invariant(&*self);
        }
        if x < self.width && y < self.height {
            self.position = (x, y);
            true
        } else {
            false
        }
    }

    /// Moves the cursor to column `x` of row `y`. Unlike
    /// [`FrameBufferWriter::set_position`] it never refuses: where `(x, y)` is
    /// no cell of the grid, the cursor goes to the start of the last row.
    pub fn set_cursor(&mut self, x: usize, y: usize)
        ensures
            final(self)@.wf(),
            final(self)@ == old(self)@.homed_to(x as nat, y as nat),
    {
        proof {
            use_type_invariant(&*self);
        }
        if x < self.width && y < self.height {
            self.position = (x, y);
        } else {
            self.position = (0, self.height - 1);
        }
    }
    /// Columns of the grid.
    pub fn width(&self) -> (width: usize)
        ensures
            width == self@.width,
    {
        self.width
    }

    /// Rows of the grid.
    pub fn height(&self) -> (height: usize)
        ensures
            height == self@.height,
    {
        self.height
    }

    /// The cursor, as column and row.
    pub fn position(&self) -> (position: (usize, usize))
        ensures
            position.0 == self@.col,
            position.1 == self@.row,
    {
        self.position
    }

    /// The attribute that the next visible character is stored with.
    pub fn color_code(&self) -> (attribute: u8)
        ensures
            attribute == self@.attribute,
    {
        self.color_code
    }

    /// Whether the next byte is the directive of an escape.
    pub fn escape_pending(&self) -> (pending: bool)
        ensures
            pending == self@.escape,
    {
        self.escape
    }

    /// The character code and the attribute in the cell at column `col` of
    /// row `row`, or `None` where that is no cell of the grid.
    pub fn cell(&self, col: usize, row: usize) -> (cell: Option<(u8, u8)>)
        ensures
            cell == (if col < self@.width && row < self@.height {
                Some(self@.cell(col as nat, row as nat))
            } else {
                None
            }),
    {
        if col < self.width && row < self.height {
            proof {
                use_type_invariant(self);
                lemma_cell_in_grid(self.width as nat, self.height as nat, col as nat, row as nat);
                assert(self.surface.len() == self.surface@.len());
            }
            let at = (row * self.width + col) * 2;
            Some((self.surface[at], self.surface[at + 1]))
        } else {
            None
        }
    }

    /// The bytes that the console draws on.
    pub fn surface(&self) -> (surface: &Vec<u8>)
        ensures
            surface@ == self@.surface,
    {
        &self.surface
    }

    /// Gives the surface back and ends the console.
    pub fn into_surface(self) -> (surface: Vec<u8>)
        ensures
            surface@ == self@.surface,
    {
        self.surface
    }
}

} // verus!
