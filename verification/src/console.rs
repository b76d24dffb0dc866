use vstd::prelude::*;

verus! {

/// Line feed: moves the cursor to the start of the next row.
pub const NEWLINE: u8 = 0x0A;

/// Horizontal tab: pads with blanks up to the next multiple of four columns.
pub const TAB: u8 = 0x09;

/// Backslash: announces a directive byte.
pub const ESCAPE: u8 = 0x5C;

/// The directive that switches to the alert attribute.
pub const ALERT_DIRECTIVE: u8 = 0x63;

/// The attribute that the alert directive selects.
pub const ALERT_ATTRIBUTE: u8 = 0x0C;

/// The character of a cleared cell and of tab padding.
pub const BLANK: u8 = 0x20;

/// Columns between two tab stops.
pub const TAB_STOP: usize = 4;

/// The state of a console as a mathematical value.
///
/// `surface` is the whole byte region that the console draws on. Its first
/// `width * height * 2` bytes are the grid, row after row, two bytes per cell:
/// the character code, then the attribute. Bytes behind the grid are carried
/// along and never change.
pub struct Console {
    pub width: nat,
    pub height: nat,
    pub surface: Seq<u8>,
    pub col: nat,
    pub row: nat,
    pub attribute: u8,
    /// A backslash has been read and its directive byte is still to come.
    pub escape: bool,
}

impl Console {
    /// Bytes in one row of the grid.
    pub open spec fn row_bytes(self) -> nat {
        self.width * 2
    }

    /// Bytes in the whole grid.
    pub open spec fn grid_bytes(self) -> nat {
        self.width * self.height * 2
    }

    /// The grid is not empty and lies inside the surface; the cursor is on a
    /// row of the grid and at most one column past the end of that row.
    pub open spec fn wf(self) -> bool {
        &&& self.width > 0
        &&& self.height > 0
        &&& self.grid_bytes() <= self.surface.len()
        &&& self.col <= self.width
        &&& self.row < self.height
    }

    /// `after` has the geometry of this console, a surface of the same length,
    /// and the same bytes behind the grid.
    pub open spec fn frames(self, after: Console) -> bool {
        &&& after.width == self.width
        &&& after.height == self.height
        &&& after.surface.len() == self.surface.len()
        &&& forall|i: int|
            self.grid_bytes() <= i < self.surface.len() ==> after.surface[i] == self.surface[i]
    }

    /// Where the cell at `(col, row)` starts in the surface.
    pub open spec fn offset(self, col: nat, row: nat) -> nat {
        (row * self.width + col) * 2
    }

    /// What the cell at `(col, row)` shows: its character code and its
    /// attribute.
    pub open spec fn cell(self, col: nat, row: nat) -> (u8, u8) {
        let at = self.offset(col, row) as int;
        (self.surface[at], self.surface[at + 1])
    }

    /// The console with nothing changed but the cursor.
    pub open spec fn at(self, col: nat, row: nat) -> Console {
        Console { col, row, ..self }
    }

    /// The console after a request to move the cursor to `(col, row)`: a
    /// position outside the grid is refused and leaves the cursor alone.
    pub open spec fn moved_to(self, col: nat, row: nat) -> Console {
        if col < self.width && row < self.height {
            self.at(col, row)
        } else {
            self
        }
    }

    /// The lenient form of [`Console::moved_to`]: a position outside the grid
    /// sends the cursor to the start of the last row.
    pub open spec fn homed_to(self, col: nat, row: nat) -> Console {
        if col < self.width && row < self.height {
            self.at(col, row)
        } else {
            self.at(0, (self.height - 1) as nat)
        }
    }

    /// The surface after the grid has moved up by one row: every row but the
    /// first takes the place of the row above it, and the last row is cleared
    /// to blanks in the active attribute.
    pub open spec fn scrolled_surface(self) -> Seq<u8> {
        Seq::new(
            self.surface.len(),
            |i: int|
                if i < self.grid_bytes() - self.row_bytes() {
                    self.surface[i + self.row_bytes()]
                } else if i < self.grid_bytes() {
                    if i % 2 == 0 {
                        BLANK
                    } else {
                        self.attribute
                    }
                } else {
                    self.surface[i]
                },
        )
    }

    /// The console after scrolling; the cursor stays where it was.
    pub open spec fn scrolled(self) -> Console {
        Console { surface: self.scrolled_surface(), ..self }
    }

    /// The console after a line break: the cursor returns to column 0 and
    /// moves down a row, or, on the last row, the grid scrolls.
    pub open spec fn new_line(self) -> Console {
        if self.row + 1 < self.height {
            self.at(0, self.row + 1)
        } else {
            self.scrolled().at(0, (self.height - 1) as nat)
        }
    }

    /// The console after `byte` and the active attribute are stored in the
    /// cell under the cursor and the cursor has moved one column right.
    pub open spec fn stored(self, byte: u8) -> Console {
        let at = self.offset(self.col, self.row) as int;
        Console {
            surface: self.surface.update(at, byte).update(at + 1, self.attribute),
            col: self.col + 1,
            ..self
        }
    }

    /// The console after a visible character: a cursor past the end of its row
    /// first breaks the line, then the character is stored.
    pub open spec fn put(self, byte: u8) -> Console {
        if self.col >= self.width {
            self.new_line().stored(byte)
        } else {
            self.stored(byte)
        }
    }

    /// The console after `count` blanks, each written as a visible character.
    pub open spec fn put_blanks(self, count: nat) -> Console
        decreases count,
    {
        if count == 0 {
            self
        } else {
            self.put_blanks((count - 1) as nat).put(BLANK)
        }
    }

    /// How many blanks a tab writes from column `col`: between 1 and 4.
    pub open spec fn tab_width(col: nat) -> nat {
        (TAB_STOP - col % (TAB_STOP as nat)) as nat
    }

    /// The console after a tab.
    pub open spec fn tabbed(self) -> Console {
        self.put_blanks(Self::tab_width(self.col))
    }

    /// The console after the directive byte that follows a backslash: `c`
    /// selects the alert attribute, any other byte is written as a visible
    /// character, whatever it is. Either way the escape is over.
    pub open spec fn directed(self, directive: u8) -> Console {
        if directive == ALERT_DIRECTIVE {
            Console { attribute: ALERT_ATTRIBUTE, escape: false, ..self }
        } else {
            Console { escape: false, ..self.put(directive) }
        }
    }

    /// The console after one byte of the stream.
    pub open spec fn step(self, byte: u8) -> Console {
        if self.escape {
            self.directed(byte)
        } else if byte == NEWLINE {
            self.new_line()
        } else if byte == TAB {
            self.tabbed()
        } else if byte == ESCAPE {
            Console { escape: true, ..self }
        } else {
            self.put(byte)
        }
    }

    /// The console after a run of bytes, taken one at a time in order.
    pub open spec fn run(self, bytes: Seq<u8>) -> Console
        decreases bytes.len(),
    {
        if bytes.len() == 0 {
            self
        } else {
            self.run(bytes.drop_last()).step(bytes.last())
        }
    }
}

} // verus!
