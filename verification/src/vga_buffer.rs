//! The text-mode display: a fixed grid of glyph cells and the writer that
//! renders bytes into it while tracking a cursor.

use vstd::prelude::*;
use vstd::string::StringSliceAdditionalSpecFns;
use core::fmt::Write;
use volatile::Volatile;

verus! {

/// Number of rows of the character grid.
pub const BUFFER_HEIGHT: usize = 25;

/// Number of columns of the character grid.
pub const BUFFER_WIDTH: usize = 80;

/// The byte shown in place of anything that is neither printable ASCII nor a
/// line feed.
pub const PLACEHOLDER: u8 = 0xfe;

/// The line-feed byte.
pub const LINE_FEED: u8 = 0x0a;

/// The sixteen entries of the hardware palette.
#[derive(Debug, Clone, Copy, PartialEq, Eq, Structural)]
pub enum Color {
    Black,
    Blue,
    Green,
    Cyan,
    Red,
    Magenta,
    Brown,
    LightGray,
    DarkGray,
    LightBlue,
    LightGreen,
    LightCyan,
    LightRed,
    Pink,
    Yellow,
    White,
}

impl Color {
    /// The palette index of the color, a value below 16.
    pub open spec fn spec_index(self) -> u8 {
        match self {
            Color::Black => 0,
            Color::Blue => 1,
            Color::Green => 2,
            Color::Cyan => 3,
            Color::Red => 4,
            Color::Magenta => 5,
            Color::Brown => 6,
            Color::LightGray => 7,
            Color::DarkGray => 8,
            Color::LightBlue => 9,
            Color::LightGreen => 10,
            Color::LightCyan => 11,
            Color::LightRed => 12,
            Color::Pink => 13,
            Color::Yellow => 14,
            Color::White => 15,
        }
    }

    /// The palette index of the color.
    #[verifier::when_used_as_spec(spec_index)]
    pub fn index(self) -> (i: u8)
        ensures
            i == self.spec_index(),
            i < 16,
    {
        match self {
            Color::Black => 0,
            Color::Blue => 1,
            Color::Green => 2,
            Color::Cyan => 3,
            Color::Red => 4,
            Color::Magenta => 5,
            Color::Brown => 6,
            Color::LightGray => 7,
            Color::DarkGray => 8,
            Color::LightBlue => 9,
            Color::LightGreen => 10,
            Color::LightCyan => 11,
            Color::LightRed => 12,
            Color::Pink => 13,
            Color::Yellow => 14,
            Color::White => 15,
        }
    }
}

/// A foreground and a background palette index packed into one byte: the
/// background in the high four bits, the foreground in the low four.
#[derive(Debug, Clone, Copy, PartialEq, Eq, Structural)]
pub struct ColorCode(pub u8);

impl ColorCode {
    /// The packed byte for `foreground` on `background`.
    pub open spec fn spec_new(foreground: Color, background: Color) -> ColorCode {
        ColorCode((background.spec_index() * 16 + foreground.spec_index()) as u8)
    }

    /// Packs `foreground` on `background` into one byte.
    #[verifier::when_used_as_spec(spec_new)]
    pub fn new(foreground: Color, background: Color) -> (code: ColorCode)
        ensures
            code == ColorCode::spec_new(foreground, background),
            code.0 == background.spec_index() * 16 + foreground.spec_index(),
    {
        let fg: u8 = foreground.index();
        let bg: u8 = background.index();
        assert((bg << 4 | fg) == bg * 16 + fg) by (bit_vector)
            requires
                fg < 16,
                bg < 16,
        ;
        ColorCode(bg << 4 | fg)
    }
}

/// One glyph cell: the character byte and the color it is drawn in.
#[derive(Debug, Clone, Copy, PartialEq, Eq, Structural)]
pub struct ScreenChar {
    pub ascii_character: u8,
    pub color_code: ColorCode,
}

impl ScreenChar {
    /// The two bytes of the cell as the hardware reads them: the character
    /// in the low byte, the color in the high byte.
    pub open spec fn spec_encode(self) -> u16 {
        (self.color_code.0 * 256 + self.ascii_character) as u16
    }

    /// The cell that the hardware shows for the two bytes `raw`.
    pub open spec fn spec_decode(raw: u16) -> ScreenChar {
        ScreenChar { ascii_character: (raw % 256) as u8, color_code: ColorCode((raw / 256) as u8) }
    }

    /// The two bytes of the cell as the hardware reads them.
    #[verifier::when_used_as_spec(spec_encode)]
    pub fn encode(self) -> (raw: u16)
        ensures
            raw == self.spec_encode(),
            ScreenChar::spec_decode(raw) == self,
    {
        (self.color_code.0 as u16) * 256 + (self.ascii_character as u16)
    }

    /// The cell that the hardware shows for the two bytes `raw`.
    #[verifier::when_used_as_spec(spec_decode)]
    pub fn decode(raw: u16) -> (cell: ScreenChar)
        ensures
            cell == ScreenChar::spec_decode(raw),
            cell.spec_encode() == raw,
    {
        ScreenChar { ascii_character: (raw % 256) as u8, color_code: ColorCode((raw / 256) as u8) }
    }
}

/// Whether `byte` is printable ASCII.
pub open spec fn is_printable(byte: u8) -> bool {
    0x20 <= byte <= 0x7e
}

/// The byte that the display shows for `byte`: the byte itself where it
/// is printable ASCII or a line feed, the placeholder otherwise.
pub open spec fn displayable(byte: u8) -> u8 {
    if is_printable(byte) || byte == LINE_FEED {
        byte
    } else {
        PLACEHOLDER
    }
}

/// The row that follows `row`; the last row is followed by the first.
pub open spec fn next_row(row: int) -> int {
    if row + 1 < BUFFER_HEIGHT {
        row + 1
    } else {
        0
    }
}

/// The display as a mathematical value: the cursor, the color in use and
/// the grid's cells, row after row.
pub struct Screen {
    pub column: int,
    pub row: int,
    pub color: ColorCode,
    pub cells: Seq<ScreenChar>,
}

impl Screen {
    /// The cursor lies within the grid (the column may stand one past the
    /// last cell of its row) and the grid has its full size.
    pub open spec fn wf(self) -> bool {
        &&& 0 <= self.column <= BUFFER_WIDTH
        &&& 0 <= self.row < BUFFER_HEIGHT
        &&& self.cells.len() == BUFFER_WIDTH * BUFFER_HEIGHT
    }

    /// The cell at `row` and `column`.
    pub open spec fn cell(self, row: int, column: int) -> ScreenChar {
        self.cells[row * BUFFER_WIDTH + column]
    }

    /// The cursor moved to the start of the next row.
    pub open spec fn new_line(self) -> Screen {
        Screen { column: 0, row: next_row(self.row), ..self }
    }

    /// The cursor brought to where the next glyph lands: unchanged while it
    /// stands on a cell, at the start of the next row once it has run past
    /// the end of its row.
    pub open spec fn settle(self) -> Screen {
        if self.column >= BUFFER_WIDTH {
            self.new_line()
        } else {
            self
        }
    }

    /// The glyph `byte` stored as it is, in the current color, where the
    /// cursor lands, and the cursor moved one column on.
    pub open spec fn put(self, byte: u8) -> Screen {
        let at = self.settle();
        Screen {
            column: at.column + 1,
            cells: at.cells.update(
                at.row * BUFFER_WIDTH + at.column,
                ScreenChar { ascii_character: byte, color_code: at.color },
            ),
            ..at
        }
    }

    /// The display after one byte: a line feed moves the cursor; a
    /// printable byte is stored as it is, and any other byte is stored as
    /// the placeholder.
    pub open spec fn write_byte(self, byte: u8) -> Screen {
        if byte == LINE_FEED {
            self.new_line()
        } else {
            self.put(displayable(byte))
        }
    }

    /// The display after the bytes of a text, one after the other, first
    /// to last.
    pub open spec fn write_bytes(self, bytes: Seq<u8>) -> Screen
        decreases bytes.len(),
    {
        if bytes.len() == 0 {
            self
        } else {
            self.write_bytes(bytes.drop_last()).write_byte(bytes.last())
        }
    }
}

/// `volatile::Volatile`, the wrapper through which every access to a cell
/// of the grid is a volatile one. The verifier sees nothing inside it.
#[verifier::external_type_specification]
#[verifier::external_body]
#[verifier::reject_recursive_types(T)]
pub struct ExVolatile<T: Copy>(Volatile<T>);

/// The value that a `Volatile` cell contains: the two bytes of one cell of
/// the grid. Nothing is proved of it; `cell_write` and `cell_read` are
/// trusted to store and to load it.
pub uninterp spec fn cell_contents(cell: Volatile<u16>) -> u16;

/// `Volatile::write`. Trusted: the volatile store sets the contained value
/// to `value`, and it does not unwind.
#[verifier::external_body]
fn cell_write(cell: &mut Volatile<u16>, value: u16)
    ensures
        cell_contents(*final(cell)) == value,
    no_unwind
{
    cell.write(value)
}

/// `Volatile::read`. Trusted: the volatile load returns a copy of the
/// contained value.
#[verifier::external_body]
fn cell_read(cell: &Volatile<u16>) -> (value: u16)
    ensures
        value == cell_contents(*cell),
{
    cell.read()
}

/// `Volatile::new`. Trusted: the new cell contains `value`.
#[verifier::external_body]
fn cell_new(value: u16) -> (cell: Volatile<u16>)
    ensures
        cell_contents(cell) == value,
{
    Volatile::new(value)
}

/// The glyph cells that a run of hardware cells shows.
pub open spec fn shown(cells: Seq<Volatile<u16>>) -> Seq<ScreenChar> {
    Seq::new(cells.len(), |i: int| ScreenChar::spec_decode(cell_contents(cells[i])))
}

/// The glyph of an unused cell: a space, white on black.
pub open spec fn blank() -> ScreenChar {
    ScreenChar { ascii_character: 0x20, color_code: ColorCode::spec_new(Color::White, Color::Black) }
}

/// A grid of cells in ordinary memory, each of them blank: a display for a
/// machine that maps none.
pub fn blank_grid() -> (cells: Vec<Volatile<u16>>)
    ensures
        cells@.len() == BUFFER_WIDTH * BUFFER_HEIGHT,
        forall|i: int| 0 <= i < cells@.len() ==> #[trigger] shown(cells@)[i] == blank(),
{
    let glyph = ScreenChar {
        ascii_character: 0x20,
        color_code: ColorCode::new(Color::White, Color::Black),
    };
    let raw: u16 = glyph.encode();
    let mut cells: Vec<Volatile<u16>> = Vec::new();
    while cells.len() < BUFFER_WIDTH * BUFFER_HEIGHT
        invariant
            cells@.len() <= BUFFER_WIDTH * BUFFER_HEIGHT,
            ScreenChar::spec_decode(raw) == blank(),
            forall|i: int| 0 <= i < cells@.len() ==> cell_contents(#[trigger] cells@[i]) == raw,
        decreases BUFFER_WIDTH * BUFFER_HEIGHT - cells@.len(),
    {
        cells.push(cell_new(raw));
    }
    cells
}

/// The display writer: the cursor, the color in use, and exclusive access
/// to the grid's hardware cells.
pub struct Writer<'a> {
    column_position: usize,
    row_position: usize,
    color_code: ColorCode,
    buffer: &'a mut [Volatile<u16>],
}

impl<'a> View for Writer<'a> {
    type V = Screen;

    closed spec fn view(&self) -> Screen {
        Screen {
            column: self.column_position as int,
            row: self.row_position as int,
            color: self.color_code,
            cells: shown(self.buffer@),
        }
    }
}

impl<'a> Writer<'a> {
    /// The writer's cursor lies within its grid, and the grid has its full
    /// size.
    #[verifier::type_invariant]
    pub closed spec fn wf(&self) -> bool {
        &&& self.column_position <= BUFFER_WIDTH
        &&& self.row_position < BUFFER_HEIGHT
        &&& self.buffer@.len() == BUFFER_WIDTH * BUFFER_HEIGHT
    }

    /// A writer over `buffer` with the cursor at the top left, drawing
    /// white on black. The buffer must hold exactly one cell for each
    /// position of the grid; what it shows is left as it is.
    pub fn new(buffer: &'a mut [Volatile<u16>]) -> (writer: Option<Writer<'a>>)
        ensures
            writer is Some <==> old(buffer)@.len() == BUFFER_WIDTH * BUFFER_HEIGHT,
            writer matches Some(w) ==> {
                &&& w@.wf()
                &&& w@.column == 0
                &&& w@.row == 0
                &&& w@.color == ColorCode::spec_new(Color::White, Color::Black)
                &&& w@.cells == shown(old(buffer)@)
            },
    {
        if buffer.len() == BUFFER_WIDTH * BUFFER_HEIGHT {
            Some(
                Writer {
                    column_position: 0,
                    row_position: 0,
                    color_code: ColorCode::new(Color::White, Color::Black),
                    buffer,
                },
            )
        } else {
            None
        }
    }

    /// Moves the cursor to the start of the next row; from the last row it
    /// goes back to the first.
    pub fn new_line(&mut self)
        ensures
            final(self)@.wf(),
            final(self)@ == old(self)@.new_line(),
    {
        proof {
            use_type_invariant(&*self);
        }
        if self.row_position + 1 < BUFFER_HEIGHT {
            self.row_position += 1;
        } else {
            self.row_position = 0;
        }
        self.column_position = 0;
    }

    /// Writes one byte at the cursor. A line feed moves the cursor to the
    /// start of the next row. A printable byte is stored as it is, and any
    /// other byte as the placeholder, in the writer's color, after a line
    /// break of its own where the cursor has run past the end of its row;
    /// the cursor then moves one column on.
    pub fn write_byte(&mut self, byte: u8)
        ensures
            final(self)@.wf(),
            final(self)@ == old(self)@.write_byte(byte),
    {
        if byte == LINE_FEED {
            self.new_line();
        } else {
            if self.column_position >= BUFFER_WIDTH {
                self.new_line();
            }
            proof {
                use_type_invariant(&*self);
            }
            let row: usize = self.row_position;
            let col: usize = self.column_position;
            let shown_byte: u8 = if 0x20 <= byte && byte <= 0x7e {
                byte
            } else {
                PLACEHOLDER
            };
            let glyph = ScreenChar { ascii_character: shown_byte, color_code: self.color_code };
            cell_write(&mut self.buffer[row * BUFFER_WIDTH + col], glyph.encode());
            self.column_position += 1;
            assert(self@.cells =~= old(self)@.put(displayable(byte)).cells);
        }
    }

    /// The column of the cursor: that of the cell the next glyph goes to,
    /// or the grid's width once the cursor has run past the end of its row.
    pub fn column_position(&self) -> (column: usize)
        ensures
            column == self@.column,
            self@.wf(),
    {
        proof {
            use_type_invariant(self);
        }
        self.column_position
    }

    /// The row of the cursor.
    pub fn row_position(&self) -> (row: usize)
        ensures
            row == self@.row,
            self@.wf(),
    {
        proof {
            use_type_invariant(self);
        }
        self.row_position
    }

    /// Reads back the cell at `row` and `column`, if the grid has one
    /// there.
    pub fn read_cell(&self, row: usize, column: usize) -> (cell: Option<ScreenChar>)
        ensures
            cell is Some <==> row < BUFFER_HEIGHT && column < BUFFER_WIDTH,
            cell matches Some(glyph) ==> glyph == self@.cell(row as int, column as int),
    {
        proof {
            use_type_invariant(self);
        }
        if row < BUFFER_HEIGHT && column < BUFFER_WIDTH {
            Some(ScreenChar::decode(cell_read(&self.buffer[row * BUFFER_WIDTH + column])))
        } else {
            None
        }
    }

    /// Writes a text, one storage byte at a time: printable ASCII and line
    /// feeds as they are, the placeholder for every other byte. A character
    /// that takes several bytes in storage shows as several placeholders.
    pub fn write_string(&mut self, s: &str)
        ensures
            final(self)@.wf(),
            final(self)@ == old(self)@.write_bytes(s.spec_bytes()),
    {
        proof {
            use_type_invariant(&*self);
        }
        let bytes = s.as_bytes();
        let ghost start = self@;
        let mut i: usize = 0;
        while i < bytes.len()
            invariant
                i <= bytes@.len(),
                self@.wf(),
                self@ == start.write_bytes(bytes@.take(i as int)),
            decreases bytes@.len() - i,
        {
            self.write_byte(bytes[i]);
            assert(bytes@.take(i + 1).drop_last() =~= bytes@.take(i as int));
            i += 1;
        }
        assert(bytes@.take(i as int) =~= bytes@);
    }
}

/// `core::fmt::Error`, the error of `core::fmt::Write`. The writer never
/// returns it.
#[verifier::external_type_specification]
#[verifier::external_body]
pub struct ExFmtError(core::fmt::Error);

impl<'a> core::fmt::Write for Writer<'a> {
    fn write_str(&mut self, s: &str) -> (r: Result<(), core::fmt::Error>)
        ensures
            r is Ok,
            final(self)@.wf(),
            final(self)@ == old(self)@.write_bytes(s.spec_bytes()),
    {
        self.write_string(s);
        Ok(())
    }
}

/// Whether every byte of `text` is printable ASCII.
pub open spec fn all_printable(text: Seq<u8>) -> bool {
    forall|i: int| 0 <= i < text.len() ==> is_printable(#[trigger] text[i])
}

/// A byte other than a line feed is stored in the cell where the cursor
/// lands, in the display's color: unchanged where it is printable ASCII,
/// as the placeholder otherwise. No other cell changes, and the cursor
/// ends one column past that cell.
pub proof fn lemma_write_byte_stores(screen: Screen, byte: u8)
    requires
        screen.wf(),
        byte != LINE_FEED,
    ensures
        screen.settle().wf(),
        screen.settle().column < BUFFER_WIDTH,
        screen.write_byte(byte).wf(),
        screen.write_byte(byte).cell(screen.settle().row, screen.settle().column) == (ScreenChar {
            ascii_character: displayable(byte),
            color_code: screen.color,
        }),
        is_printable(byte) ==> screen.write_byte(byte).cell(
            screen.settle().row,
            screen.settle().column,
        ).ascii_character == byte,
        !is_printable(byte) ==> screen.write_byte(byte).cell(
            screen.settle().row,
            screen.settle().column,
        ).ascii_character == PLACEHOLDER,
        screen.write_byte(byte).row == screen.settle().row,
        screen.write_byte(byte).column == screen.settle().column + 1,
        screen.write_byte(byte).color == screen.color,
        forall|row: int, column: int|
            0 <= row < BUFFER_HEIGHT && 0 <= column < BUFFER_WIDTH && !(row == screen.settle().row
                && column == screen.settle().column) ==> #[trigger] screen.write_byte(byte).cell(
                row,
                column,
            ) == screen.cell(row, column),
{
}

/// A text of one byte is written as that byte is.
pub proof fn lemma_write_bytes_one(screen: Screen, byte: u8)
    ensures
        screen.write_bytes(seq![byte]) == screen.write_byte(byte),
{
    let text = seq![byte];
    assert(text.drop_last() =~= Seq::<u8>::empty());
    assert(screen.write_bytes(text.drop_last()) == screen);
    assert(text.last() == byte);
}

/// A line feed puts the cursor at the start of the following row, whatever
/// column it stood in, and changes no cell. Anywhere above the last row
/// the following row is the row one further down.
pub proof fn lemma_line_feed(screen: Screen)
    requires
        screen.wf(),
    ensures
        screen.write_byte(LINE_FEED).wf(),
        screen.write_byte(LINE_FEED).column == 0,
        screen.write_byte(LINE_FEED).row == next_row(screen.row),
        screen.row + 1 < BUFFER_HEIGHT ==> screen.write_byte(LINE_FEED).row == screen.row + 1,
        screen.write_byte(LINE_FEED).cells == screen.cells,
        screen.write_byte(LINE_FEED).color == screen.color,
{
}

/// A printable text that fits between the cursor and the end of its row
/// reads back from that row exactly: its bytes in order, in the display's
/// color, from the cursor's column on. The cursor stays in the row, just
/// past the text, and no other cell changes.
pub proof fn lemma_text_reads_back(screen: Screen, text: Seq<u8>)
    requires
        screen.wf(),
        all_printable(text),
        screen.column + text.len() <= BUFFER_WIDTH,
    ensures
        screen.write_bytes(text).wf(),
        screen.write_bytes(text).row == screen.row,
        screen.write_bytes(text).column == screen.column + text.len(),
        screen.write_bytes(text).color == screen.color,
        forall|i: int|
            0 <= i < text.len() ==> #[trigger] screen.write_bytes(text).cell(
                screen.row,
                screen.column + i,
            ) == (ScreenChar { ascii_character: text[i], color_code: screen.color }),
        forall|row: int, column: int|
            0 <= row < BUFFER_HEIGHT && 0 <= column < BUFFER_WIDTH && !(row == screen.row
                && screen.column <= column < screen.column + text.len())
                ==> #[trigger] screen.write_bytes(text).cell(row, column) == screen.cell(row, column),
    decreases text.len(),
{
    if text.len() > 0 {
        let front = text.drop_last();
        let before = screen.write_bytes(front);
        assert(all_printable(front)) by {
            assert forall|i: int| 0 <= i < front.len() implies is_printable(#[trigger] front[i]) by {
                assert(front[i] == text[i]);
            }
        }
        lemma_text_reads_back(screen, front);
        assert(is_printable(text[text.len() - 1]));
        let byte = text.last();
        lemma_write_byte_stores(before, byte);
        let after = screen.write_bytes(text);
        assert(after == before.write_byte(byte));
        assert(before.settle() == before);
        assert forall|i: int| 0 <= i < text.len() implies #[trigger] after.cell(
            screen.row,
            screen.column + i,
        ) == (ScreenChar { ascii_character: text[i], color_code: screen.color }) by {
            if i < front.len() {
                assert(before.cell(screen.row, screen.column + i) == (ScreenChar {
                    ascii_character: front[i],
                    color_code: screen.color,
                }));
                assert(after.cell(screen.row, screen.column + i) == before.cell(
                    screen.row,
                    screen.column + i,
                ));
            }
        }
        assert forall|row: int, column: int|
            0 <= row < BUFFER_HEIGHT && 0 <= column < BUFFER_WIDTH && !(row == screen.row
                && screen.column <= column < screen.column + text.len()) implies #[trigger] after.cell(
            row,
            column,
        ) == screen.cell(row, column) by {
            assert(after.cell(row, column) == before.cell(row, column));
            assert(before.cell(row, column) == screen.cell(row, column));
        }
    }
}

/// On a display whose cursor stands at the top left, a printable text of
/// at most one row's length reads back from the first row: its bytes in
/// order.
pub proof fn lemma_first_row_reads_back(screen: Screen, text: Seq<u8>)
    requires
        screen.wf(),
        screen.row == 0,
        screen.column == 0,
        all_printable(text),
        text.len() <= BUFFER_WIDTH,
    ensures
        forall|i: int|
            0 <= i < text.len() ==> (#[trigger] screen.write_bytes(text).cell(0, i)).ascii_character
                == text[i],
{
    lemma_text_reads_back(screen, text);
    assert forall|i: int| 0 <= i < text.len() implies (#[trigger] screen.write_bytes(text).cell(
        0,
        i,
    )).ascii_character == text[i] by {
        assert(screen.write_bytes(text).cell(screen.row, screen.column + i) == (ScreenChar {
            ascii_character: text[i],
            color_code: screen.color,
        }));
    }
}

/// Writing the bytes of `text` and then `byte` is writing one text that
/// ends in `byte`.
pub proof fn lemma_write_bytes_push(screen: Screen, text: Seq<u8>, byte: u8)
    ensures
        screen.write_bytes(text.push(byte)) == screen.write_bytes(text).write_byte(byte),
{
    assert(text.push(byte).drop_last() =~= text);
    assert(text.push(byte).last() == byte);
}

/// After a full row of printable characters, written from the start of a
/// row, one more printable character goes to the first column of the
/// following row: the row wraps. The full row keeps every character, and
/// the cursor stands in the second column of the following row.
pub proof fn lemma_full_row_wraps(screen: Screen, row_text: Seq<u8>, next: u8)
    requires
        screen.wf(),
        screen.column == 0,
        row_text.len() == BUFFER_WIDTH,
        all_printable(row_text),
        is_printable(next),
    ensures
        screen.write_bytes(row_text.push(next)).wf(),
        screen.write_bytes(row_text.push(next)).row == next_row(screen.row),
        screen.write_bytes(row_text.push(next)).column == 1,
        screen.write_bytes(row_text.push(next)).cell(next_row(screen.row), 0) == (ScreenChar {
            ascii_character: next,
            color_code: screen.color,
        }),
        forall|i: int|
            0 <= i < BUFFER_WIDTH ==> #[trigger] screen.write_bytes(row_text.push(next)).cell(
                screen.row,
                i,
            ) == (ScreenChar { ascii_character: row_text[i], color_code: screen.color }),
{
    let full = screen.write_bytes(row_text);
    let after = screen.write_bytes(row_text.push(next));
    lemma_text_reads_back(screen, row_text);
    lemma_write_bytes_push(screen, row_text, next);
    lemma_write_byte_stores(full, next);
    assert(full.settle() == full.new_line());
    assert forall|i: int| 0 <= i < BUFFER_WIDTH implies #[trigger] after.cell(screen.row, i) == (
    ScreenChar { ascii_character: row_text[i], color_code: screen.color }) by {
        assert(full.cell(screen.row, screen.column + i) == (ScreenChar {
            ascii_character: row_text[i],
            color_code: screen.color,
        }));
        assert(after.cell(screen.row, i) == full.cell(screen.row, i));
    }
}

/// Prints `text` on the display through `writer`.
pub fn _print(writer: &mut Writer, text: &str)
    ensures
        final(writer)@.wf(),
        final(writer)@ == old(writer)@.write_bytes(text.spec_bytes()),
{
    let _ = writer.write_str(text);
}

} // verus!
