//! The company-fundamentals workbook: one sheet named `Unwritten` whose
//! column A holds the labels and column B the submitted values, with the
//! label of the primary sector filled in blue, written out as xlsx bytes.
use vstd::prelude::*;
use umya_spreadsheet::Spreadsheet;
use umya_spreadsheet::Worksheet;
use umya_spreadsheet::XlsxError;

use crate::models::Fundamentals;

verus! {

// ---------------------------------------------------------------------------
// The outside types and what the library knows of them
// ---------------------------------------------------------------------------

#[verifier::external_type_specification]
#[verifier::external_body]
pub struct ExSpreadsheet(umya_spreadsheet::Spreadsheet);

#[verifier::external_type_specification]
#[verifier::external_body]
pub struct ExWorksheet(umya_spreadsheet::Worksheet);

#[verifier::external_type_specification]
#[verifier::external_body]
pub struct ExXlsxError(umya_spreadsheet::XlsxError);

/// What a cell shows: the text that `Cell::get_value` gives back, and the
/// ARGB code of its background colour, if it has one.
pub type CellModel = (Seq<char>, Option<Seq<char>>);

/// The cells of a worksheet, keyed by their coordinate (`"A1"`, `"B4"`, ...).
pub type CellMap = Map<Seq<char>, CellModel>;

/// The worksheets of a workbook in order: each one's title and its cells.
pub uninterp spec fn workbook_sheets(book: Spreadsheet) -> Seq<(Seq<char>, CellMap)>;

/// Whether a workbook is fresh: every sheet of it is fresh (see
/// `sheet_fresh`), and apart from its sheets it holds only what
/// `umya_spreadsheet::new_file` sets up (the default theme, stylesheet,
/// properties and view; no media, macros or custom parts).
pub uninterp spec fn workbook_fresh(book: Spreadsheet) -> bool;

/// The cells of a worksheet.
pub uninterp spec fn sheet_cells(sheet: Worksheet) -> CellMap;

/// Whether a worksheet is fresh: it is loaded (umya can hold a sheet read
/// lazily as raw XML, which it parses when the sheet is first asked for; a
/// sheet that umya made itself is loaded from the start), none of its rows or
/// columns carries a style that a new cell would take on, and apart from its
/// cells and title it holds only what umya gives a new sheet (format
/// defaults, views, and the unstyled row and column entries that its cells
/// bring; no drawings, comments, tables or merged ranges).
pub uninterp spec fn sheet_fresh(sheet: Worksheet) -> bool;

/// The text that a cell shows after `Cell::set_value` was given `value`:
/// umya guesses a type for the value (empty, boolean, error code, number or
/// string) and shows the typed value.
pub uninterp spec fn typed_cell_text(value: Seq<char>) -> Seq<char>;

/// The sheets that an xlsx archive encodes, in workbook order: each one's
/// title and the cells written in its sheet data, keyed by coordinate, each
/// with the text its stored value shows and the ARGB code of its background
/// colour, if it has one.
pub uninterp spec fn xlsx_sheets(archive: Seq<u8>) -> Seq<(Seq<char>, CellMap)>;

/// Whether `c` is an ASCII decimal digit.
pub open spec fn is_digit(c: char) -> bool {
    '0' <= c <= '9'
}

/// The ASCII lower case of `c`.
pub open spec fn ascii_lower(c: char) -> char {
    if 'A' <= c <= 'Z' {
        ((c as u32) + 32) as char
    } else {
        c
    }
}

/// Whether `s` spells `word` (given in lower case) in any ASCII case.
pub open spec fn spells(s: Seq<char>, word: Seq<char>) -> bool {
    s.len() == word.len() && forall|i: int| 0 <= i < s.len() ==> ascii_lower(#[trigger] s[i]) == word[i]
}

/// The position of the first exponent mark (`e` or `E`) in `s`, or its length.
pub open spec fn exponent_position(s: Seq<char>) -> int
    decreases s.len(),
{
    if s.len() == 0 {
        0
    } else if s[0] == 'e' || s[0] == 'E' {
        0
    } else {
        1 + exponent_position(s.drop_first())
    }
}

/// `s` without a leading sign.
pub open spec fn unsigned_part(s: Seq<char>) -> Seq<char> {
    if s.len() > 0 && (s[0] == '+' || s[0] == '-') {
        s.drop_first()
    } else {
        s
    }
}

/// Digits with at most one decimal point, and at least one digit.
pub open spec fn is_mantissa(m: Seq<char>) -> bool {
    &&& forall|i: int| 0 <= i < m.len() ==> is_digit(#[trigger] m[i]) || m[i] == '.'
    &&& forall|i: int, j: int| 0 <= i < m.len() && 0 <= j < m.len() && #[trigger] m[i] == '.' && #[trigger] m[j] == '.' ==> i == j
    &&& exists|i: int| 0 <= i < m.len() && is_digit(#[trigger] m[i])
}

/// Whether `s` is the text of a floating-point number as Rust's `f64`
/// parser takes it: a sign, then `inf`, `infinity` or `nan` in any case, or
/// a mantissa with an optional exponent (`e` or `E`, a sign, digits).
pub open spec fn is_float_syntax(s: Seq<char>) -> bool {
    let body = unsigned_part(s);
    let k = exponent_position(body);
    ||| spells(body, seq!['i', 'n', 'f'])
    ||| spells(body, seq!['i', 'n', 'f', 'i', 'n', 'i', 't', 'y'])
    ||| spells(body, seq!['n', 'a', 'n'])
    ||| is_mantissa(body.take(k)) && (k == body.len() || {
        let exponent = unsigned_part(body.skip(k + 1));
        exponent.len() > 0 && forall|i: int| 0 <= i < exponent.len() ==> is_digit(#[trigger] exponent[i])
    })
}

/// The error codes that umya recognises in a value, as a cell shows them.
pub open spec fn error_codes() -> Seq<Seq<char>> {
    seq![
        seq!['#', 'D', 'I', 'V', '/', '0', '!'],
        seq!['#', 'N', '/', 'A'],
        seq!['#', 'N', 'A', 'M', 'E', '?'],
        seq!['#', 'N', 'U', 'L', 'L', '!'],
        seq!['#', 'N', 'U', 'M', '!'],
        seq!['#', 'R', 'E', 'F', '!'],
        seq!['#', 'V', 'A', 'L', 'U', 'E', '!'],
        seq!['#', 'D', 'A', 'T', 'A', '!'],
    ]
}

/// The error codes in lower case.
pub open spec fn error_codes_lower() -> Seq<Seq<char>> {
    seq![
        seq!['#', 'd', 'i', 'v', '/', '0', '!'],
        seq!['#', 'n', '/', 'a'],
        seq!['#', 'n', 'a', 'm', 'e', '?'],
        seq!['#', 'n', 'u', 'l', 'l', '!'],
        seq!['#', 'n', 'u', 'm', '!'],
        seq!['#', 'r', 'e', 'f', '!'],
        seq!['#', 'v', 'a', 'l', 'u', 'e', '!'],
        seq!['#', 'd', 'a', 't', 'a', '!'],
    ]
}

/// Whether `text` is an error code as a cell shows it.
pub open spec fn is_error_code(text: Seq<char>) -> bool {
    error_codes().contains(text)
}

/// The text that an xlsx archive holds for every error cell.
pub open spec fn value_error_text() -> Seq<char> {
    seq!['#', 'V', 'A', 'L', 'U', 'E', '!']
}

/// A value that umya keeps as plain text: ASCII, not empty, not `TRUE` or
/// `FALSE` or an error code in any case, and not the text of a number.
pub open spec fn is_plain_text(value: Seq<char>) -> bool {
    &&& value.len() > 0
    &&& forall|i: int| 0 <= i < value.len() ==> (#[trigger] value[i] as u32) < 128
    &&& !spells(value, seq!['t', 'r', 'u', 'e'])
    &&& !spells(value, seq!['f', 'a', 'l', 's', 'e'])
    &&& forall|k: int| 0 <= k < 8 ==> !spells(value, #[trigger] error_codes_lower()[k])
    &&& !is_float_syntax(value)
}

/// A whole number of at most fifteen digits without a leading zero: umya
/// stores it as a number, which shows as the same digits.
pub open spec fn is_plain_integer(value: Seq<char>) -> bool {
    &&& 1 <= value.len() <= 15
    &&& forall|i: int| 0 <= i < value.len() ==> is_digit(#[trigger] value[i])
    &&& (value.len() == 1 || value[0] != '0')
}

/// A value that a cell shows exactly as it was given: plain text, a short
/// whole number, a text with a space in it, `NaN` in any case (which umya
/// keeps as text), `TRUE` or `FALSE` in capitals, or nothing.
pub open spec fn shows_verbatim(value: Seq<char>) -> bool {
    ||| is_plain_text(value)
    ||| is_plain_integer(value)
    ||| value.contains(' ')
    ||| spells(value, seq!['n', 'a', 'n'])
    ||| value == seq!['T', 'R', 'U', 'E']
    ||| value == seq!['F', 'A', 'L', 'S', 'E']
    ||| value.len() == 0
}

/// No value that a cell shows as itself is an error code.
pub proof fn lemma_verbatim_is_no_error_code(value: Seq<char>)
    requires
        shows_verbatim(value),
    ensures
        !is_error_code(value),
{
    if is_error_code(value) {
        let k = choose|k: int| 0 <= k < 8 && error_codes()[k] == value;
        assert(value[0] == '#');
        assert(!is_plain_integer(value));
        assert(!spells(value, seq!['n', 'a', 'n']));
        if value.contains(' ') {
            let i = choose|i: int| 0 <= i < value.len() && value[i] == ' ';
            assert(false);
        }
        if is_plain_text(value) {
            assert(spells(value, error_codes_lower()[k]));
            assert(false);
        }
    }
}

/// A coordinate of one column letter and one row digit, such as `"B4"`:
/// umya reads it as that cell and it is its own canonical name.
pub open spec fn is_short_coordinate(coordinate: Seq<char>) -> bool {
    &&& coordinate.len() == 2
    &&& 'A' <= coordinate[0] <= 'Z'
    &&& '1' <= coordinate[1] <= '9'
}

/// Whether a sheet titled `title` is among `sheets`.
pub open spec fn has_sheet(sheets: Seq<(Seq<char>, CellMap)>, title: Seq<char>) -> bool {
    exists|i: int| 0 <= i < sheets.len() && #[trigger] sheets[i].0 == title
}

/// The position of the first sheet titled `title`.
pub open spec fn sheet_position(sheets: Seq<(Seq<char>, CellMap)>, title: Seq<char>) -> int {
    choose|i: int|
        0 <= i < sheets.len() && #[trigger] sheets[i].0 == title && forall|j: int|
            0 <= j < i ==> #[trigger] sheets[j].0 != title
}

/// In a workbook of one sheet, that sheet is the first one with its title.
proof fn lemma_single_sheet(sheets: Seq<(Seq<char>, CellMap)>, title: Seq<char>)
    requires
        sheets.len() == 1,
        sheets[0].0 == title,
    ensures
        has_sheet(sheets, title),
        sheet_position(sheets, title) == 0,
{
    assert(0 <= 0 < sheets.len() && sheets[0].0 == title && forall|j: int|
        0 <= j < 0 ==> #[trigger] sheets[j].0 != title);
}

/// `umya_spreadsheet::new_file`: a workbook with one empty, fresh sheet
/// titled `Sheet1` (its only other settings are the active cell and the view).
#[verifier::external_body]
fn new_file() -> (book: Spreadsheet)
    ensures
        workbook_sheets(book) == seq![("Sheet1"@, Map::<Seq<char>, CellModel>::empty())],
        workbook_fresh(book),
{
    umya_spreadsheet::new_file()
}

/// `Spreadsheet::remove_sheet`: removes the sheet at `index`, or refuses an
/// index past the last sheet and leaves the workbook as it was. Removing a
/// sheet leaves the other sheets as they are, fresh or not.
#[verifier::external_body]
fn remove_sheet(book: &mut Spreadsheet, index: usize) -> (r: Result<(), &'static str>)
    ensures
        index < workbook_sheets(*old(book)).len() ==> r is Ok && workbook_sheets(*final(book))
            == workbook_sheets(*old(book)).remove(index as int),
        index >= workbook_sheets(*old(book)).len() ==> r is Err && workbook_sheets(*final(book))
            == workbook_sheets(*old(book)),
        workbook_fresh(*old(book)) ==> workbook_fresh(*final(book)),
{
    book.remove_sheet(index)
}

/// `Spreadsheet::new_sheet`: appends an empty sheet titled `title`, or
/// refuses a title that a sheet already has and leaves the workbook as it was.
/// The new sheet is fresh. The reference to it that umya hands back is
/// dropped.
#[verifier::external_body]
fn new_sheet(book: &mut Spreadsheet, title: &str) -> (r: Result<(), &'static str>)
    ensures
        has_sheet(workbook_sheets(*old(book)), title@) ==> r is Err && workbook_sheets(
            *final(book),
        ) == workbook_sheets(*old(book)),
        !has_sheet(workbook_sheets(*old(book)), title@) ==> r is Ok && workbook_sheets(
            *final(book),
        ) == workbook_sheets(*old(book)).push((title@, Map::<Seq<char>, CellModel>::empty())),
        workbook_fresh(*old(book)) ==> workbook_fresh(*final(book)),
{
    match book.new_sheet(title) {
        Ok(_) => Ok(()),
        Err(e) => Err(e),
    }
}

/// `Spreadsheet::get_sheet_by_name_mut`: the first sheet titled `title`, if
/// any. What is done through the reference is what that sheet of the
/// workbook holds afterwards. umya parses a lazily read sheet here and panics
/// on malformed XML, so the workbook must be fresh, which it stays as long as
/// the sheet handed out does.
#[verifier::external_body]
fn sheet_by_name_mut<'a>(book: &'a mut Spreadsheet, title: &str) -> (r: Option<&'a mut Worksheet>)
    requires
        workbook_fresh(*old(book)),
    ensures
        r is None ==> workbook_fresh(*final(book)),
        r matches Some(sheet) ==> sheet_fresh(*sheet),
        r matches Some(sheet) ==> (sheet_fresh(*final(sheet)) ==> workbook_fresh(*final(book))),
        r is Some <==> has_sheet(workbook_sheets(*old(book)), title@),
        r is None ==> workbook_sheets(*final(book)) == workbook_sheets(*old(book)),
        r matches Some(sheet) ==> sheet_cells(*sheet) == workbook_sheets(*old(book))[sheet_position(
            workbook_sheets(*old(book)),
            title@,
        )].1,
        r matches Some(sheet) ==> workbook_sheets(*final(book)) == workbook_sheets(*old(book)).update(
            sheet_position(workbook_sheets(*old(book)), title@),
            (title@, sheet_cells(*final(sheet))),
        ),
{
    book.get_sheet_by_name_mut(title)
}

/// `Worksheet::get_cell_mut` followed by `Cell::set_value`: the cell at
/// `coordinate` (created if absent) shows the typed reading of `value`; a
/// value that is plain text, a short whole number, or has a space in it reads
/// as itself (none of these is empty, a boolean, an error code, or a number
/// whose display differs). An existing cell keeps its background; a new cell
/// takes on the style of its row or column, so in a fresh sheet it has none.
/// The shown text is the value itself or the display of a boolean, an error
/// code or a floating-point number, which never exceeds 400 characters. No
/// other cell changes.
#[verifier::external_body]
fn cell_set_value(sheet: &mut Worksheet, coordinate: &str, value: &str)
    requires
        is_short_coordinate(coordinate@),
    ensures
        sheet_cells(*final(sheet)).dom() == sheet_cells(*old(sheet)).dom().insert(coordinate@),
        forall|c: Seq<char>|
            #![trigger sheet_cells(*final(sheet))[c]]
            sheet_cells(*old(sheet)).dom().contains(c) && c != coordinate@ ==> sheet_cells(
                *final(sheet),
            )[c] == sheet_cells(*old(sheet))[c],
        sheet_cells(*final(sheet))[coordinate@].0 == typed_cell_text(value@),
        shows_verbatim(value@) ==> sheet_cells(*final(sheet))[coordinate@].0 == value@,
        sheet_cells(*final(sheet))[coordinate@].0.len() <= value@.len() + 400,
        sheet_fresh(*old(sheet)) && !sheet_cells(*old(sheet)).dom().contains(coordinate@)
            ==> sheet_cells(*final(sheet))[coordinate@].1 is None,
        sheet_fresh(*old(sheet)) ==> sheet_fresh(*final(sheet)),
        sheet_cells(*old(sheet)).dom().contains(coordinate@) ==> sheet_cells(
            *final(sheet),
        )[coordinate@].1 == sheet_cells(*old(sheet))[coordinate@].1,
{
    sheet.get_cell_mut(coordinate).set_value(value);
}

/// `Worksheet::get_style_mut` followed by `Style::set_background_color`: the
/// cell at `coordinate` (created empty if absent) gets a solid background of
/// colour `argb`, and keeps what it shows. No other cell changes.
#[verifier::external_body]
fn cell_set_background_color(sheet: &mut Worksheet, coordinate: &str, argb: &str)
    requires
        is_short_coordinate(coordinate@),
    ensures
        sheet_cells(*final(sheet)).dom() == sheet_cells(*old(sheet)).dom().insert(coordinate@),
        forall|c: Seq<char>|
            #![trigger sheet_cells(*final(sheet))[c]]
            sheet_cells(*old(sheet)).dom().contains(c) && c != coordinate@ ==> sheet_cells(
                *final(sheet),
            )[c] == sheet_cells(*old(sheet))[c],
        sheet_cells(*final(sheet))[coordinate@].1 == Some(argb@),
        sheet_cells(*old(sheet)).dom().contains(coordinate@) ==> sheet_cells(
            *final(sheet),
        )[coordinate@].0 == sheet_cells(*old(sheet))[coordinate@].0,
        !sheet_cells(*old(sheet)).dom().contains(coordinate@) ==> sheet_cells(
            *final(sheet),
        )[coordinate@].0 == Seq::<char>::empty(),
        sheet_fresh(*old(sheet)) ==> sheet_fresh(*final(sheet)),
{
    sheet.get_style_mut(coordinate).set_background_color(argb);
}

/// `umya_spreadsheet::Color::COLOR_BLUE`, the ARGB code of blue.
#[verifier::external_body]
fn color_blue() -> (argb: &'static str)
    ensures
        argb@ == "FF0000FF"@,
{
    umya_spreadsheet::Color::COLOR_BLUE
}

/// The signature that opens a zip archive whose first entry is a file.
pub open spec fn zip_signature() -> Seq<u8> {
    seq![0x50u8, 0x4Bu8, 0x03u8, 0x04u8]
}

/// The text that an archive shows for a cell that showed `text`: the same,
/// except that umya writes every error cell as `#VALUE!`.
pub open spec fn written_text(shown: Seq<char>, written: Seq<char>) -> bool {
    written == shown || (is_error_code(shown) && written == value_error_text())
}

/// Whether `written` holds what umya writes of the cells `cells`: a cell is
/// written unless it has neither a value nor a style, so every cell that
/// shows text or has a background is written; each written cell keeps its
/// background and its text, but for an error cell, which is written as
/// `#VALUE!`.
pub open spec fn writes_cells(cells: CellMap, written: CellMap) -> bool {
    &&& forall|c: Seq<char>|
        #![trigger written.dom().contains(c)]
        written.dom().contains(c) ==> cells.dom().contains(c) && written[c].1 == cells[c].1 && written_text(
            cells[c].0,
            written[c].0,
        )
    &&& forall|c: Seq<char>|
        #![trigger cells.dom().contains(c)]
        cells.dom().contains(c) && (cells[c].0.len() > 0 || cells[c].1 is Some) ==> written.dom().contains(c)
}

/// Whether `archive` holds what umya writes of the sheets `sheets`: the same
/// sheets, titles and order, each with its cells written.
pub open spec fn writes_sheets(sheets: Seq<(Seq<char>, CellMap)>, archive: Seq<(Seq<char>, CellMap)>) -> bool {
    &&& archive.len() == sheets.len()
    &&& forall|i: int|
        0 <= i < sheets.len() ==> #[trigger] archive[i].0 == sheets[i].0 && writes_cells(sheets[i].1, archive[i].1)
}

/// A sheet small enough that every part of its archive stays far below the
/// four gigabytes of a zip entry without the large-file option: a title of
/// at most 64 characters, at most 1024 cells, each with a short coordinate,
/// a text of at most 16384 characters and a short colour code.
pub open spec fn fits_sheet(sheet: (Seq<char>, CellMap)) -> bool {
    &&& sheet.0.len() <= 64
    &&& sheet.1.dom().finite()
    &&& sheet.1.dom().len() <= 1024
    &&& forall|c: Seq<char>|
        #[trigger] sheet.1.dom().contains(c) ==> c.len() <= 16 && sheet.1[c].0.len() <= 16384 && (
        sheet.1[c].1 matches Some(argb) ==> argb.len() <= 16)
}

/// At most sixteen sheets, each small (see `fits_sheet`).
pub open spec fn fits_archive(sheets: Seq<(Seq<char>, CellMap)>) -> bool {
    &&& sheets.len() <= 16
    &&& forall|i: int| 0 <= i < sheets.len() ==> #[trigger] fits_sheet(sheets[i])
}

/// `umya_spreadsheet::writer::xlsx::write_writer` into an empty in-memory
/// buffer, handing back the buffer. Writing into memory cannot fail; the
/// only refusal left is the zip writer's, for an entry of four gigabytes or
/// more, which a fresh workbook of small sheets cannot reach (every other
/// part umya writes of a fresh workbook has a fixed size). On success the
/// buffer is the zip archive that umya builds of the workbook: its sheets,
/// titles and cells are those of the workbook (cells with neither a value nor
/// a style left out, error cells written as `#VALUE!`), and its first entry
/// is a file, so it opens with the zip signature.
#[verifier::external_body]
fn write_xlsx(book: &Spreadsheet) -> (r: Result<Vec<u8>, XlsxError>)
    ensures
        workbook_fresh(*book) && fits_archive(workbook_sheets(*book)) ==> r is Ok,
        r matches Ok(bytes) ==> bytes@.len() >= 4 && bytes@.subrange(0, 4) == zip_signature(),
        r matches Ok(bytes) ==> writes_sheets(workbook_sheets(*book), xlsx_sheets(bytes@)),
{
    let mut buffer = std::io::Cursor::new(Vec::new());
    match umya_spreadsheet::writer::xlsx::write_writer(book, &mut buffer) {
        Ok(()) => Ok(buffer.into_inner()),
        Err(e) => Err(e),
    }
}

// ---------------------------------------------------------------------------
// The layout
// ---------------------------------------------------------------------------

/// The title of the one sheet of the workbook.
pub const SHEET_NAME: &'static str = "Unwritten";

/// The labels of column A, row by row.
pub open spec fn label_text(row: int) -> Seq<char> {
    if row == 1 {
        "Company Name"@
    } else if row == 2 {
        "Primary Sector"@
    } else if row == 3 {
        "Primary Country"@
    } else {
        "Total Revenue"@
    }
}

/// The submitted values of column B, row by row.
pub open spec fn value_text(inputs: Fundamentals, row: int) -> Seq<char> {
    if row == 1 {
        inputs.company_name@
    } else if row == 2 {
        inputs.primary_sector@
    } else if row == 3 {
        inputs.primary_country@
    } else {
        inputs.total_revenue@
    }
}

/// The digit that names row `row` (1 to 4).
pub open spec fn row_digit(row: int) -> char {
    if row == 1 {
        '1'
    } else if row == 2 {
        '2'
    } else if row == 3 {
        '3'
    } else {
        '4'
    }
}

/// The coordinate of column `col` ('A' or 'B') in row `row` (1 to 4).
pub open spec fn coordinate(col: char, row: int) -> Seq<char> {
    seq![col, row_digit(row)]
}

/// Submitted values of at most 15000 characters each.
pub open spec fn fields_fit(inputs: Fundamentals) -> bool {
    &&& inputs.company_name@.len() <= 15000
    &&& inputs.primary_sector@.len() <= 15000
    &&& inputs.primary_country@.len() <= 15000
    &&& inputs.total_revenue@.len() <= 15000
}

/// What the sheet shows once it is filled from `inputs`: labels in A1 to
/// A4, the typed readings of the submitted values in B1 to B4 (a value that
/// reads as itself shows as itself), and a blue background on A2 and on no
/// other cell.
pub open spec fn is_fundamentals_sheet(cells: CellMap, inputs: Fundamentals) -> bool {
    &&& cells.dom() =~= Set::new(
        |c: Seq<char>| exists|row: int| 1 <= row <= 4 && (c == coordinate('A', row) || c == coordinate('B', row)),
    )
    &&& forall|row: int| 1 <= row <= 4 ==> #[trigger] cells[coordinate('A', row)].0 == label_text(row)
    &&& forall|row: int|
        1 <= row <= 4 ==> #[trigger] cells[coordinate('B', row)].0 == typed_cell_text(
            value_text(inputs, row),
        )
    &&& forall|row: int|
        1 <= row <= 4 && shows_verbatim(value_text(inputs, row)) ==> #[trigger] cells[coordinate(
            'B',
            row,
        )].0 == value_text(inputs, row)
    &&& cells[coordinate('A', 2)].1 == Some("FF0000FF"@)
    &&& forall|c: Seq<char>| #[trigger] cells.dom().contains(c) && c != coordinate('A', 2) ==> cells[c].1 is None
}

/// What the written archive holds of the fundamentals sheet: the labels in
/// A1 to A4, a blue background on A2 and on no other cell, and in B1 to B4
/// the typed readings of the submitted values, each written unless it shows
/// no text (an error code is written as `#VALUE!`; a value that reads as
/// itself is written as itself), and no other cell.
pub open spec fn is_written_fundamentals_sheet(cells: CellMap, inputs: Fundamentals) -> bool {
    &&& forall|c: Seq<char>|
        #![trigger cells.dom().contains(c)]
        cells.dom().contains(c) ==> exists|row: int|
            1 <= row <= 4 && (c == coordinate('A', row) || c == coordinate('B', row))
    &&& forall|row: int| 1 <= row <= 4 ==> #[trigger] cells.dom().contains(coordinate('A', row))
    &&& forall|row: int| 1 <= row <= 4 ==> #[trigger] cells[coordinate('A', row)].0 == label_text(row)
    &&& forall|row: int|
        1 <= row <= 4 && cells.dom().contains(coordinate('B', row)) ==> written_text(
            typed_cell_text(value_text(inputs, row)),
            #[trigger] cells[coordinate('B', row)].0,
        )
    &&& forall|row: int|
        1 <= row <= 4 && typed_cell_text(value_text(inputs, row)).len() > 0 ==> #[trigger] cells.dom().contains(
            coordinate('B', row),
        )
    &&& forall|row: int|
        1 <= row <= 4 && shows_verbatim(value_text(inputs, row)) && cells.dom().contains(coordinate('B', row))
            ==> #[trigger] cells[coordinate('B', row)].0 == value_text(inputs, row)
    &&& cells.dom().contains(coordinate('A', 2))
    &&& cells[coordinate('A', 2)].1 == Some("FF0000FF"@)
    &&& forall|c: Seq<char>| #[trigger] cells.dom().contains(c) && c != coordinate('A', 2) ==> cells[c].1 is None
}

} // verus!

verus! {

/// The eight cells written one by one make up the fundamentals sheet.
proof fn lemma_fundamentals_sheet(cells: CellMap, inputs: Fundamentals)
    requires
        cells.dom() =~= set![
            coordinate('A', 1),
            coordinate('A', 2),
            coordinate('A', 3),
            coordinate('A', 4),
            coordinate('B', 1),
            coordinate('B', 2),
            coordinate('B', 3),
            coordinate('B', 4),
        ],
        forall|row: int| 1 <= row <= 4 ==> #[trigger] cells[coordinate('A', row)].0 == label_text(row),
        forall|row: int|
            1 <= row <= 4 ==> #[trigger] cells[coordinate('B', row)].0 == typed_cell_text(
                value_text(inputs, row),
            ),
        forall|row: int|
            1 <= row <= 4 && shows_verbatim(value_text(inputs, row)) ==> #[trigger] cells[coordinate(
                'B',
                row,
            )].0 == value_text(inputs, row),
        cells[coordinate('A', 2)].1 == Some("FF0000FF"@),
        forall|row: int| 1 <= row <= 4 && row != 2 ==> #[trigger] cells[coordinate('A', row)].1 is None,
        forall|row: int| 1 <= row <= 4 ==> #[trigger] cells[coordinate('B', row)].1 is None,
    ensures
        is_fundamentals_sheet(cells, inputs),
{
    let expected = Set::new(
        |c: Seq<char>| exists|row: int| 1 <= row <= 4 && (c == coordinate('A', row) || c == coordinate('B', row)),
    );
    assert forall|c: Seq<char>| expected.contains(c) implies cells.dom().contains(c) by {
        let row = choose|row: int| 1 <= row <= 4 && (c == coordinate('A', row) || c == coordinate('B', row));
        assert(row == 1 || row == 2 || row == 3 || row == 4);
    }
    assert forall|c: Seq<char>| cells.dom().contains(c) implies expected.contains(c) by {
        if c == coordinate('A', 1) || c == coordinate('B', 1) {
            assert(1 <= 1 <= 4);
        } else if c == coordinate('A', 2) || c == coordinate('B', 2) {
            assert(1 <= 2 <= 4);
        } else if c == coordinate('A', 3) || c == coordinate('B', 3) {
            assert(1 <= 3 <= 4);
        } else {
            assert(c == coordinate('A', 4) || c == coordinate('B', 4));
            assert(1 <= 4 <= 4);
        }
    }
}

/// The fundamentals sheet of values that fit is small.
proof fn lemma_fundamentals_sheet_fits(cells: CellMap, inputs: Fundamentals)
    requires
        cells.dom() =~= set![
            coordinate('A', 1),
            coordinate('A', 2),
            coordinate('A', 3),
            coordinate('A', 4),
            coordinate('B', 1),
            coordinate('B', 2),
            coordinate('B', 3),
            coordinate('B', 4),
        ],
        is_fundamentals_sheet(cells, inputs),
        forall|row: int|
            1 <= row <= 4 ==> #[trigger] cells[coordinate('B', row)].0.len() <= value_text(inputs, row).len() + 400,
        fields_fit(inputs),
    ensures
        fits_sheet(("Unwritten"@, cells)),
{
    reveal_strlit("Unwritten");
    reveal_strlit("FF0000FF");
    reveal_strlit("Company Name");
    reveal_strlit("Primary Sector");
    reveal_strlit("Primary Country");
    reveal_strlit("Total Revenue");
    let d = cells.dom();
    assert(d.finite());
    assert(d.len() <= 8);
    assert forall|c: Seq<char>| #[trigger] d.contains(c) implies c.len() <= 16 && cells[c].0.len() <= 16384 && (
    cells[c].1 matches Some(argb) ==> argb.len() <= 16) by {
        let row = if c == coordinate('A', 1) || c == coordinate('B', 1) {
            1int
        } else if c == coordinate('A', 2) || c == coordinate('B', 2) {
            2int
        } else if c == coordinate('A', 3) || c == coordinate('B', 3) {
            3int
        } else {
            4int
        };
        assert(cells[coordinate('A', row)].0 == label_text(row));
        assert(cells[coordinate('B', row)].0.len() <= value_text(inputs, row).len() + 400);
        if c != coordinate('A', 2) {
            assert(cells[c].1 is None);
        }
    }
}

/// Fills a new workbook from `inputs`: the default sheet is removed, a sheet
/// titled `Unwritten` is added, its column A gets the labels and column B the
/// submitted values, and the label cell of the primary sector gets a blue
/// background.
pub fn fundamentals_workbook(inputs: &Fundamentals) -> (book: Spreadsheet)
    ensures
        workbook_sheets(book).len() == 1,
        workbook_sheets(book)[0].0 == "Unwritten"@,
        is_fundamentals_sheet(workbook_sheets(book)[0].1, *inputs),
        workbook_fresh(book),
        fields_fit(*inputs) ==> fits_archive(workbook_sheets(book)),
{
    let mut book = new_file();
    let _ = remove_sheet(&mut book, 0);
    let _ = new_sheet(&mut book, SHEET_NAME);
    proof {
        reveal_strlit("Unwritten");
        reveal_strlit("Sheet1");
        reveal_strlit("A1");
        reveal_strlit("A2");
        reveal_strlit("A3");
        reveal_strlit("A4");
        reveal_strlit("B1");
        reveal_strlit("B2");
        reveal_strlit("B3");
        reveal_strlit("B4");
        reveal_strlit("Company Name");
        reveal_strlit("Primary Sector");
        reveal_strlit("Primary Country");
        reveal_strlit("Total Revenue");
        assert("Primary Sector"@[7] == ' ');
        assert("Primary Country"@[7] == ' ');
        assert("Total Revenue"@[5] == ' ');
        // Each label has a space in it, so it reads as itself.
        assert("Company Name"@[7] == ' ');
        lemma_single_sheet(workbook_sheets(book), "Unwritten"@);
    }
    match sheet_by_name_mut(&mut book, SHEET_NAME) {
        Some(sheet) => {
            cell_set_value(sheet, "A1", "Company Name");
            cell_set_value(sheet, "A2", "Primary Sector");
            cell_set_value(sheet, "A3", "Primary Country");
            cell_set_value(sheet, "A4", "Total Revenue");
            cell_set_value(sheet, "B1", inputs.company_name.as_str());
            cell_set_value(sheet, "B2", inputs.primary_sector.as_str());
            cell_set_value(sheet, "B3", inputs.primary_country.as_str());
            cell_set_value(sheet, "B4", inputs.total_revenue.as_str());
            assert("A1"@ =~= coordinate('A', 1));
            assert("A2"@ =~= coordinate('A', 2));
            assert("A3"@ =~= coordinate('A', 3));
            assert("A4"@ =~= coordinate('A', 4));
            assert("B1"@ =~= coordinate('B', 1));
            assert("B2"@ =~= coordinate('B', 2));
            assert("B3"@ =~= coordinate('B', 3));
            assert("B4"@ =~= coordinate('B', 4));
            assert forall|row: int| 1 <= row <= 4 implies #[trigger] sheet_cells(*sheet)[coordinate(
                'B',
                row,
            )].0.len() <= value_text(*inputs, row).len() + 400 by {
                assert(row == 1 || row == 2 || row == 3 || row == 4);
            }
        },
        None => {},
    }
    proof {
        lemma_single_sheet(workbook_sheets(book), "Unwritten"@);
    }
    // The sheet is there, so this lookup finds it.
    match sheet_by_name_mut(&mut book, SHEET_NAME) {
        Some(sheet) => {
            cell_set_background_color(sheet, "A2", color_blue());
        },
        None => {},
    }
    proof {
        let cells = workbook_sheets(book)[0].1;
        assert forall|row: int| 1 <= row <= 4 implies #[trigger] cells[coordinate('A', row)].0
            == label_text(row) by {
            assert(row == 1 || row == 2 || row == 3 || row == 4);
        }
        assert forall|row: int| 1 <= row <= 4 implies #[trigger] cells[coordinate('B', row)].0
            == typed_cell_text(value_text(*inputs, row)) by {
            assert(row == 1 || row == 2 || row == 3 || row == 4);
        }
        assert forall|row: int| 1 <= row <= 4 && shows_verbatim(value_text(*inputs, row)) implies
            #[trigger] cells[coordinate('B', row)].0 == value_text(*inputs, row) by {
            assert(row == 1 || row == 2 || row == 3 || row == 4);
        }
        lemma_fundamentals_sheet(cells, *inputs);
        if fields_fit(*inputs) {
            lemma_fundamentals_sheet_fits(cells, *inputs);
            assert(fits_sheet(workbook_sheets(book)[0]));
        }
    }
    book
}

} // verus!

verus! {

/// Why the workbook could not be handed out.
#[derive(Debug)]
pub enum WorkbookError {
    /// The xlsx writer failed.
    Write(XlsxError),
}

/// Hands on the bytes that the xlsx writer produced, or its failure as a
/// workbook error.
pub fn written_workbook(written: Result<Vec<u8>, XlsxError>) -> (r: Result<Vec<u8>, WorkbookError>)
    ensures
        written is Ok <==> r is Ok,
        written matches Ok(bytes) ==> r matches Ok(out) && out@ == bytes@,
        written matches Err(e) ==> r matches Err(WorkbookError::Write(inner)) && inner == e,
{
    match written {
        Ok(bytes) => Ok(bytes),
        Err(e) => Err(WorkbookError::Write(e)),
    }
}

/// No label is an error code.
proof fn lemma_labels_are_no_error_codes(row: int)
    requires
        1 <= row <= 4,
    ensures
        !is_error_code(label_text(row)),
        label_text(row).len() > 0,
{
    reveal_strlit("Company Name");
    reveal_strlit("Primary Sector");
    reveal_strlit("Primary Country");
    reveal_strlit("Total Revenue");
    if is_error_code(label_text(row)) {
        let k = choose|k: int| 0 <= k < 8 && error_codes()[k] == label_text(row);
        assert(label_text(row)[0] == '#');
    }
}

/// What umya writes of the fundamentals sheet is the written fundamentals
/// sheet.
proof fn lemma_written_fundamentals_sheet(cells: CellMap, written: CellMap, inputs: Fundamentals)
    requires
        is_fundamentals_sheet(cells, inputs),
        writes_cells(cells, written),
    ensures
        is_written_fundamentals_sheet(written, inputs),
{
    assert forall|c: Seq<char>| #[trigger] written.dom().contains(c) implies exists|row: int|
        1 <= row <= 4 && (c == coordinate('A', row) || c == coordinate('B', row)) by {
        assert(cells.dom().contains(c));
    }
    assert forall|row: int| 1 <= row <= 4 implies #[trigger] written.dom().contains(coordinate('A', row)) by {
        assert(cells.dom().contains(coordinate('A', row)));
        lemma_labels_are_no_error_codes(row);
    }
    assert forall|row: int| 1 <= row <= 4 implies #[trigger] written[coordinate('A', row)].0 == label_text(row) by {
        lemma_labels_are_no_error_codes(row);
        assert(cells.dom().contains(coordinate('A', row)));
        assert(written.dom().contains(coordinate('A', row)));
    }
    assert forall|row: int| 1 <= row <= 4 && typed_cell_text(value_text(inputs, row)).len() > 0 implies #[trigger] written.dom().contains(
        coordinate('B', row),
    ) by {
        assert(cells.dom().contains(coordinate('B', row)));
    }
    assert forall|row: int|
        1 <= row <= 4 && shows_verbatim(value_text(inputs, row)) && written.dom().contains(coordinate('B', row))
        implies #[trigger] written[coordinate('B', row)].0 == value_text(inputs, row) by {
        lemma_verbatim_is_no_error_code(value_text(inputs, row));
    }
    assert(cells.dom().contains(coordinate('A', 2)));
}

/// The xlsx file of the fundamentals workbook of `inputs` (see
/// `fundamentals_workbook`), as bytes. Writing succeeds for values of at most
/// 15000 characters each; the archive holds the one sheet `Unwritten` with
/// the labels, the submitted values and the blue A2.
pub fn spreadsheet_writer(inputs: &Fundamentals) -> (r: Result<Vec<u8>, WorkbookError>)
    ensures
        fields_fit(*inputs) ==> r is Ok,
        r matches Ok(bytes) ==> bytes@.len() >= 4 && bytes@.subrange(0, 4) == zip_signature(),
        r matches Ok(bytes) ==> xlsx_sheets(bytes@).len() == 1 && xlsx_sheets(bytes@)[0].0
            == "Unwritten"@ && is_written_fundamentals_sheet(xlsx_sheets(bytes@)[0].1, *inputs),
{
    let book = fundamentals_workbook(inputs);
    let written = write_xlsx(&book);
    proof {
        if let Ok(bytes) = &written {
            assert(xlsx_sheets(bytes@)[0].0 == workbook_sheets(book)[0].0);
            assert(writes_cells(workbook_sheets(book)[0].1, xlsx_sheets(bytes@)[0].1));
            lemma_written_fundamentals_sheet(
                workbook_sheets(book)[0].1,
                xlsx_sheets(bytes@)[0].1,
                *inputs,
            );
        }
    }
    written_workbook(written)
}

} // verus!

verus! {

/// The fundamentals sheet shows the record itself: A1 to A4 hold the four
/// labels, B1 to B4 hold the typed readings of the company name, primary
/// sector, primary country and total revenue, in that order, each shown as
/// given where it reads as itself (so whatever has a space in it), and A2 is
/// blue.
pub proof fn lemma_sheet_shows_the_record(cells: CellMap, inputs: Fundamentals)
    requires
        is_fundamentals_sheet(cells, inputs),
    ensures
        cells.dom().contains(seq!['B', '1']) && cells.dom().contains(seq!['B', '2'])
            && cells.dom().contains(seq!['B', '3']) && cells.dom().contains(seq!['B', '4']),
        cells[seq!['A', '1']].0 == "Company Name"@,
        cells[seq!['A', '2']].0 == "Primary Sector"@,
        cells[seq!['A', '3']].0 == "Primary Country"@,
        cells[seq!['A', '4']].0 == "Total Revenue"@,
        cells[seq!['A', '2']].1 == Some("FF0000FF"@),
        cells[seq!['B', '1']].0 == typed_cell_text(inputs.company_name@),
        cells[seq!['B', '2']].0 == typed_cell_text(inputs.primary_sector@),
        cells[seq!['B', '3']].0 == typed_cell_text(inputs.primary_country@),
        cells[seq!['B', '4']].0 == typed_cell_text(inputs.total_revenue@),
        shows_verbatim(inputs.company_name@) ==> cells[seq!['B', '1']].0 == inputs.company_name@,
        shows_verbatim(inputs.primary_sector@) ==> cells[seq!['B', '2']].0 == inputs.primary_sector@,
        shows_verbatim(inputs.primary_country@) ==> cells[seq!['B', '3']].0 == inputs.primary_country@,
        shows_verbatim(inputs.total_revenue@) ==> cells[seq!['B', '4']].0 == inputs.total_revenue@,
        inputs.primary_sector@.contains(' ') ==> cells[seq!['B', '2']].0 == inputs.primary_sector@,
{
    assert(coordinate('A', 1) =~= seq!['A', '1']);
    assert(coordinate('A', 2) =~= seq!['A', '2']);
    assert(coordinate('A', 3) =~= seq!['A', '3']);
    assert(coordinate('A', 4) =~= seq!['A', '4']);
    assert(coordinate('B', 1) =~= seq!['B', '1']);
    assert(coordinate('B', 2) =~= seq!['B', '2']);
    assert(coordinate('B', 3) =~= seq!['B', '3']);
    assert(coordinate('B', 4) =~= seq!['B', '4']);
    assert(cells[coordinate('A', 1)].0 == label_text(1));
    assert(cells[coordinate('A', 2)].0 == label_text(2));
    assert(cells[coordinate('A', 3)].0 == label_text(3));
    assert(cells[coordinate('A', 4)].0 == label_text(4));
    assert(cells[coordinate('B', 1)].0 == typed_cell_text(value_text(inputs, 1)));
    assert(cells[coordinate('B', 2)].0 == typed_cell_text(value_text(inputs, 2)));
    assert(cells[coordinate('B', 3)].0 == typed_cell_text(value_text(inputs, 3)));
    assert(cells[coordinate('B', 4)].0 == typed_cell_text(value_text(inputs, 4)));
    assert(exists|row: int| 1 <= row <= 4 && (coordinate('B', 1) == coordinate('A', row) || coordinate('B', 1) == coordinate('B', row))) by {
        assert(coordinate('B', 1) == coordinate('B', 1));
    }
    assert(exists|row: int| 1 <= row <= 4 && (coordinate('B', 2) == coordinate('A', row) || coordinate('B', 2) == coordinate('B', row))) by {
        assert(coordinate('B', 2) == coordinate('B', 2));
    }
    assert(exists|row: int| 1 <= row <= 4 && (coordinate('B', 3) == coordinate('A', row) || coordinate('B', 3) == coordinate('B', row))) by {
        assert(coordinate('B', 3) == coordinate('B', 3));
    }
    assert(exists|row: int| 1 <= row <= 4 && (coordinate('B', 4) == coordinate('A', row) || coordinate('B', 4) == coordinate('B', row))) by {
        assert(coordinate('B', 4) == coordinate('B', 4));
    }
    if shows_verbatim(inputs.company_name@) {
        assert(cells[coordinate('B', 1)].0 == value_text(inputs, 1));
    }
    if shows_verbatim(inputs.primary_sector@) {
        assert(cells[coordinate('B', 2)].0 == value_text(inputs, 2));
    }
    if shows_verbatim(inputs.primary_country@) {
        assert(cells[coordinate('B', 3)].0 == value_text(inputs, 3));
    }
    if shows_verbatim(inputs.total_revenue@) {
        assert(cells[coordinate('B', 4)].0 == value_text(inputs, 4));
    }
}

/// The written archive holds the record: A1 to A4 with the four labels, A2
/// blue, and B1 to B4 with the company name, primary sector, primary country
/// and total revenue, in that order: each field that shows any text is
/// written, shows its typed reading (an error code as `#VALUE!`), and shows
/// itself where it reads as itself.
pub proof fn lemma_archive_holds_the_record(cells: CellMap, inputs: Fundamentals)
    requires
        is_written_fundamentals_sheet(cells, inputs),
    ensures
        cells[seq!['A', '1']].0 == "Company Name"@,
        cells[seq!['A', '2']].0 == "Primary Sector"@,
        cells[seq!['A', '3']].0 == "Primary Country"@,
        cells[seq!['A', '4']].0 == "Total Revenue"@,
        cells[seq!['A', '2']].1 == Some("FF0000FF"@),
        typed_cell_text(inputs.company_name@).len() > 0 ==> cells.dom().contains(seq!['B', '1'])
            && written_text(typed_cell_text(inputs.company_name@), cells[seq!['B', '1']].0),
        typed_cell_text(inputs.primary_sector@).len() > 0 ==> cells.dom().contains(seq!['B', '2'])
            && written_text(typed_cell_text(inputs.primary_sector@), cells[seq!['B', '2']].0),
        typed_cell_text(inputs.primary_country@).len() > 0 ==> cells.dom().contains(seq!['B', '3'])
            && written_text(typed_cell_text(inputs.primary_country@), cells[seq!['B', '3']].0),
        typed_cell_text(inputs.total_revenue@).len() > 0 ==> cells.dom().contains(seq!['B', '4'])
            && written_text(typed_cell_text(inputs.total_revenue@), cells[seq!['B', '4']].0),
        shows_verbatim(inputs.company_name@) && cells.dom().contains(seq!['B', '1']) ==> cells[seq!['B', '1']].0
            == inputs.company_name@,
        shows_verbatim(inputs.primary_sector@) && cells.dom().contains(seq!['B', '2']) ==> cells[seq![
            'B',
            '2',
        ]].0 == inputs.primary_sector@,
        shows_verbatim(inputs.primary_country@) && cells.dom().contains(seq!['B', '3']) ==> cells[seq![
            'B',
            '3',
        ]].0 == inputs.primary_country@,
        shows_verbatim(inputs.total_revenue@) && cells.dom().contains(seq!['B', '4']) ==> cells[seq![
            'B',
            '4',
        ]].0 == inputs.total_revenue@,
{
    assert(coordinate('A', 1) =~= seq!['A', '1']);
    assert(coordinate('A', 2) =~= seq!['A', '2']);
    assert(coordinate('A', 3) =~= seq!['A', '3']);
    assert(coordinate('A', 4) =~= seq!['A', '4']);
    assert(coordinate('B', 1) =~= seq!['B', '1']);
    assert(coordinate('B', 2) =~= seq!['B', '2']);
    assert(coordinate('B', 3) =~= seq!['B', '3']);
    assert(coordinate('B', 4) =~= seq!['B', '4']);
    assert(cells[coordinate('A', 1)].0 == label_text(1));
    assert(cells[coordinate('A', 2)].0 == label_text(2));
    assert(cells[coordinate('A', 3)].0 == label_text(3));
    assert(cells[coordinate('A', 4)].0 == label_text(4));
    assert forall|row: int| 1 <= row <= 4 && typed_cell_text(value_text(inputs, row)).len() > 0 implies cells.dom().contains(
        coordinate('B', row),
    ) && written_text(typed_cell_text(value_text(inputs, row)), cells[coordinate('B', row)].0) by {
        assert(cells.dom().contains(coordinate('B', row)));
    }
    assert forall|row: int|
        1 <= row <= 4 && shows_verbatim(value_text(inputs, row)) && cells.dom().contains(coordinate('B', row))
        implies cells[coordinate('B', row)].0 == value_text(inputs, row) by {
        assert(cells[coordinate('B', row)].0 == value_text(inputs, row));
    }
    assert(value_text(inputs, 1) == inputs.company_name@);
    assert(value_text(inputs, 2) == inputs.primary_sector@);
    assert(value_text(inputs, 3) == inputs.primary_country@);
    assert(value_text(inputs, 4) == inputs.total_revenue@);
}

} // verus!
