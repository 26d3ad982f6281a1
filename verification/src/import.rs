//! The import of visitors and sales: one sheet per day, named after the
//! day, with one row per product.

use vstd::prelude::*;
use vstd::string::*;
use crate::pattern::{first_match, regex_first};
use crate::ledger::{sample_fits, Sample};
use crate::text::{
    all_digits, digit_value, has_part, integer_text, number_at, occurs_in, parse_i64,
};
use crate::types::{AeError, Failure};

verus! {

/// The day that a text of the form `YYYY-MM-DD` names, written as year *
/// 10000 + month * 100 + day of month; `None` for every other text.
pub open spec fn day_number(text: Seq<char>) -> Option<int> {
    if text.len() == 10 && text[4] == '-' && text[7] == '-' && all_digits(text, 0, 4)
        && all_digits(text, 5, 7) && all_digits(text, 8, 10) {
        Some(number_at(text, 0, 4) * 10000 + number_at(text, 5, 7) * 100 + number_at(text, 8, 10))
    } else {
        None
    }
}

/// Reads the digits of `text` from `from` up to `to`.
pub fn read_digits(text: &str, from: usize, to: usize) -> (number: Option<i32>)
    requires
        from <= to <= text@.len(),
        to - from <= 4,
    ensures
        match number {
            Some(n) => all_digits(text@, from as int, to as int) && n == number_at(
                text@,
                from as int,
                to as int,
            ) && 0 <= n <= 9999,
            None => !all_digits(text@, from as int, to as int),
        },
{
    let mut number: i32 = 0;
    let mut bound: i32 = 0;
    let mut i: usize = from;
    while i < to
        invariant
            from <= i <= to <= text@.len(),
            to - from <= 4,
            all_digits(text@, from as int, i as int),
            number == number_at(text@, from as int, i as int),
            0 <= number <= bound,
            i - from == 0 ==> bound == 0,
            i - from == 1 ==> bound == 9,
            i - from == 2 ==> bound == 99,
            i - from == 3 ==> bound == 999,
            i - from == 4 ==> bound == 9999,
        decreases to - i,
    {
        let c = text.get_char(i);
        if c < '0' || c > '9' {
            assert(digit_value(text@[i as int]).is_none());
            return None;
        }
        let value = (c as u32 - '0' as u32) as i32;
        assert(digit_value(c) == Some(value as int));
        number = number * 10 + value;
        bound = bound * 10 + 9;
        i += 1;
    }
    Some(number)
}

/// Reads a day of the form `YYYY-MM-DD`.
pub fn day_of(text: &str) -> (day: Option<i32>)
    ensures
        match day {
            Some(number) => day_number(text@) == Some(number as int),
            None => day_number(text@).is_none(),
        },
{
    if text.unicode_len() != 10 {
        return None;
    }
    if text.get_char(4) != '-' || text.get_char(7) != '-' {
        return None;
    }
    let year = match read_digits(text, 0, 4) {
        Some(year) => year,
        None => {
            return None;
        },
    };
    let month = match read_digits(text, 5, 7) {
        Some(month) => month,
        None => {
            return None;
        },
    };
    let date = match read_digits(text, 8, 10) {
        Some(date) => date,
        None => {
            return None;
        },
    };
    proof {
        lemma_two_digits(text@, 5);
        lemma_two_digits(text@, 8);
    }
    Some(year * 10000 + month * 100 + date)
}

/// Two digits write a number below 100.
pub proof fn lemma_two_digits(text: Seq<char>, from: int)
    requires
        0 <= from,
        from + 2 <= text.len(),
        all_digits(text, from, from + 2),
    ensures
        0 <= number_at(text, from, from + 2) <= 99,
{
    reveal_with_fuel(number_at, 3);
    assert(digit_value(text[from]).is_some());
    assert(digit_value(text[from + 1]).is_some());
}

/// The day in the name of an imported file: the first run of the form
/// `YYYY-MM-DD` that the name holds, as `day_number` reads it.
pub open spec fn day_in(file_name: Seq<char>) -> Option<int> {
    match regex_first("\\d{4}-\\d{2}-\\d{2}"@, file_name) {
        Some(Some(date)) => day_number(date),
        _ => None,
    }
}

/// Finds the day in the name of an imported file. A name without a date is
/// refused.
pub fn date_in(file_name: &str) -> (result: Result<i32, AeError>)
    ensures
        match result {
            Ok(day) => day_in(file_name@) == Some(day as int),
            Err(e) => day_in(file_name@).is_none() && e == AeError(Failure::NoDate),
        },
{
    match first_match("\\d{4}-\\d{2}-\\d{2}", file_name) {
        Some(Some(date)) => match day_of(date.as_str()) {
            Some(day) => Ok(day),
            None => Err(AeError(Failure::NoDate)),
        },
        _ => Err(AeError(Failure::NoDate)),
    }
}

/// The column titles by which the sheet's columns are told: each a list of
/// accepted titles, every title between two bars.
#[derive(Debug)]
pub struct Titles {
    pub product_id: String,
    pub visitors: String,
    pub sales: String,
}

impl Titles {
    /// The titles that the settings give: what they name, and the sheet's
    /// usual titles for what they do not.
    pub fn from_settings(
        product_id: Option<String>,
        visitors: Option<String>,
        sales: Option<String>,
    ) -> (titles: Titles)
        ensures
            titles.product_id@ == match product_id {
                Some(named) => named@,
                None => "|商品ID|"@,
            },
            titles.visitors@ == match visitors {
                Some(named) => named@,
                None => "|访客数|"@,
            },
            titles.sales@ == match sales {
                Some(named) => named@,
                None => "|支付商品件数|"@,
            },
    {
        Titles {
            product_id: match product_id {
                Some(named) => named,
                None => String::from_str("|商品ID|"),
            },
            visitors: match visitors {
                Some(named) => named,
                None => String::from_str("|访客数|"),
            },
            sales: match sales {
                Some(named) => named,
                None => String::from_str("|支付商品件数|"),
            },
        }
    }
}

/// The columns that hold the product id, the visitors and the sales.
#[derive(Clone, Copy, Debug, PartialEq, Eq, Structural)]
pub struct Columns {
    pub product_id: usize,
    pub visitors: usize,
    pub sales: usize,
}

/// The figures of one product on the sheet.
#[derive(Clone, Copy, Debug, PartialEq, Eq, Structural)]
pub struct ImportRow {
    pub product_id: i64,
    pub visitors: i64,
    pub sales: i64,
}

/// A title between two bars.
pub open spec fn barred(title: Seq<char>) -> Seq<char> {
    seq!['|'] + title + seq!['|']
}

/// The columns after the title cell `cell` of the column `at` was read:
/// a title that the product ids accept makes it their column, else one that
/// the visitors accept makes it theirs, else one that the sales accept makes
/// it theirs; a cell without text changes nothing.
pub open spec fn with_title(
    columns: Columns,
    cell: Option<Seq<char>>,
    at: int,
    product_id: Seq<char>,
    visitors: Seq<char>,
    sales: Seq<char>,
) -> Columns {
    match cell {
        None => columns,
        Some(title) => if occurs_in(product_id, barred(title)) {
            Columns { product_id: at as usize, ..columns }
        } else if occurs_in(visitors, barred(title)) {
            Columns { visitors: at as usize, ..columns }
        } else if occurs_in(sales, barred(title)) {
            Columns { sales: at as usize, ..columns }
        } else {
            columns
        },
    }
}

/// The text of each cell.
pub open spec fn cells_of(cells: Seq<Option<String>>) -> Seq<Option<Seq<char>>> {
    Seq::new(
        cells.len(),
        |i: int|
            match cells[i] {
                Some(text) => Some(text@),
                None => None,
            },
    )
}

/// The columns that a header row names: for each role the last column
/// whose title it accepts, and the first column where it accepts none.
pub open spec fn roles(
    header: Seq<Option<Seq<char>>>,
    product_id: Seq<char>,
    visitors: Seq<char>,
    sales: Seq<char>,
) -> Columns
    decreases header.len(),
{
    if header.len() == 0 {
        Columns { product_id: 0, visitors: 0, sales: 0 }
    } else {
        with_title(
            roles(header.drop_last(), product_id, visitors, sales),
            header.last(),
            header.len() - 1,
            product_id,
            visitors,
            sales,
        )
    }
}

/// Tells the columns from the header row of a sheet.
pub fn column_roles(header: &Vec<Option<String>>, titles: &Titles) -> (columns: Columns)
    ensures
        columns == roles(
            cells_of(header@),
            titles.product_id@,
            titles.visitors@,
            titles.sales@,
        ),
{
    let ghost cells = cells_of(header@);
    let mut columns = Columns { product_id: 0, visitors: 0, sales: 0 };
    let mut j: usize = 0;
    while j < header.len()
        invariant
            j <= header.len(),
            cells == cells_of(header@),
            columns == roles(
                cells.take(j as int),
                titles.product_id@,
                titles.visitors@,
                titles.sales@,
            ),
        decreases header.len() - j,
    {
        proof {
            assert(cells.take(j + 1).drop_last() =~= cells.take(j as int));
            assert(cells.take(j + 1).last() == cells[j as int]);
        }
        match &header[j] {
            Some(title) => {
                proof {
                    reveal_strlit("|");
                }
                let mut marked = String::from_str("|");
                marked.append(title.as_str());
                marked.append("|");
                assert(marked@ =~= barred(title@));
                if has_part(titles.product_id.as_str(), marked.as_str()) {
                    columns.product_id = j;
                } else if has_part(titles.visitors.as_str(), marked.as_str()) {
                    columns.visitors = j;
                } else if has_part(titles.sales.as_str(), marked.as_str()) {
                    columns.sales = j;
                }
            },
            None => {},
        }
        j += 1;
    }
    proof {
        assert(cells.take(j as int) =~= cells);
    }
    columns
}

/// The figure in the cell `at` of a row: the integer that its text writes,
/// and 0 for a cell that is missing, holds no text or writes no integer.
pub open spec fn figure(row: Seq<Option<Seq<char>>>, at: int) -> int {
    if 0 <= at < row.len() {
        match row[at] {
            Some(text) => integer_text(text).unwrap_or(0),
            None => 0,
        }
    } else {
        0
    }
}

/// Reads the figure in one cell of a row.
pub fn read_figure(row: &Vec<Option<String>>, at: usize) -> (number: i64)
    ensures
        number == figure(cells_of(row@), at as int),
{
    if at < row.len() {
        match &row[at] {
            Some(text) => match parse_i64(text.as_str()) {
                Some(number) => number,
                None => 0,
            },
            None => 0,
        }
    } else {
        0
    }
}

/// Reads the figures of one product from a row of the sheet.
pub fn read_row(row: &Vec<Option<String>>, columns: &Columns) -> (read: ImportRow)
    ensures
        read.product_id == figure(cells_of(row@), columns.product_id as int),
        read.visitors == figure(cells_of(row@), columns.visitors as int),
        read.sales == figure(cells_of(row@), columns.sales as int),
{
    ImportRow {
        product_id: read_figure(row, columns.product_id),
        visitors: read_figure(row, columns.visitors),
        sales: read_figure(row, columns.sales),
    }
}

/// `at` is the index of the last row of the product, or -1 where the sheet
/// has none.
pub open spec fn last_row_at(rows: Seq<ImportRow>, product_id: int, at: int) -> bool {
    &&& -1 <= at < rows.len()
    &&& at >= 0 ==> rows[at].product_id == product_id
    &&& forall|j: int| at < j < rows.len() ==> (#[trigger] rows[j]).product_id != product_id
}

/// Index of the last row of the product; -1 where the sheet has none.
pub open spec fn last_row(rows: Seq<ImportRow>, product_id: int) -> int {
    choose|at: int| last_row_at(rows, product_id, at)
}

/// There is exactly one last row.
pub proof fn lemma_last_row(rows: Seq<ImportRow>, product_id: int, at: int)
    requires
        last_row_at(rows, product_id, at),
    ensures
        last_row(rows, product_id) == at,
{
    let chosen = last_row(rows, product_id);
    assert(last_row_at(rows, product_id, chosen));
    if chosen < at {
        assert(rows[at].product_id != product_id);
    } else if at < chosen {
        assert(rows[chosen].product_id != product_id);
    }
}

/// The figures of a product on the day of the sheet: those of its last row,
/// and no visitors and no sales where the sheet has no row for it.
pub open spec fn figures_for(rows: Seq<ImportRow>, product_id: int, day: i32) -> Sample {
    let at = last_row(rows, product_id);
    if 0 <= at < rows.len() {
        Sample { date: day, count: rows[at].sales, visitors: rows[at].visitors }
    } else {
        Sample { date: day, count: 0, visitors: 0 }
    }
}

/// Makes the day's sample of a product from the rows of the sheet. `None`
/// where a figure is beyond what a sample holds.
pub fn sample_for(rows: &Vec<ImportRow>, product_id: i64, day: i32) -> (made: Option<Sample>)
    ensures
        made == if sample_fits(figures_for(rows@, product_id as int, day)) {
            Some(figures_for(rows@, product_id as int, day))
        } else {
            None
        },
{
    let mut i: usize = rows.len();
    while i > 0
        invariant
            i <= rows.len(),
            forall|j: int| i <= j < rows.len() ==> (#[trigger] rows@[j]).product_id != product_id,
        decreases i,
    {
        i -= 1;
        if rows[i].product_id == product_id {
            proof {
                lemma_last_row(rows@, product_id as int, i as int);
            }
            return Sample::new(day, rows[i].sales, rows[i].visitors);
        }
    }
    proof {
        lemma_last_row(rows@, product_id as int, -1);
    }
    Sample::new(day, 0, 0)
}

} // verus!
