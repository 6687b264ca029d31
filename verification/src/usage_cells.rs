//! The cells of a row of the Hermes state database, and what the importer
//! reads out of them.

use crate::binary64::Binary64;
use crate::money::Money;
use crate::numeral::{decimal, decimal_text, i64_value, lemma_decimal_reads_back};
use crate::outside::{
    decimal_from_scientific, decimal_from_str, lossy_text, parse_decimal, parse_scientific,
    utf8_lossy,
};
use crate::text::{same_text, trim, trimmed, views};
use vstd::prelude::*;

verus! {

/// A count since the epoch that is greater than this is taken for
/// milliseconds.
pub const MILLIS_FROM: u64 = 1000000000000;

/// Up to this one, whole numbers are exact in double precision.
pub const EXACT_UP_TO: u64 = 9007199254740992;

/// Below this, the whole part of a double's thousandth is the same in double
/// precision as it is exactly.
pub const EXACT_THOUSANDTH_BELOW: i64 = 72057594037927936;

/// A floating-point number together with the whole part of a thousandth of
/// it.
#[derive(Clone, Copy, Debug, PartialEq, Eq)]
pub struct CellNumber {
    pub value: Binary64,
    /// The number divided by a thousand in double precision, without its
    /// fractional part.
    pub thousandth: i64,
}

/// One cell of a database row.
#[derive(Debug)]
pub enum Cell {
    /// Nothing, or nothing that can be read.
    Null,
    Integer {
        value: i64,
        /// The number divided by a thousand in double precision, without its
        /// fractional part.
        thousandth: i64,
    },
    Real {
        number: CellNumber,
        /// The number in the shortest decimal notation that reads back.
        text: String,
    },
    Text {
        bytes: Vec<u8>,
        /// The number that the text stands for, if it is one.
        parsed: Option<CellNumber>,
    },
    Blob,
}

impl CellNumber {
    /// The thousandth goes with the number: for a positive one it lies between
    /// zero and the number.
    pub open spec fn wf(self) -> bool {
        self.value.finite() && self.value.positive() ==> 0 <= self.thousandth
            <= self.value.whole()
    }
}

impl Cell {
    /// The thousandth of a number in the cell goes with the number.
    pub open spec fn wf(self) -> bool {
        match self {
            Cell::Integer { value, thousandth } => value > 0 ==> 0 <= thousandth <= value,
            Cell::Real { number, text: _ } => number.wf(),
            Cell::Text { bytes: _, parsed: Some(number) } => number.wf(),
            _ => true,
        }
    }
}

/// Whether all cells of a row are valid.
pub open spec fn valid_cells(row: Seq<Cell>) -> bool {
    forall|i: int| 0 <= i < row.len() ==> (#[trigger] row[i]).wf()
}

/// The first position of a name.
pub open spec fn first_index(names: Seq<Seq<char>>, name: Seq<char>) -> Option<int>
    decreases names.len(),
{
    if names.len() == 0 {
        None
    } else if names[0] == name {
        Some(0)
    } else {
        match first_index(names.drop_first(), name) {
            Some(i) => Some(i + 1),
            None => None,
        }
    }
}

/// The position of a column among the names of a result set: the table must
/// have the column.
pub open spec fn column(names: Seq<String>, cols: Seq<String>, name: Seq<char>) -> Option<int> {
    if views(cols).contains(name) {
        first_index(views(names), name)
    } else {
        None
    }
}

/// The cell of a column.
pub open spec fn cell(
    row: Seq<Cell>,
    names: Seq<String>,
    cols: Seq<String>,
    name: Seq<char>,
) -> Option<Cell> {
    match column(names, cols, name) {
        Some(i) if i < row.len() => Some(row[i]),
        _ => None,
    }
}

/// A cell as text.
pub open spec fn text_value(c: Option<Cell>) -> Seq<char> {
    match c {
        Some(Cell::Text { bytes, parsed: _ }) => trimmed(lossy_text(bytes@)),
        Some(Cell::Integer { value, thousandth: _ }) => decimal(value as int),
        Some(Cell::Real { number: _, text }) => text@,
        _ => Seq::empty(),
    }
}

/// The whole part of a finite number, zero for any other.
pub open spec fn finite_whole(n: CellNumber) -> int {
    if n.value.finite() {
        n.value.whole()
    } else {
        0
    }
}

/// A cell as a whole number.
pub open spec fn whole_value(c: Option<Cell>) -> int {
    match c {
        Some(Cell::Integer { value, thousandth: _ }) => value as int,
        Some(Cell::Real { number, text: _ }) => finite_whole(number),
        Some(Cell::Text { bytes: _, parsed: Some(number) }) => finite_whole(number),
        _ => 0,
    }
}

/// A cell as a count of tokens.
pub open spec fn count_value(c: Option<Cell>) -> int {
    let n = whole_value(c);
    if n < 0 {
        0
    } else if n > u32::MAX {
        u32::MAX as int
    } else {
        n
    }
}

/// The text in which a cell states an amount.
pub open spec fn amount_text(c: Option<Cell>) -> Option<Seq<char>> {
    match c {
        Some(Cell::Real { number, text }) if number.value.finite() && number.value.positive() => Some(
            text@,
        ),
        Some(Cell::Integer { value, thousandth: _ }) if value > 0 => Some(decimal(value as int)),
        Some(Cell::Text { bytes, parsed: _ }) => Some(lossy_text(bytes@)),
        _ => None,
    }
}

/// The amount that a text stands for: in plain notation, else in scientific.
pub open spec fn read_amount(text: Seq<char>) -> Option<Money> {
    match decimal_from_str(text) {
        Some(m) => Some(m),
        None => decimal_from_scientific(text),
    }
}

/// The amount itself if it is positive, nothing otherwise.
pub open spec fn positive_amount(m: Option<Money>) -> Money {
    match m {
        Some(m) if m.positive() => m,
        _ => Money::nothing(),
    }
}

/// A cell as an amount of money.
pub open spec fn amount_value(c: Option<Cell>) -> Money {
    match amount_text(c) {
        Some(text) => positive_amount(read_amount(trimmed(text))),
        None => Money::nothing(),
    }
}

/// A floating-point count since the epoch as whole seconds.
pub open spec fn number_secs(n: CellNumber) -> Option<int> {
    if !n.value.finite() || !n.value.positive() {
        None
    } else if !n.value.magnitude_exceeds(MILLIS_FROM as nat) {
        Some(n.value.whole())
    } else if n.value.whole() < EXACT_THOUSANDTH_BELOW {
        Some(n.value.whole() / 1000)
    } else {
        Some(n.thousandth as int)
    }
}

/// A cell as a point in time, in whole seconds since the epoch.
pub open spec fn secs_value(c: Option<Cell>) -> Option<int> {
    match c {
        Some(Cell::Real { number, text: _ }) => number_secs(number),
        Some(Cell::Integer { value, thousandth }) if value > 0 => Some(
            if value <= MILLIS_FROM {
                value as int
            } else if value <= EXACT_UP_TO {
                value as int / 1000
            } else {
                thousandth as int
            },
        ),
        Some(Cell::Text { bytes: _, parsed: Some(number) }) => number_secs(number),
        _ => None,
    }
}

/// Whether a list of names holds a name.
pub fn has_name(names: &Vec<String>, name: &str) -> (r: bool)
    ensures
        r == views(names@).contains(name@),
{
    let mut i: usize = 0;
    while i < names.len()
        invariant
            i <= names@.len(),
            forall|j: int| 0 <= j < i ==> views(names@)[j] != name@,
        decreases names.len() - i,
    {
        if same_text(names[i].as_str(), name) {
            assert(views(names@)[i as int] == name@);
            return true;
        }
        i += 1;
    }
    false
}

proof fn lemma_first_index(names: Seq<Seq<char>>, name: Seq<char>, i: int)
    requires
        0 <= i <= names.len(),
        forall|j: int| 0 <= j < i ==> names[j] != name,
        i < names.len() ==> names[i] == name,
    ensures
        first_index(names, name) == if i < names.len() {
            Some(i)
        } else {
            None
        },
    decreases names.len(),
{
    if i > 0 {
        assert forall|j: int| 0 <= j < i - 1 implies names.drop_first()[j] != name by {
            assert(names.drop_first()[j] == names[j + 1]);
        }
        lemma_first_index(names.drop_first(), name, i - 1);
    }
}

proof fn lemma_first_index_is_not_negative(names: Seq<Seq<char>>, name: Seq<char>)
    ensures
        first_index(names, name) matches Some(i) ==> 0 <= i < names.len(),
    decreases names.len(),
{
    if names.len() > 0 && names[0] != name {
        lemma_first_index_is_not_negative(names.drop_first(), name);
    }
}

/// The position of a column among the names of a result set: the table must
/// have the column.
pub fn column_index(names: &Vec<String>, cols: &Vec<String>, name: &str) -> (r: Option<usize>)
    ensures
        match r {
            Some(i) => column(names@, cols@, name@) == Some(i as int) && i < names@.len(),
            None => column(names@, cols@, name@) is None,
        },
{
    if !has_name(cols, name) {
        return None;
    }
    let mut i: usize = 0;
    while i < names.len()
        invariant
            i <= names@.len(),
            views(cols@).contains(name@),
            forall|j: int| 0 <= j < i ==> views(names@)[j] != name@,
        decreases names.len() - i,
    {
        if same_text(names[i].as_str(), name) {
            proof {
                lemma_first_index(views(names@), name@, i as int);
            }
            return Some(i);
        }
        i += 1;
    }
    proof {
        lemma_first_index(views(names@), name@, i as int);
    }
    None
}

/// The cell of a column.
fn find_cell<'a>(
    row: &'a Vec<Cell>,
    names: &Vec<String>,
    cols: &Vec<String>,
    name: &str,
) -> (r: Option<&'a Cell>)
    ensures
        match r {
            Some(c) => cell(row@, names@, cols@, name@) == Some(*c),
            None => cell(row@, names@, cols@, name@) is None,
        },
{
    match column_index(names, cols, name) {
        Some(i) => if i < row.len() {
            Some(&row[i])
        } else {
            None
        },
        None => None,
    }
}

/// The cell of a column as text.
pub fn cell_string(
    row: &Vec<Cell>,
    names: &Vec<String>,
    cols: &Vec<String>,
    name: &str,
) -> (r: String)
    ensures
        r@ == text_value(cell(row@, names@, cols@, name@)),
{
    match find_cell(row, names, cols, name) {
        Some(Cell::Text { bytes, parsed: _ }) => {
            let text: String = utf8_lossy(bytes.as_slice());
            trim(text.as_str())
        },
        Some(Cell::Integer { value, thousandth: _ }) => decimal_text(*value),
        Some(Cell::Real { number: _, text }) => text.clone(),
        _ => String::new(),
    }
}

fn whole_of(n: &CellNumber) -> (r: i64)
    ensures
        r == finite_whole(*n),
{
    if n.value.is_finite() {
        n.value.to_whole()
    } else {
        0
    }
}

/// The cell of a column as a whole number.
pub fn cell_i64(
    row: &Vec<Cell>,
    names: &Vec<String>,
    cols: &Vec<String>,
    name: &str,
) -> (r: i64)
    ensures
        r == whole_value(cell(row@, names@, cols@, name@)),
{
    match find_cell(row, names, cols, name) {
        Some(Cell::Integer { value, thousandth: _ }) => *value,
        Some(Cell::Real { number, text: _ }) => whole_of(number),
        Some(Cell::Text { bytes: _, parsed: Some(number) }) => whole_of(number),
        _ => 0,
    }
}

/// The cell of a column as a count of tokens.
pub fn cell_u32(
    row: &Vec<Cell>,
    names: &Vec<String>,
    cols: &Vec<String>,
    name: &str,
) -> (r: u32)
    ensures
        r == count_value(cell(row@, names@, cols@, name@)),
{
    let n: i64 = cell_i64(row, names, cols, name);
    if n < 0 {
        0
    } else if n > u32::MAX as i64 {
        u32::MAX
    } else {
        n as u32
    }
}

/// The amount that a text stands for, if it is positive; nothing otherwise.
pub fn parse_amount(text: &str) -> (r: Money)
    ensures
        r == positive_amount(read_amount(text@)),
        r.wf(),
{
    let read: Option<Money> = match parse_decimal(text) {
        Some(m) => Some(m),
        None => parse_scientific(text),
    };
    positive_or_nothing(read)
}

/// The amount that was read, if it is positive; nothing otherwise.
pub fn positive_or_nothing(read: Option<Money>) -> (r: Money)
    ensures
        r == positive_amount(read),
        read matches Some(m) && m.wf() ==> r.wf(),
        read is None ==> r.wf(),
{
    match read {
        Some(m) => if m.is_positive() {
            m
        } else {
            Money::zero()
        },
        None => Money::zero(),
    }
}

/// The cell of a column as an amount of money.
pub fn cell_decimal(
    row: &Vec<Cell>,
    names: &Vec<String>,
    cols: &Vec<String>,
    name: &str,
) -> (r: Money)
    ensures
        r == amount_value(cell(row@, names@, cols@, name@)),
        r.wf(),
{
    let raw: String = match find_cell(row, names, cols, name) {
        Some(Cell::Real { number, text }) => {
            if !(number.value.is_finite() && number.value.is_positive()) {
                return Money::zero();
            }
            text.clone()
        },
        Some(Cell::Integer { value, thousandth: _ }) => {
            if *value <= 0 {
                return Money::zero();
            }
            decimal_text(*value)
        },
        Some(Cell::Text { bytes, parsed: _ }) => utf8_lossy(bytes.as_slice()),
        _ => {
            return Money::zero();
        },
    };
    let text: String = trim(raw.as_str());
    parse_amount(text.as_str())
}

fn secs_of(n: &CellNumber) -> (r: Option<i64>)
    ensures
        match r {
            Some(s) => number_secs(*n) == Some(s as int),
            None => number_secs(*n) is None,
        },
{
    if !n.value.is_finite() || !n.value.is_positive() {
        None
    } else {
        let whole: i64 = n.value.to_whole();
        if !n.value.exceeds(MILLIS_FROM) {
            Some(whole)
        } else if whole < EXACT_THOUSANDTH_BELOW {
            Some(whole / 1000)
        } else {
            Some(n.thousandth)
        }
    }
}

/// The cell of a column as a point in time, in whole seconds since the epoch.
pub fn cell_unix_secs(
    row: &Vec<Cell>,
    names: &Vec<String>,
    cols: &Vec<String>,
    name: &str,
) -> (r: Option<i64>)
    ensures
        match r {
            Some(s) => {
                &&& secs_value(cell(row@, names@, cols@, name@)) == Some(s as int)
                &&& valid_cells(row@) ==> s >= 0
            },
            None => secs_value(cell(row@, names@, cols@, name@)) is None,
        },
{
    proof {
        if let Some(i) = column(names@, cols@, name@) {
            lemma_first_index_is_not_negative(views(names@), name@);
        }
    }
    match find_cell(row, names, cols, name) {
        Some(Cell::Real { number, text: _ }) => secs_of(number),
        Some(Cell::Integer { value, thousandth }) => {
            if *value <= 0 {
                None
            } else if *value as u64 <= MILLIS_FROM {
                Some(*value)
            } else if *value as u64 <= EXACT_UP_TO {
                Some(*value / 1000)
            } else {
                Some(*thousandth)
            }
        },
        Some(Cell::Text { bytes: _, parsed: Some(number) }) => secs_of(number),
        _ => None,
    }
}

/// Whether the table has the column, and the column stands at position `k` of
/// the result set.
pub open spec fn stands_at(
    names: Seq<String>,
    cols: Seq<String>,
    name: Seq<char>,
    k: int,
) -> bool {
    &&& 0 <= k < names.len()
    &&& names[k]@ == name
    &&& forall|j: int| 0 <= j < k ==> (#[trigger] names[j])@ != name
    &&& exists|c: int| 0 <= c < cols.len() && (#[trigger] cols[c])@ == name
}

/// Whether the table lacks the column, or the result set does.
pub open spec fn stands_nowhere(names: Seq<String>, cols: Seq<String>, name: Seq<char>) -> bool {
    ||| forall|j: int| 0 <= j < names.len() ==> (#[trigger] names[j])@ != name
    ||| forall|c: int| 0 <= c < cols.len() ==> (#[trigger] cols[c])@ != name
}

/// The cell of a column is the one at the position of the column in the result
/// set.
pub proof fn law_cells_are_found_by_name(
    row: Seq<Cell>,
    names: Seq<String>,
    cols: Seq<String>,
    name: Seq<char>,
    k: int,
)
    requires
        stands_at(names, cols, name, k),
        k < row.len(),
    ensures
        cell(row, names, cols, name) == Some(row[k]),
{
    let c = choose|c: int| 0 <= c < cols.len() && (#[trigger] cols[c])@ == name;
    assert(views(cols)[c] == name);
    assert forall|j: int| 0 <= j < k implies views(names)[j] != name by {
        assert(names[j]@ != name);
    }
    lemma_first_index(views(names), name, k);
}

/// A column that is not there has no cell.
pub proof fn law_missing_columns_have_no_cell(
    row: Seq<Cell>,
    names: Seq<String>,
    cols: Seq<String>,
    name: Seq<char>,
)
    requires
        stands_nowhere(names, cols, name),
    ensures
        cell(row, names, cols, name) is None,
{
    if views(cols).contains(name) {
        let c = choose|c: int| 0 <= c < views(cols).len() && views(cols)[c] == name;
        assert(cols[c]@ == name);
        assert forall|j: int| 0 <= j < names.len() implies views(names)[j] != name by {
            assert(names[j]@ != name);
        }
        lemma_first_index(views(names), name, names.len() as int);
    }
}

/// A cell as text: a text without the white space around it, a whole number in
/// the notation that reads back, any other number as it is written; nothing
/// else has a text.
pub proof fn law_cells_as_text(c: Cell)
    ensures
        c matches Cell::Text { bytes, parsed: _ } ==> text_value(Some(c)) == trimmed(
            lossy_text(bytes@),
        ),
        c matches Cell::Integer { value, thousandth: _ } ==> i64_value(text_value(Some(c)))
            == Some(value),
        c matches Cell::Real { number: _, text } ==> text_value(Some(c)) == text@,
        c is Null || c is Blob ==> text_value(Some(c)).len() == 0,
        text_value(None).len() == 0,
{
    if let Cell::Integer { value, thousandth: _ } = c {
        lemma_decimal_reads_back(value);
    }
}

/// A count of tokens is the whole part of the number in the cell as long as
/// that is one that fits 32 bits; it is cut off at either end, and what is no
/// finite number counts as zero.
pub proof fn law_cells_as_counts(c: Cell, n: int)
    requires
        match c {
            Cell::Integer { value, thousandth: _ } => n == value,
            Cell::Real { number, text: _ } => n == if number.value.finite() {
                number.value.whole()
            } else {
                0
            },
            Cell::Text { bytes: _, parsed: Some(number) } => n == if number.value.finite() {
                number.value.whole()
            } else {
                0
            },
            _ => n == 0,
        },
    ensures
        whole_value(Some(c)) == n,
        0 <= n <= 4_294_967_295 ==> count_value(Some(c)) == n,
        n < 0 ==> count_value(Some(c)) == 0,
        n > 4_294_967_295 ==> count_value(Some(c)) == 4_294_967_295,
        count_value(None) == 0,
{
}

/// A text states the amount that it reads as in plain notation, or else in
/// scientific notation; an amount that is not positive, and a text that is no
/// number, state nothing.
pub proof fn law_texts_as_amounts(text: Seq<char>)
    ensures
        decimal_from_str(text) matches Some(m) && m.mantissa > 0 ==> positive_amount(
            read_amount(text),
        ) == decimal_from_str(text)->0,
        decimal_from_str(text) matches Some(m) && m.mantissa <= 0 ==> positive_amount(
            read_amount(text),
        ).mantissa == 0,
        decimal_from_str(text) is None ==> {
            &&& (decimal_from_scientific(text) matches Some(m) && m.mantissa > 0)
                ==> positive_amount(read_amount(text)) == decimal_from_scientific(text)->0
            &&& !(decimal_from_scientific(text) matches Some(m) && m.mantissa > 0)
                ==> positive_amount(read_amount(text)).mantissa == 0
        },
{
}

/// A cell states the amount of its text, without the white space around it; a
/// number that is not positive and finite states nothing, nor does a cell that
/// holds neither a number nor a text.
pub proof fn law_cells_as_amounts(c: Cell)
    ensures
        c matches Cell::Text { bytes, parsed: _ } ==> amount_value(Some(c)) == positive_amount(
            read_amount(trimmed(lossy_text(bytes@))),
        ),
        c matches Cell::Integer { value, thousandth: _ } ==> if value > 0 {
            amount_value(Some(c)) == positive_amount(read_amount(trimmed(decimal(value as int))))
        } else {
            amount_value(Some(c)).mantissa == 0
        },
        c matches Cell::Real { number, text } ==> if number.value.finite()
            && number.value.positive() {
            amount_value(Some(c)) == positive_amount(read_amount(trimmed(text@)))
        } else {
            amount_value(Some(c)).mantissa == 0
        },
        c is Null || c is Blob ==> amount_value(Some(c)).mantissa == 0,
        amount_value(None).mantissa == 0,
        amount_value(Some(c)).mantissa >= 0,
{
}

/// A whole number up to a million million counts seconds; a greater one counts
/// milliseconds, of which the full seconds are taken as long as they are exact
/// in double precision. What is not positive is no time.
pub proof fn law_whole_numbers_as_times(value: i64, thousandth: i64)
    ensures
        ({
            let secs = secs_value(Some(Cell::Integer { value, thousandth }));
            &&& secs is Some <==> value > 0
            &&& 0 < value <= 1_000_000_000_000 ==> secs == Some(value as int)
            &&& 1_000_000_000_000 < value <= 9_007_199_254_740_992 ==> 1000 * secs->0 <= value
                < 1000 * (secs->0 + 1)
            &&& value > 9_007_199_254_740_992 ==> secs == Some(thousandth as int)
        }),
{
}

/// The same for other numbers, in a cell of their own or in a text: only a
/// finite one is a time, and only its whole part counts.
pub proof fn law_other_numbers_as_times(number: CellNumber, text: String, bytes: Vec<u8>)
    ensures
        ({
            let secs = secs_value(Some(Cell::Real { number, text }));
            let x = number.value;
            &&& secs is Some <==> x.finite() && x.positive()
            &&& secs is Some && !x.magnitude_exceeds(1_000_000_000_000) ==> secs == Some(x.whole())
            &&& secs is Some && x.magnitude_exceeds(1_000_000_000_000) && x.whole()
                < 72_057_594_037_927_936 ==> 1000 * secs->0 <= x.whole() < 1000 * (secs->0 + 1)
            &&& secs is Some && x.magnitude_exceeds(1_000_000_000_000) && x.whole()
                >= 72_057_594_037_927_936 ==> secs == Some(number.thousandth as int)
            &&& secs_value(Some(Cell::Text { bytes, parsed: Some(number) })) == secs
            &&& secs_value(Some(Cell::Text { bytes, parsed: None })) is None
            &&& secs_value(Some(Cell::Null)) is None
            &&& secs_value(Some(Cell::Blob)) is None
            &&& secs_value(None) is None
        }),
{
}

} // verus!
