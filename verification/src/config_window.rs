//! Decisions of the configuration window: how its rows are ordered, where
//! the window goes and which filter is selected.

use vstd::prelude::*;
use vstd::string::*;
use crate::nwg_ext::WindowPlacement;
use crate::settings::ConfigWindowInfo;

verus! {

/// The group of the rows that show open windows.
pub const GROUP_WINDOWS: i32 = 1;

/// The group of the rows that show filters.
pub const GROUP_FILTERS: i32 = 2;

/// The column with the position of a window.
pub const COLUMN_WINDOWS_INDEX: usize = 0;

/// The column with the position of a filter.
pub const COLUMN_FILTERS_INDEX: usize = 4;

/// The smallest size of the window.
pub const MIN_WIDTH: i32 = 300;

pub const MIN_HEIGHT: i32 = 1025;

/// The arrow in the header of a column that the rows are sorted by.
#[derive(Clone, Copy, PartialEq, Eq, Structural, Debug)]
pub enum SortArrow {
    Up,
    Down,
}

/// The arrow of a column after a click on its header.
///
/// A column without an arrow gets the arrow down, and a click turns the
/// arrow round. The first column goes from up back to no arrow, which leaves
/// the rows in the order in which they were found.
pub open spec fn spec_next_arrow(current: Option<SortArrow>, column_index: usize) -> Option<SortArrow> {
    match current {
        Some(SortArrow::Up) => if column_index == COLUMN_WINDOWS_INDEX {
            None
        } else {
            Some(SortArrow::Down)
        },
        Some(SortArrow::Down) => Some(SortArrow::Up),
        None => Some(SortArrow::Down),
    }
}

/// The arrow of a column after a click on its header.
pub fn next_arrow(current: Option<SortArrow>, column_index: usize) -> (r: Option<SortArrow>)
    ensures
        r == spec_next_arrow(current, column_index),
{
    match current {
        Some(SortArrow::Up) => if column_index == COLUMN_WINDOWS_INDEX {
            None
        } else {
            Some(SortArrow::Down)
        },
        Some(SortArrow::Down) => Some(SortArrow::Up),
        None => Some(SortArrow::Down),
    }
}

/// The column that the rows are sorted by and its arrow, given the arrows of
/// all columns: the first column that has one.
pub fn get_sort_info(arrows: &Vec<Option<SortArrow>>) -> (r: (Option<usize>, Option<SortArrow>))
    ensures
        match r.0 {
            Some(ix) => ix < arrows@.len() && arrows@[ix as int].is_some() && r.1 == arrows@[ix as int]
                && forall|j: int| 0 <= j < ix ==> arrows@[j].is_none(),
            None => r.1.is_none() && forall|j: int| 0 <= j < arrows@.len() ==> arrows@[j].is_none(),
        },
{
    let mut ix: usize = 0;
    while ix < arrows.len()
        invariant
            ix <= arrows@.len(),
            forall|j: int| 0 <= j < ix ==> arrows@[j].is_none(),
        decreases arrows@.len() - ix,
    {
        if arrows[ix].is_some() {
            return (Some(ix), arrows[ix]);
        }
        ix = ix + 1;
    }
    (None, None)
}

/// How one row stands to another.
#[derive(Clone, Copy, PartialEq, Eq, Structural, Debug)]
pub enum RowOrder {
    Less,
    Equal,
    Greater,
}

impl RowOrder {
    /// The order the other way round.
    pub fn reverse(self) -> (r: Self)
        ensures
            r == match self {
                RowOrder::Less => RowOrder::Greater,
                RowOrder::Equal => RowOrder::Equal,
                RowOrder::Greater => RowOrder::Less,
            },
    {
        match self {
            RowOrder::Less => RowOrder::Greater,
            RowOrder::Equal => RowOrder::Equal,
            RowOrder::Greater => RowOrder::Less,
        }
    }
}

/// How the number `a` stands to the number `b`.
pub open spec fn int_order(a: int, b: int) -> RowOrder {
    if a < b {
        RowOrder::Less
    } else if a == b {
        RowOrder::Equal
    } else {
        RowOrder::Greater
    }
}

/// How the text `a` stands to the text `b`: the first character that
/// differs decides, and a text comes before every text that it begins.
pub open spec fn text_order(a: Seq<char>, b: Seq<char>) -> RowOrder
    decreases a.len(),
{
    if a.len() == 0 {
        if b.len() == 0 {
            RowOrder::Equal
        } else {
            RowOrder::Less
        }
    } else if b.len() == 0 {
        RowOrder::Greater
    } else if (a[0] as u32) < (b[0] as u32) {
        RowOrder::Less
    } else if (a[0] as u32) > (b[0] as u32) {
        RowOrder::Greater
    } else {
        text_order(a.drop_first(), b.drop_first())
    }
}

/// How the text `a` stands to the text `b`.
pub fn compare_text(a: &str, b: &str) -> (r: RowOrder)
    ensures
        r == text_order(a@, b@),
{
    let a_len = a.unicode_len();
    let b_len = b.unicode_len();
    let mut ix: usize = 0;
    proof {
        assert(a@.skip(0) =~= a@);
        assert(b@.skip(0) =~= b@);
    }
    while ix < a_len && ix < b_len
        invariant
            ix <= a_len,
            ix <= b_len,
            a_len == a@.len(),
            b_len == b@.len(),
            text_order(a@, b@) == text_order(a@.skip(ix as int), b@.skip(ix as int)),
        decreases a_len - ix,
    {
        let x: u32 = a.get_char(ix) as u32;
        let y: u32 = b.get_char(ix) as u32;
        proof {
            assert(a@.skip(ix as int)[0] == a@[ix as int]);
            assert(b@.skip(ix as int)[0] == b@[ix as int]);
            assert(a@.skip(ix as int).drop_first() =~= a@.skip(ix + 1));
            assert(b@.skip(ix as int).drop_first() =~= b@.skip(ix + 1));
        }
        if x < y {
            return RowOrder::Less;
        }
        if x > y {
            return RowOrder::Greater;
        }
        ix = ix + 1;
    }
    if ix < b_len {
        RowOrder::Less
    } else if ix < a_len {
        RowOrder::Greater
    } else {
        RowOrder::Equal
    }
}

/// Whether `c` is a decimal digit.
pub open spec fn is_digit(c: char) -> bool {
    '0' as u32 <= c as u32 <= '9' as u32
}

/// The value of a text that is made of decimal digits, and `None` for every
/// other text.
pub open spec fn digits_value(s: Seq<char>) -> Option<nat>
    decreases s.len(),
{
    if s.len() == 0 {
        None
    } else if !is_digit(s.last()) {
        None
    } else if s.len() == 1 {
        Some((s.last() as u32 - '0' as u32) as nat)
    } else {
        match digits_value(s.drop_last()) {
            Some(v) => Some((v * 10 + (s.last() as u32 - '0' as u32)) as nat),
            None => None,
        }
    }
}

/// The 64 bit number that a text stands for: decimal digits, with a `+` or
/// a `-` in front if one likes. Every other text, and every number that is
/// no 64 bit number, gives `None`.
pub open spec fn spec_parse_i64(s: Seq<char>) -> Option<i64> {
    if s.len() == 0 {
        None
    } else {
        let negative = s[0] == '-';
        let digits = if s[0] == '-' || s[0] == '+' {
            s.drop_first()
        } else {
            s
        };
        match digits_value(digits) {
            Some(v) => {
                let signed = if negative {
                    -(v as int)
                } else {
                    v as int
                };
                if i64::MIN <= signed <= i64::MAX {
                    Some(signed as i64)
                } else {
                    None
                }
            },
            None => None,
        }
    }
}

/// The value of digits grows with every digit that follows them.
proof fn lemma_digits_grow(s: Seq<char>, n: int)
    requires
        0 < n <= s.len(),
        digits_value(s).is_some(),
    ensures
        digits_value(s.take(n)).is_some(),
        digits_value(s.take(n)).unwrap() <= digits_value(s).unwrap(),
    decreases s.len(),
{
    if n == s.len() {
        assert(s.take(n) =~= s);
    } else {
        assert(s.drop_last().take(n) =~= s.take(n));
        lemma_digits_grow(s.drop_last(), n);
    }
}

/// A text with something else than digits in it has no value.
proof fn lemma_digits_need_digits(s: Seq<char>, ix: int)
    requires
        0 <= ix < s.len(),
        !is_digit(s[ix]),
    ensures
        digits_value(s).is_none(),
    decreases s.len(),
{
    if ix < s.len() - 1 {
        lemma_digits_need_digits(s.drop_last(), ix);
    }
}

/// The 64 bit number that a text stands for.
pub fn parse_i64(text: &str) -> (r: Option<i64>)
    ensures
        r == spec_parse_i64(text@),
{
    let len = text.unicode_len();
    if len == 0 {
        return None;
    }
    let first = text.get_char(0);
    let negative = first == '-';
    let start: usize = if first == '-' || first == '+' {
        1
    } else {
        0
    };
    let ghost digits = text@.skip(start as int);
    proof {
        if start == 1 {
            assert(digits =~= text@.drop_first());
        } else {
            assert(digits =~= text@);
        }
    }
    if start == len {
        return None;
    }
    // The value so far never leaves the range of the numbers that can still
    // turn out to be a 64 bit number.
    let limit: u64 = 0x8000_0000_0000_0000;
    let mut value: u64 = 0;
    let mut ix: usize = start;
    while ix < len
        invariant
            start <= ix <= len,
            start < len,
            len == text@.len(),
            negative == (text@[0] == '-'),
            digits == if text@[0] == '-' || text@[0] == '+' {
                text@.drop_first()
            } else {
                text@
            },
            digits == text@.skip(start as int),
            limit == 0x8000_0000_0000_0000,
            value <= limit,
            ix > start ==> digits_value(digits.take(ix - start)) == Some(value as nat),
            ix == start ==> value == 0,
        decreases len - ix,
    {
        let c = text.get_char(ix);
        let code: u32 = c as u32;
        proof {
            assert(digits[ix - start] == c);
        }
        if code < 48 || code > 57 {
            proof {
                lemma_digits_need_digits(digits, ix - start);
            }
            return None;
        }
        let d: u64 = (code - 48) as u64;
        let ghost so_far = digits.take(ix - start + 1);
        proof {
            assert(so_far.last() == c);
            assert(so_far.drop_last() =~= digits.take(ix - start));
            assert(is_digit(c));
        }
        if value > (limit - d) / 10 {
            // One more digit takes the value out of range for good.
            proof {
                assert(value * 10 + d > limit) by (nonlinear_arith)
                    requires
                        value > (limit - d) / 10,
                        d < 10,
                        limit == 0x8000_0000_0000_0000,
                ;
                if digits_value(digits).is_some() {
                    lemma_digits_grow(digits, ix - start + 1);
                    if ix > start {
                        assert(digits_value(so_far) == Some((value * 10 + d) as nat));
                    } else {
                        assert(value == 0);
                    }
                }
            }
            return None;
        }
        proof {
            assert(value * 10 + d <= limit) by (nonlinear_arith)
                requires
                    value <= (limit - d) / 10,
                    d < 10,
                    limit == 0x8000_0000_0000_0000,
            ;
            if ix > start {
                assert(digits_value(so_far) == Some((value * 10 + d) as nat));
            } else {
                assert(so_far.len() == 1);
                assert(digits_value(so_far) == Some(d as nat));
            }
        }
        value = value * 10 + d;
        ix = ix + 1;
    }
    proof {
        assert(digits.take(len - start) =~= digits);
    }
    if negative {
        if value == limit {
            Some(i64::MIN)
        } else {
            Some(-(value as i64))
        }
    } else if value == limit {
        None
    } else {
        Some(value as i64)
    }
}

/// How the cell `a` stands to the cell `b`: as numbers if both are numbers,
/// as texts otherwise.
pub open spec fn cell_order(a: Seq<char>, b: Seq<char>) -> RowOrder {
    match (spec_parse_i64(a), spec_parse_i64(b)) {
        (Some(x), Some(y)) => int_order(x as int, y as int),
        _ => text_order(a, b),
    }
}

/// How the cell `a` stands to the cell `b`.
pub fn compare_cells(a: &str, b: &str) -> (r: RowOrder)
    ensures
        r == cell_order(a@, b@),
{
    match parse_i64(a) {
        Some(x) => match parse_i64(b) {
            Some(y) => {
                if x < y {
                    RowOrder::Less
                } else if x == y {
                    RowOrder::Equal
                } else {
                    RowOrder::Greater
                }
            },
            None => compare_text(a, b),
        },
        None => compare_text(a, b),
    }
}

/// What is known about a row when rows are sorted.
pub struct RowKey {
    /// The group that the row belongs to.
    pub group: i32,
    /// The text of the row in the column that the rows are sorted by, if
    /// there is such a column and the text could be read.
    pub cell: Option<String>,
    /// The text of the row in the column that decides between rows that are
    /// equal otherwise, if it could be read.
    pub fallback: Option<String>,
}

/// The column that decides between rows of the group `group` that are equal
/// otherwise: the position of the window or of the filter. For a row of
/// neither group it is the column that the rows are sorted by, or the first
/// column.
pub fn fallback_column(group: i32, column_index: Option<usize>) -> (r: usize)
    ensures
        r == if group == GROUP_FILTERS {
            COLUMN_FILTERS_INDEX
        } else if group == GROUP_WINDOWS {
            COLUMN_WINDOWS_INDEX
        } else {
            match column_index {
                Some(ix) => ix,
                None => 0,
            }
        },
{
    if group == GROUP_FILTERS {
        COLUMN_FILTERS_INDEX
    } else if group == GROUP_WINDOWS {
        COLUMN_WINDOWS_INDEX
    } else {
        match column_index {
            Some(ix) => ix,
            None => 0,
        }
    }
}

/// How two cells stand to each other of which one or both may be
/// unreadable: an unreadable cell comes last.
pub open spec fn optional_order(a: Option<Seq<char>>, b: Option<Seq<char>>) -> RowOrder {
    match (a, b) {
        (Some(x), Some(y)) => cell_order(x, y),
        (None, Some(_)) => RowOrder::Greater,
        (Some(_), None) => RowOrder::Less,
        (None, None) => RowOrder::Equal,
    }
}

/// The text of a cell, if it could be read.
pub open spec fn cell_text(cell: Option<String>) -> Option<Seq<char>> {
    match cell {
        Some(s) => Some(s@),
        None => None,
    }
}

/// How the row `a` stands to the row `b`.
///
/// Rows are sorted by group first. Within a group the column with the arrow
/// decides, the other way round if the arrow points up. Where that column
/// does not decide, or no column has an arrow, the fallback column does,
/// always in its own direction. A row with an unreadable cell goes last,
/// whatever the arrow says.
pub open spec fn spec_compare_rows(a: RowKey, b: RowKey, sorted: bool, arrow: Option<SortArrow>) -> RowOrder {
    if a.group != b.group {
        int_order(a.group as int, b.group as int)
    } else {
        let by_fallback = optional_order(cell_text(a.fallback), cell_text(b.fallback));
        if !sorted {
            by_fallback
        } else if a.cell.is_none() || b.cell.is_none() {
            optional_order(cell_text(a.cell), cell_text(b.cell))
        } else {
            let by_cell = cell_order(a.cell.unwrap()@, b.cell.unwrap()@);
            if by_cell != RowOrder::Equal {
                if arrow == Some(SortArrow::Up) {
                    match by_cell {
                        RowOrder::Less => RowOrder::Greater,
                        RowOrder::Equal => RowOrder::Equal,
                        RowOrder::Greater => RowOrder::Less,
                    }
                } else {
                    by_cell
                }
            } else {
                by_fallback
            }
        }
    }
}

/// How two cells stand to each other of which one or both may be
/// unreadable.
pub fn compare_optional(a: &Option<String>, b: &Option<String>) -> (r: RowOrder)
    ensures
        r == optional_order(cell_text(*a), cell_text(*b)),
{
    match a {
        Some(x) => match b {
            Some(y) => compare_cells(x.as_str(), y.as_str()),
            None => RowOrder::Less,
        },
        None => match b {
            Some(_) => RowOrder::Greater,
            None => RowOrder::Equal,
        },
    }
}

/// How the row `a` stands to the row `b`. `sorted` says whether a column has
/// an arrow.
pub fn compare_rows(a: &RowKey, b: &RowKey, sorted: bool, arrow: Option<SortArrow>) -> (r: RowOrder)
    ensures
        r == spec_compare_rows(*a, *b, sorted, arrow),
{
    if a.group < b.group {
        return RowOrder::Less;
    }
    if a.group > b.group {
        return RowOrder::Greater;
    }
    if !sorted {
        return compare_optional(&a.fallback, &b.fallback);
    }
    if a.cell.is_none() || b.cell.is_none() {
        return compare_optional(&a.cell, &b.cell);
    }
    let by_cell = compare_optional(&a.cell, &b.cell);
    if by_cell != RowOrder::Equal {
        match arrow {
            Some(SortArrow::Up) => by_cell.reverse(),
            _ => by_cell,
        }
    } else {
        compare_optional(&a.fallback, &b.fallback)
    }
}

/// The filter that is selected, given the number in the selection box: the
/// box counts from one, and anything below means that none is selected.
pub fn get_selected_filter_index(value: i64) -> (r: Option<usize>)
    ensures
        r == if value < 1 {
            None
        } else {
            Some((value - 1) as usize)
        },
{
    if value < 1 {
        None
    } else {
        Some((value - 1) as usize)
    }
}

/// The number to show in the selection box for the selected filter.
pub fn selection_value(index: Option<usize>) -> (r: i64)
    ensures
        r == match index {
            Some(ix) => (ix + 1) as i64,
            None => 0,
        },
{
    match index {
        Some(ix) => (ix as u128 + 1) as i64,
        None => 0,
    }
}

/// The larger of two numbers.
pub open spec fn spec_max(a: int, b: int) -> int {
    if a >= b {
        a
    } else {
        b
    }
}

/// The size to create the window with: the size that was saved, but not
/// below the smallest size.
pub fn create_window_with_size(saved: ConfigWindowInfo) -> (r: (i32, i32))
    ensures
        r.0 == spec_max(saved.size.0 as i32 as int, MIN_WIDTH as int),
        r.1 == spec_max(saved.size.1 as i32 as int, MIN_HEIGHT as int),
{
    let width: i32 = saved.size.0 as i32;
    let height: i32 = saved.size.1 as i32;
    (
        if width >= MIN_WIDTH {
            width
        } else {
            MIN_WIDTH
        },
        if height >= MIN_HEIGHT {
            height
        } else {
            MIN_HEIGHT
        },
    )
}

/// The position to create the window at: where it was saved, or a place near
/// the corner of the screen.
pub fn create_window_with_position(saved: Option<ConfigWindowInfo>) -> (r: (i32, i32))
    ensures
        r == match saved {
            Some(ConfigWindowInfo { position: Some(p), .. }) => p,
            _ => (300i32, 300i32),
        },
{
    match saved {
        Some(info) => match info.position {
            Some(p) => p,
            None => (300, 300),
        },
        None => (300, 300),
    }
}

/// What to remember about the window after it was moved or resized.
///
/// Nothing changes for a minimized window. A maximized window is remembered
/// as maximized, with the place and the size that it had before.
pub open spec fn spec_save_position_and_size(
    previous: ConfigWindowInfo,
    placement: WindowPlacement,
    position: (i32, i32),
    size: (u32, u32),
) -> ConfigWindowInfo {
    match placement {
        WindowPlacement::Minimized => previous,
        WindowPlacement::Maximized => ConfigWindowInfo { maximized: true, ..previous },
        WindowPlacement::Normal => ConfigWindowInfo {
            position: Some(position),
            size,
            maximized: false,
        },
    }
}

/// What to remember about the window after it was moved or resized.
pub fn save_position_and_size(
    previous: ConfigWindowInfo,
    placement: WindowPlacement,
    position: (i32, i32),
    size: (u32, u32),
) -> (r: ConfigWindowInfo)
    ensures
        r == spec_save_position_and_size(previous, placement, position, size),
{
    match placement {
        WindowPlacement::Minimized => previous,
        WindowPlacement::Maximized => ConfigWindowInfo {
            position: previous.position,
            size: previous.size,
            maximized: true,
        },
        WindowPlacement::Normal => ConfigWindowInfo {
            position: Some(position),
            size,
            maximized: false,
        },
    }
}

/// Whether the window has to be rebuilt: it was asked to open and is
/// closed. An open window stays as it is.
pub fn need_rebuild(open_soon: bool, is_closed: bool) -> (r: bool)
    ensures
        r == (open_soon && is_closed),
{
    open_soon && is_closed
}

/// What a request to configure filters does to the window.
#[derive(Clone, Copy, PartialEq, Eq, Structural, Debug)]
pub enum ConfigureAction {
    /// Open the window at the next rebuild.
    OpenSoon,
    /// Bring the open window to the front.
    SetAsForeground,
    /// Close the open window.
    Close,
}

/// What a request to configure filters does: a closed window is opened, and
/// an open one is brought to the front if `refocus` and closed otherwise.
pub fn configure_filters(is_closed: bool, refocus: bool) -> (r: ConfigureAction)
    ensures
        r == if is_closed {
            ConfigureAction::OpenSoon
        } else if refocus {
            ConfigureAction::SetAsForeground
        } else {
            ConfigureAction::Close
        },
{
    if is_closed {
        ConfigureAction::OpenSoon
    } else if refocus {
        ConfigureAction::SetAsForeground
    } else {
        ConfigureAction::Close
    }
}


} // verus!
