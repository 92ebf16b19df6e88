//! The text in which the user writes down shortcuts for desktops: one
//! shortcut on each line, made of the keys to press and the one-based number
//! of the desktop, in any order.

use vstd::prelude::*;
use vstd::string::*;
use crate::config_window::{digits_value, is_digit};

verus! {

/// A shortcut: the keys to press, and the desktop to go to.
#[derive(Clone, PartialEq, Eq, Debug)]
pub struct QuickShortcut {
    pub key: Vec<char>,
    pub target: u32,
}

/// Whether `line` holds a carriage return.
pub open spec fn has_cr(line: Seq<char>) -> bool
    decreases line.len(),
{
    line.len() > 0 && (line.last() == '\r' || has_cr(line.drop_last()))
}

/// Whether `line` holds a carriage return with something else behind it: the
/// user wrote between the two characters that end a line.
pub open spec fn has_inner_cr(line: Seq<char>) -> bool
    decreases line.len(),
{
    line.len() > 0 && (has_inner_cr(line.drop_last()) || (line.last() != '\r' && has_cr(
        line.drop_last(),
    )))
}

/// Whether `line` holds anything but carriage returns.
pub open spec fn has_content(line: Seq<char>) -> bool
    decreases line.len(),
{
    line.len() > 0 && (line.last() != '\r' || has_content(line.drop_last()))
}

/// The keys of a line: its characters but for digits and carriage returns,
/// in their order.
pub open spec fn key_of(line: Seq<char>) -> Seq<char>
    decreases line.len(),
{
    if line.len() == 0 {
        Seq::empty()
    } else if line.last() == '\r' || is_digit(line.last()) {
        key_of(line.drop_last())
    } else {
        key_of(line.drop_last()).push(line.last())
    }
}

/// The digits of a line, in their order.
pub open spec fn digits_of(line: Seq<char>) -> Seq<char>
    decreases line.len(),
{
    if line.len() == 0 {
        Seq::empty()
    } else if is_digit(line.last()) {
        digits_of(line.drop_last()).push(line.last())
    } else {
        digits_of(line.drop_last())
    }
}

/// The desktop that digits stand for, and whether the digits are good.
///
/// No digits and digits beyond a signed 64 bit number are bad and stand for
/// 0. Digits beyond an unsigned 32 bit number are bad and stand for the
/// largest such number.
pub open spec fn target_of(digits: Seq<char>) -> (u32, bool) {
    match digits_value(digits) {
        Some(v) => if v > i64::MAX {
            (0u32, false)
        } else if v > u32::MAX {
            (u32::MAX, false)
        } else {
            (v as u32, true)
        },
        None => (0u32, false),
    }
}

/// The shortcut that a line stands for. A line of nothing but carriage
/// returns stands for none.
pub open spec fn line_entry(line: Seq<char>) -> Option<(Seq<char>, u32)> {
    if has_content(line) {
        Some((key_of(line), target_of(digits_of(line)).0))
    } else {
        None
    }
}

/// Whether something is wrong with a line, so that the text has to be
/// written anew from what was understood.
pub open spec fn line_invalid(line: Seq<char>) -> bool {
    has_inner_cr(line) || (has_content(line) && !target_of(digits_of(line)).1)
}

/// The end of the line that begins at `start`: the position of the next line
/// feed, or the end of the text.
pub open spec fn line_end(text: Seq<char>, start: int) -> int
    decreases text.len() - start,
{
    if start < 0 || start >= text.len() {
        text.len() as int
    } else if text[start] == '\n' {
        start
    } else {
        line_end(text, start + 1)
    }
}

/// The shortcuts of the lines from the one that begins at `start` on, in
/// their order.
pub open spec fn entries_from(text: Seq<char>, start: int) -> Seq<(Seq<char>, u32)>
    decreases text.len() - start,
{
    if start < 0 || start > text.len() {
        Seq::empty()
    } else {
        let end = line_end(text, start);
        let rest = if start <= end < text.len() {
            entries_from(text, end + 1)
        } else {
            Seq::empty()
        };
        match line_entry(text.subrange(start, end)) {
            Some(entry) => seq![entry] + rest,
            None => rest,
        }
    }
}

/// Whether something is wrong with a line from the one that begins at
/// `start` on.
pub open spec fn invalid_from(text: Seq<char>, start: int) -> bool
    decreases text.len() - start,
{
    if start < 0 || start > text.len() {
        false
    } else {
        let end = line_end(text, start);
        line_invalid(text.subrange(start, end)) || (start <= end < text.len() && invalid_from(
            text,
            end + 1,
        ))
    }
}

/// The shortcuts as plain values.
pub open spec fn entries_view(shortcuts: Seq<QuickShortcut>) -> Seq<(Seq<char>, u32)> {
    Seq::new(shortcuts.len(), |i: int| (shortcuts[i].key@, shortcuts[i].target))
}

/// The end of a line lies between its beginning and the end of the text, and
/// there is no line feed before it.
pub proof fn lemma_line_end(text: Seq<char>, start: int)
    requires
        0 <= start <= text.len(),
    ensures
        start <= line_end(text, start) <= text.len(),
        forall|i: int| start <= i < line_end(text, start) ==> text[i] != '\n',
        line_end(text, start) < text.len() ==> text[line_end(text, start)] == '\n',
    decreases text.len() - start,
{
    if start < text.len() && text[start] != '\n' {
        lemma_line_end(text, start + 1);
    }
}

/// The shortcuts that the text holds, in the order of their lines, and
/// whether something is wrong with a line.
///
/// The same keys may come up more than once; the last line with them counts.
pub fn parse_quick_shortcuts(text: &str) -> (r: (Vec<QuickShortcut>, bool))
    ensures
        entries_view(r.0@) == entries_from(text@, 0),
        r.1 == invalid_from(text@, 0),
{
    let len = text.unicode_len();
    let mut shortcuts: Vec<QuickShortcut> = Vec::new();
    let mut invalid = false;
    let mut start: usize = 0;
    let mut done = false;
    proof {
        assert(entries_view(shortcuts@) + entries_from(text@, 0) =~= entries_from(text@, 0));
    }
    while !done
        invariant
            len == text@.len(),
            start <= len,
            !done ==> entries_view(shortcuts@) + entries_from(text@, start as int) == entries_from(
                text@,
                0,
            ),
            !done ==> (invalid || invalid_from(text@, start as int)) == invalid_from(text@, 0),
            done ==> entries_view(shortcuts@) == entries_from(text@, 0),
            done ==> invalid == invalid_from(text@, 0),
        decreases len - start + (if done { 0int } else { 1int }),
    {
        let mut key: Vec<char> = Vec::new();
        let mut value: u64 = 0;
        let mut has_digits = false;
        let mut overflow = false;
        let mut seen_cr = false;
        let mut inner_cr = false;
        let mut content = false;
        let mut ix: usize = start;
        proof {
            assert(text@.subrange(start as int, ix as int) =~= Seq::<char>::empty());
        }
        while ix < len && text.get_char(ix) != '\n'
            invariant
                len == text@.len(),
                start <= ix <= len,
                line_end(text@, start as int) == line_end(text@, ix as int),
                key@ == key_of(text@.subrange(start as int, ix as int)),
                seen_cr == has_cr(text@.subrange(start as int, ix as int)),
                inner_cr == has_inner_cr(text@.subrange(start as int, ix as int)),
                content == has_content(text@.subrange(start as int, ix as int)),
                has_digits == (digits_of(text@.subrange(start as int, ix as int)).len() > 0),
                value <= i64::MAX,
                has_digits && !overflow ==> digits_value(
                    digits_of(text@.subrange(start as int, ix as int)),
                ) == Some(value as nat),
                has_digits && overflow ==> digits_value(
                    digits_of(text@.subrange(start as int, ix as int)),
                ).is_some() && digits_value(
                    digits_of(text@.subrange(start as int, ix as int)),
                ).unwrap() > i64::MAX,
                !has_digits ==> !overflow && value == 0,
            decreases len - ix,
        {
            let c = text.get_char(ix);
            let ghost before = text@.subrange(start as int, ix as int);
            let ghost after = text@.subrange(start as int, ix + 1);
            proof {
                assert(after.drop_last() =~= before);
                assert(after.last() == c);
            }
            let code: u32 = c as u32;
            if c == '\r' {
                seen_cr = true;
            } else {
                if seen_cr {
                    inner_cr = true;
                }
                content = true;
                if 48 <= code && code <= 57 {
                    let d: u64 = (code - 48) as u64;
                    let ghost digits = digits_of(before);
                    proof {
                        assert(is_digit(c));
                        assert(digits_of(after) == digits.push(c));
                        assert(digits.push(c).drop_last() =~= digits);
                        assert(digits.push(c).last() == c);
                    }
                    if overflow {
                        proof {
                            let old = digits_value(digits).unwrap();
                            assert(digits_value(digits.push(c)) == Some((old * 10 + d) as nat));
                            assert(old * 10 + d > i64::MAX) by (nonlinear_arith)
                                requires
                                    old > i64::MAX,
                                    d >= 0,
                            ;
                        }
                    } else {
                        let wide: u128 = value as u128 * 10 + d as u128;
                        proof {
                            if has_digits {
                                assert(digits_value(digits.push(c)) == Some(
                                    (value * 10 + d) as nat,
                                ));
                            } else {
                                assert(digits.len() == 0);
                                assert(digits.push(c).len() == 1);
                                assert(digits_value(digits.push(c)) == Some(d as nat));
                            }
                        }
                        if wide > 0x7fff_ffff_ffff_ffff {
                            overflow = true;
                            value = 0;
                        } else {
                            value = wide as u64;
                        }
                    }
                    has_digits = true;
                } else {
                    proof {
                        assert(!is_digit(c));
                    }
                    key.push(c);
                }
            }
            ix = ix + 1;
        }
        let end = ix;
        let ghost line = text@.subrange(start as int, end as int);
        proof {
            lemma_line_end(text@, start as int);
            lemma_line_end(text@, end as int);
            assert(line_end(text@, end as int) == end);
            assert(end == line_end(text@, start as int));
            if !has_digits {
                assert(digits_of(line).len() == 0);
            }
        }
        let bad_target = !has_digits || overflow || value > 0xffff_ffff;
        if content {
            let target: u32 = if !has_digits || overflow {
                0
            } else if value > 0xffff_ffff {
                0xffff_ffff
            } else {
                value as u32
            };
            let ghost so_far = shortcuts@;
            shortcuts.push(QuickShortcut { key, target });
            proof {
                let entry = line_entry(line).unwrap();
                assert(entries_view(shortcuts@) =~= entries_view(so_far) + seq![entry]);
            }
        }
        if inner_cr || (content && bad_target) {
            invalid = true;
        }
        proof {
            let rest = if end < len {
                entries_from(text@, end + 1)
            } else {
                Seq::empty()
            };
            match line_entry(line) {
                Some(entry) => {
                    assert(entries_from(text@, start as int) == seq![entry] + rest);
                },
                None => {
                    assert(entries_from(text@, start as int) == rest);
                },
            }
        }
        if end < len {
            proof {
                let rest = entries_from(text@, end + 1);
                match line_entry(line) {
                    Some(entry) => {
                        let so_far = shortcuts@.drop_last();
                        assert(entries_view(shortcuts@) =~= entries_view(so_far) + seq![entry]);
                        assert((entries_view(so_far) + seq![entry]) + rest =~= entries_view(so_far)
                            + (seq![entry] + rest));
                    },
                    None => {},
                }
            }
            start = end + 1;
        } else {
            proof {
                match line_entry(line) {
                    Some(entry) => {
                        let so_far = shortcuts@.drop_last();
                        assert(entries_view(shortcuts@) =~= entries_view(so_far) + seq![entry]);
                        assert(seq![entry] + Seq::<(Seq<char>, u32)>::empty() =~= seq![entry]);
                    },
                    None => {
                        assert(entries_view(shortcuts@) + Seq::<(Seq<char>, u32)>::empty()
                            =~= entries_view(shortcuts@));
                    },
                }
            }
            start = len;
            done = true;
        }
    }
    (shortcuts, invalid)
}

/// Whether two shortcuts of the first `n` have the same keys.
pub open spec fn has_duplicate_keys(shortcuts: Seq<QuickShortcut>) -> bool {
    exists|i: int, j: int|
        0 <= i < j < shortcuts.len() && (#[trigger] shortcuts[i]).key@ == (
        #[trigger] shortcuts[j]).key@
}

/// Whether two sequences of characters are the same.
pub fn same_key(a: &Vec<char>, b: &Vec<char>) -> (r: bool)
    ensures
        r == (a@ == b@),
{
    if a.len() != b.len() {
        return false;
    }
    let mut ix: usize = 0;
    while ix < a.len()
        invariant
            ix <= a@.len(),
            a@.len() == b@.len(),
            forall|k: int| 0 <= k < ix ==> a@[k] == b@[k],
        decreases a@.len() - ix,
    {
        if a[ix] != b[ix] {
            return false;
        }
        ix = ix + 1;
    }
    proof {
        assert(a@ =~= b@);
    }
    true
}

/// Whether the same keys come up more than once. Then only the last line
/// with them counts and the text has to be written anew.
pub fn has_duplicates(shortcuts: &Vec<QuickShortcut>) -> (r: bool)
    ensures
        r == has_duplicate_keys(shortcuts@),
{
    let mut j: usize = 0;
    while j < shortcuts.len()
        invariant
            j <= shortcuts@.len(),
            forall|a: int, b: int|
                0 <= a < b < j ==> (#[trigger] shortcuts@[a]).key@ != (#[trigger] shortcuts@[b]).key@,
        decreases shortcuts@.len() - j,
    {
        let mut i: usize = 0;
        while i < j
            invariant
                i <= j,
                j < shortcuts@.len(),
                forall|a: int| 0 <= a < i ==> (#[trigger] shortcuts@[a]).key@ != shortcuts@[j as int].key@,
            decreases j - i,
        {
            if same_key(&shortcuts[i].key, &shortcuts[j].key) {
                return true;
            }
            i = i + 1;
        }
        j = j + 1;
    }
    false
}

} // verus!
