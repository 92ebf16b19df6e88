//! Sizes and positions on screens of different resolution.

use vstd::prelude::*;
use crate::config_window::{parse_i64, spec_parse_i64};

verus! {

/// The resolution, in dots per inch, at which a logical pixel is one
/// physical pixel.
pub const USER_DEFAULT_SCREEN_DPI: i32 = 96;

/// The absolute value of `x`.
pub open spec fn spec_abs(x: int) -> int {
    if x < 0 {
        -x
    } else {
        x
    }
}

/// `value * num / denom`, rounded to the closest integer; halfway cases go
/// away from zero.
pub open spec fn spec_scaled(value: int, num: int, denom: int) -> int {
    let magnitude = (spec_abs(value) * spec_abs(num) + spec_abs(denom) / 2) / spec_abs(denom);
    if (value < 0) != (num < 0) != (denom < 0) {
        -magnitude
    } else {
        magnitude
    }
}

/// `value * num / denom`, rounded, if that is a 32 bit number.
pub open spec fn spec_mul_div_round(value: int, num: int, denom: int) -> Option<i32> {
    let scaled = spec_scaled(value, num, denom);
    if i32::MIN <= scaled <= i32::MAX {
        Some(scaled as i32)
    } else {
        None
    }
}

/// `value * num / denom` without overflow in between.
///
/// Trusted: this is `MulDiv::mul_div_round` of the crate `muldiv` for 32 bit
/// signed numbers. It works on the absolute values in 64 bits, adds half the
/// divisor before it divides, and puts the sign back; it gives `None` where
/// the rounded result is no 32 bit number. It panics on a zero divisor, which
/// the precondition rules out.
#[verifier::external_body]
fn mul_div_round(value: i32, num: i32, denom: i32) -> (r: Option<i32>)
    requires
        denom != 0,
    ensures
        r == spec_mul_div_round(value as int, num as int, denom as int),
{
    muldiv::MulDiv::mul_div_round(value, num, denom)
}

/// `value` scaled by `num / denom`, or `value` itself where the result is no
/// 32 bit number.
pub open spec fn spec_scale_or_keep(value: i32, num: i32, denom: i32) -> i32 {
    match spec_mul_div_round(value as int, num as int, denom as int) {
        Some(scaled) => scaled,
        None => value,
    }
}

/// The physical pixels that stand for the logical point `(x, y)` on a screen
/// with the resolution `dpi`. A coordinate that would leave the 32 bit range
/// is left as it is.
pub fn logical_to_physical(x: i32, y: i32, dpi: i32) -> (r: (i32, i32))
    ensures
        r.0 == spec_scale_or_keep(x, dpi, USER_DEFAULT_SCREEN_DPI),
        r.1 == spec_scale_or_keep(y, dpi, USER_DEFAULT_SCREEN_DPI),
{
    let px = match mul_div_round(x, dpi, USER_DEFAULT_SCREEN_DPI) {
        Some(v) => v,
        None => x,
    };
    let py = match mul_div_round(y, dpi, USER_DEFAULT_SCREEN_DPI) {
        Some(v) => v,
        None => y,
    };
    (px, py)
}

/// The logical point that the physical pixels `(x, y)` stand for on a screen
/// with the resolution `dpi`, which is not zero. A coordinate that would
/// leave the 32 bit range is left as it is.
pub fn physical_to_logical(x: i32, y: i32, dpi: i32) -> (r: (i32, i32))
    requires
        dpi != 0,
    ensures
        r.0 == spec_scale_or_keep(x, USER_DEFAULT_SCREEN_DPI, dpi),
        r.1 == spec_scale_or_keep(y, USER_DEFAULT_SCREEN_DPI, dpi),
{
    let lx = match mul_div_round(x, USER_DEFAULT_SCREEN_DPI, dpi) {
        Some(v) => v,
        None => x,
    };
    let ly = match mul_div_round(y, USER_DEFAULT_SCREEN_DPI, dpi) {
        Some(v) => v,
        None => y,
    };
    (lx, ly)
}

/// The size of a window's client area as unsigned numbers; a side that the
/// system reports as negative wraps around, as it does for the toolkit.
pub fn window_size(logical: (i32, i32)) -> (r: (u32, u32))
    ensures
        r.0 == logical.0 as u32,
        r.1 == logical.1 as u32,
{
    (logical.0 as u32, logical.1 as u32)
}

/// The value inside a number select and the limits of that value.
#[derive(Clone, Copy, PartialEq, Eq, Structural, Debug)]
pub enum NumberSelectData {
    Int { value: i64, step: i64, max: i64, min: i64 },
    /// A number with a fractional part. The library does not look into it.
    Float,
}

impl Default for NumberSelectData {
    fn default() -> (r: Self)
        ensures
            r == (NumberSelectData::Int { value: 0, step: 1, max: i64::MAX, min: i64::MIN }),
    {
        NumberSelectData::Int { value: 0, step: 1, max: i64::MAX, min: i64::MIN }
    }
}

/// The style bit of a control that can be reached with the tab key.
pub const WS_TABSTOP: u32 = 0x0001_0000;

/// The style bit of a control that is shown.
pub const WS_VISIBLE: u32 = 0x1000_0000;

/// How a number select is to be built.
#[derive(Clone, Copy, PartialEq, Eq, Debug)]
pub struct NumberSelectBuilder {
    pub size: (i32, i32),
    pub position: (i32, i32),
    pub data: NumberSelectData,
    pub enabled: bool,
    pub flags: Option<u32>,
}

/// Where the parts of a number select go inside it, and with which style.
#[derive(Clone, Copy, PartialEq, Eq, Debug)]
pub struct NumberSelectLayout {
    /// The style of the control itself.
    pub flags: u32,
    /// Whether the text box and the buttons can be reached with the tab key.
    pub tab_stop: bool,
    pub edit_size: (i32, i32),
    pub button_size: (i32, i32),
    pub up_position: (i32, i32),
    pub down_position: (i32, i32),
}

impl NumberSelectBuilder {
    /// A number select of the usual size that holds a whole number.
    pub fn new() -> (r: Self)
        ensures
            r == (NumberSelectBuilder {
                size: (100, 25),
                position: (0, 0),
                data: NumberSelectData::Int { value: 0, step: 1, max: i64::MAX, min: i64::MIN },
                enabled: true,
                flags: None,
            }),
    {
        NumberSelectBuilder {
            size: (100, 25),
            position: (0, 0),
            data: NumberSelectData::Int { value: 0, step: 1, max: i64::MAX, min: i64::MIN },
            enabled: true,
            flags: None,
        }
    }

    /// Sets the value. Data that holds no whole number is replaced by the
    /// value with the widest limits.
    pub fn value_int(self, v: i64) -> (r: Self)
        ensures
            r == (NumberSelectBuilder {
                data: match self.data {
                    NumberSelectData::Int { value, step, max, min } => NumberSelectData::Int {
                        value: v,
                        step,
                        max,
                        min,
                    },
                    NumberSelectData::Float => NumberSelectData::Int {
                        value: v,
                        step: 1,
                        max: i64::MAX,
                        min: i64::MIN,
                    },
                },
                ..self
            }),
    {
        let data = match self.data {
            NumberSelectData::Int { value: _, step, max, min } => NumberSelectData::Int {
                value: v,
                step,
                max,
                min,
            },
            NumberSelectData::Float => NumberSelectData::Int {
                value: v,
                step: 1,
                max: i64::MAX,
                min: i64::MIN,
            },
        };
        NumberSelectBuilder {
            size: self.size,
            position: self.position,
            data,
            enabled: self.enabled,
            flags: self.flags,
        }
    }

    /// Sets the step. Data that holds no whole number is replaced by zero
    /// with the widest limits.
    pub fn step_int(self, v: i64) -> (r: Self)
        ensures
            r == (NumberSelectBuilder {
                data: match self.data {
                    NumberSelectData::Int { value, step, max, min } => NumberSelectData::Int {
                        value,
                        step: v,
                        max,
                        min,
                    },
                    NumberSelectData::Float => NumberSelectData::Int {
                        value: 0,
                        step: v,
                        max: i64::MAX,
                        min: i64::MIN,
                    },
                },
                ..self
            }),
    {
        let data = match self.data {
            NumberSelectData::Int { value, step: _, max, min } => NumberSelectData::Int {
                value,
                step: v,
                max,
                min,
            },
            NumberSelectData::Float => NumberSelectData::Int {
                value: 0,
                step: v,
                max: i64::MAX,
                min: i64::MIN,
            },
        };
        NumberSelectBuilder {
            size: self.size,
            position: self.position,
            data,
            enabled: self.enabled,
            flags: self.flags,
        }
    }

    /// Sets the upper limit. Data that holds no whole number is replaced by
    /// zero with a step of one.
    pub fn max_int(self, v: i64) -> (r: Self)
        ensures
            r == (NumberSelectBuilder {
                data: match self.data {
                    NumberSelectData::Int { value, step, max, min } => NumberSelectData::Int {
                        value,
                        step,
                        max: v,
                        min,
                    },
                    NumberSelectData::Float => NumberSelectData::Int {
                        value: 0,
                        step: 1,
                        max: v,
                        min: i64::MIN,
                    },
                },
                ..self
            }),
    {
        let data = match self.data {
            NumberSelectData::Int { value, step, max: _, min } => NumberSelectData::Int {
                value,
                step,
                max: v,
                min,
            },
            NumberSelectData::Float => NumberSelectData::Int {
                value: 0,
                step: 1,
                max: v,
                min: i64::MIN,
            },
        };
        NumberSelectBuilder {
            size: self.size,
            position: self.position,
            data,
            enabled: self.enabled,
            flags: self.flags,
        }
    }

    /// Sets the lower limit. Data that holds no whole number is replaced by
    /// zero with a step of one.
    pub fn min_int(self, v: i64) -> (r: Self)
        ensures
            r == (NumberSelectBuilder {
                data: match self.data {
                    NumberSelectData::Int { value, step, max, min } => NumberSelectData::Int {
                        value,
                        step,
                        max,
                        min: v,
                    },
                    NumberSelectData::Float => NumberSelectData::Int {
                        value: 0,
                        step: 1,
                        max: i64::MAX,
                        min: v,
                    },
                },
                ..self
            }),
    {
        let data = match self.data {
            NumberSelectData::Int { value, step, max, min: _ } => NumberSelectData::Int {
                value,
                step,
                max,
                min: v,
            },
            NumberSelectData::Float => NumberSelectData::Int {
                value: 0,
                step: 1,
                max: i64::MAX,
                min: v,
            },
        };
        NumberSelectBuilder {
            size: self.size,
            position: self.position,
            data,
            enabled: self.enabled,
            flags: self.flags,
        }
    }

    /// Where the parts go, for a control that is large enough to be laid
    /// out with 32 bit numbers.
    ///
    /// The text box takes the width but for the buttons; the buttons are
    /// stacked at the right edge, each half as high as the control. A
    /// control without a style of its own is a visible one.
    pub fn build(&self) -> (r: NumberSelectLayout)
        requires
            self.size.0 >= i32::MIN + 20,
            self.size.1 < i32::MAX - 1,
        ensures
            r.flags == match self.flags {
                Some(f) => f,
                None => WS_VISIBLE,
            },
            r.tab_stop == (r.flags & WS_TABSTOP == WS_TABSTOP),
            r.edit_size == (((self.size.0 - 19) as i32, self.size.1)),
            r.button_size == ((20i32, (spec_half(self.size.1 as int) + 1) as i32)),
            r.up_position == (((self.size.0 - 20) as i32, -1i32)),
            r.down_position == (((self.size.0 - 20) as i32, (spec_half(self.size.1 as int) - 1) as i32)),
    {
        let flags = match self.flags {
            Some(f) => f,
            None => WS_VISIBLE,
        };
        let w = self.size.0;
        let h = self.size.1;
        let half = half(h);
        NumberSelectLayout {
            flags,
            tab_stop: flags & WS_TABSTOP == WS_TABSTOP,
            edit_size: (w - 19, h),
            button_size: (20, half + 1),
            up_position: (w - 20, -1),
            down_position: (w - 20, half - 1),
        }
    }
}

/// Half of `v`, rounded towards zero.
pub open spec fn spec_half(v: int) -> int {
    if v >= 0 {
        v / 2
    } else {
        -((-v) / 2)
    }
}

/// Half of `v`, rounded towards zero.
pub fn half(v: i32) -> (r: i32)
    ensures
        r == spec_half(v as int),
{
    let wide: i64 = v as i64;
    if wide >= 0 {
        (wide / 2) as i32
    } else {
        (-((-wide) / 2)) as i32
    }
}

/// The messages that a number select reacts to.
pub const WM_KEYDOWN: u32 = 0x0100;

pub const WM_COMMAND: u32 = 0x0111;

pub const WM_MOUSEWHEEL: u32 = 0x020A;

/// The text of a text box changed.
pub const EN_CHANGE: u32 = 0x0300;

/// A button was clicked.
pub const BN_CLICKED: u32 = 0;

/// The arrow keys.
pub const VK_UP: u32 = 38;

pub const VK_DOWN: u32 = 40;

/// What a message asks a number select to do.
#[derive(Clone, Copy, PartialEq, Eq, Structural, Debug)]
pub enum NumberSelectAction {
    /// Read the text box and take the number in it if it is a good one.
    TextChanged,
    Increase,
    Decrease,
    Nothing,
}

/// The second word of `w`: what a command message is about, or how far the
/// mouse wheel turned.
pub open spec fn spec_high_word(w: int) -> int {
    (w / 0x1_0000) % 0x1_0000
}

/// What a message to the control asks for.
///
/// A command from the text box says that its text changed; a command from a
/// button is a click on it. The mouse wheel counts up when it turns away from
/// the user and down when it turns towards the user.
pub open spec fn spec_on_message(msg: u32, w: usize, l: isize, plus_button: isize, minus_button: isize) -> NumberSelectAction {
    let word = spec_high_word(w as int);
    if msg == WM_COMMAND {
        if word == EN_CHANGE {
            NumberSelectAction::TextChanged
        } else if word == BN_CLICKED && l == plus_button {
            NumberSelectAction::Increase
        } else if word == BN_CLICKED && l == minus_button {
            NumberSelectAction::Decrease
        } else {
            NumberSelectAction::Nothing
        }
    } else if msg == WM_MOUSEWHEEL {
        if word == 0 {
            NumberSelectAction::Nothing
        } else if word >= 0x8000 {
            NumberSelectAction::Decrease
        } else {
            NumberSelectAction::Increase
        }
    } else {
        NumberSelectAction::Nothing
    }
}

/// What a message to the control asks for. `plus_button` and `minus_button`
/// are the windows of the two buttons.
pub fn on_message(msg: u32, w: usize, l: isize, plus_button: isize, minus_button: isize) -> (r:
    NumberSelectAction)
    ensures
        r == spec_on_message(msg, w, l, plus_button, minus_button),
{
    let word: u64 = ((w as u64) / 0x1_0000) % 0x1_0000;
    if msg == WM_COMMAND {
        if word == EN_CHANGE as u64 {
            NumberSelectAction::TextChanged
        } else if word == BN_CLICKED as u64 && l == plus_button {
            NumberSelectAction::Increase
        } else if word == BN_CLICKED as u64 && l == minus_button {
            NumberSelectAction::Decrease
        } else {
            NumberSelectAction::Nothing
        }
    } else if msg == WM_MOUSEWHEEL {
        if word == 0 {
            NumberSelectAction::Nothing
        } else if word >= 0x8000 {
            NumberSelectAction::Decrease
        } else {
            NumberSelectAction::Increase
        }
    } else {
        NumberSelectAction::Nothing
    }
}

/// What a message to the text box asks for: the arrow keys count up and
/// down. Such a key press is answered with 0 so that the text box does not
/// act on it as well.
pub fn on_edit_message(msg: u32, w: usize) -> (r: NumberSelectAction)
    ensures
        r == if msg == WM_KEYDOWN && (w as int) % 0x1_0000_0000 == VK_UP {
            NumberSelectAction::Increase
        } else if msg == WM_KEYDOWN && (w as int) % 0x1_0000_0000 == VK_DOWN {
            NumberSelectAction::Decrease
        } else {
            NumberSelectAction::Nothing
        },
{
    let keycode: u64 = (w as u64) % 0x1_0000_0000;
    if msg == WM_KEYDOWN && keycode == VK_UP as u64 {
        NumberSelectAction::Increase
    } else if msg == WM_KEYDOWN && keycode == VK_DOWN as u64 {
        NumberSelectAction::Decrease
    } else {
        NumberSelectAction::Nothing
    }
}

/// The data after the user wrote `text` into the text box: the number that
/// the text stands for is taken if it is within the limits. Otherwise there
/// is no new data and the text box has to show the old value again.
pub fn accept_text(data: NumberSelectData, text: &str) -> (r: Option<NumberSelectData>)
    ensures
        r == match data {
            NumberSelectData::Int { value, step, max, min } => match spec_parse_i64(text@) {
                Some(new) => if min <= new <= max {
                    Some(NumberSelectData::Int { value: new, step, max, min })
                } else {
                    None
                },
                None => None,
            },
            NumberSelectData::Float => None,
        },
{
    match data {
        NumberSelectData::Int { value: _, step, max, min } => match parse_i64(text) {
            Some(new) => {
                if min <= new && new <= max {
                    Some(NumberSelectData::Int { value: new, step, max, min })
                } else {
                    None
                }
            },
            None => None,
        },
        NumberSelectData::Float => None,
    }
}


} // verus!
