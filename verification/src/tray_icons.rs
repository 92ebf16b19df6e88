//! Which icon the tray shows for a desktop, and how its number is laid out.

use vstd::prelude::*;

verus! {

/// The number of the icon that ships with the program for the desktop with
/// the one-based number `number`. There is one for each of the first nine
/// desktops.
pub fn get_included_icon(number: u32) -> (r: Option<u32>)
    ensures
        r == if 1 <= number <= 9 {
            Some(number)
        } else {
            None
        },
{
    if 1 <= number && number <= 9 {
        Some(number)
    } else {
        None
    }
}

/// The number of decimal digits of `number`.
pub open spec fn spec_decimal_digits(number: nat) -> nat
    decreases number,
{
    if number < 10 {
        1
    } else {
        1 + spec_decimal_digits(number / 10)
    }
}

/// The number of decimal digits of `number`.
pub fn decimal_digits(number: u32) -> (r: usize)
    ensures
        r == spec_decimal_digits(number as nat),
        1 <= r <= 10,
{
    proof {
        reveal_with_fuel(spec_decimal_digits, 11);
    }
    if number < 10 {
        1
    } else if number < 100 {
        2
    } else if number < 1_000 {
        3
    } else if number < 10_000 {
        4
    } else if number < 100_000 {
        5
    } else if number < 1_000_000 {
        6
    } else if number < 10_000_000 {
        7
    } else if number < 100_000_000 {
        8
    } else if number < 1_000_000_000 {
        9
    } else {
        10
    }
}

/// How the tray icon is drawn.
#[derive(Clone, Copy, PartialEq, Eq, Structural, Debug)]
pub enum IconType {
    /// A frame around the desktop's number.
    WithBackground {
        /// Whether an icon that ships with the program may be used.
        allow_hardcoded: bool,
        light_theme: bool,
    },
    /// Only the desktop's number.
    NoBackground { light_theme: bool },
    /// Only the desktop's number, drawn in colour by another renderer.
    NoBackgroundAlt,
}

/// Where the number goes on the canvas of an icon and how large it is, in
/// pixels.
#[derive(Clone, Copy, PartialEq, Eq, Structural, Debug)]
pub struct TextLayout {
    pub x: i32,
    pub y: i32,
    pub scale_x: u32,
    pub scale_y: u32,
    /// Whether the number is white; otherwise it is black.
    pub white: bool,
}

/// What has to be done to get the icon for a desktop.
#[derive(Clone, Copy, PartialEq, Eq, Structural, Debug)]
pub enum IconPlan {
    /// Use the icon with this number that ships with the program.
    Included(u32),
    /// Draw the number into the empty frame. For a light theme the frame is
    /// inverted first.
    WithBackground { number: u32, light_theme: bool, text: TextLayout },
    /// Draw the number on a transparent canvas.
    NoBackground { number: u32, text: TextLayout },
    /// Have the number drawn in colour.
    NoBackgroundAlt { number: u32 },
}

/// The layout of a number of `digits` digits inside the frame.
pub open spec fn framed_layout(digits: nat, light_theme: bool) -> TextLayout {
    TextLayout {
        x: if digits >= 2 {
            110
        } else {
            130
        },
        y: 56,
        scale_x: 150,
        scale_y: 180,
        white: !light_theme,
    }
}

/// The layout of a number of `digits` digits that fills the whole canvas.
pub open spec fn bare_layout(digits: nat, light_theme: bool) -> TextLayout {
    TextLayout {
        x: if digits >= 2 {
            -8i32
        } else {
            0i32
        },
        y: -130i32,
        scale_x: if digits <= 1 {
            660
        } else if digits == 2 {
            330
        } else {
            210
        },
        scale_y: 490,
        white: !light_theme,
    }
}

impl IconType {
    /// What has to be done to get the icon for the desktop with the
    /// one-based number `number`.
    ///
    /// An icon that ships with the program is used only where that is
    /// allowed, the theme is dark and there is one for the number.
    pub open spec fn spec_generate_icon(self, number: u32) -> IconPlan {
        let digits = spec_decimal_digits(number as nat);
        match self {
            IconType::WithBackground { allow_hardcoded, light_theme } => if allow_hardcoded
                && !light_theme && 1 <= number <= 9 {
                IconPlan::Included(number)
            } else {
                IconPlan::WithBackground {
                    number,
                    light_theme,
                    text: framed_layout(digits, light_theme),
                }
            },
            IconType::NoBackground { light_theme } => IconPlan::NoBackground {
                number,
                text: bare_layout(digits, light_theme),
            },
            IconType::NoBackgroundAlt => IconPlan::NoBackgroundAlt { number },
        }
    }

    /// What has to be done to get the icon for the desktop with the
    /// one-based number `number`.
    pub fn generate_icon(&self, number: u32) -> (r: IconPlan)
        ensures
            r == self.spec_generate_icon(number),
    {
        let digits = decimal_digits(number);
        match self {
            IconType::WithBackground { allow_hardcoded, light_theme } => {
                let included = if *allow_hardcoded && !*light_theme {
                    get_included_icon(number)
                } else {
                    None
                };
                match included {
                    Some(icon) => IconPlan::Included(icon),
                    None => IconPlan::WithBackground {
                        number,
                        light_theme: *light_theme,
                        text: TextLayout {
                            x: if digits >= 2 {
                                110
                            } else {
                                130
                            },
                            y: 56,
                            scale_x: 150,
                            scale_y: 180,
                            white: !*light_theme,
                        },
                    },
                }
            },
            IconType::NoBackground { light_theme } => IconPlan::NoBackground {
                number,
                text: TextLayout {
                    x: if digits >= 2 {
                        -8
                    } else {
                        0
                    },
                    y: -130,
                    scale_x: if digits <= 1 {
                        660
                    } else if digits == 2 {
                        330
                    } else {
                        210
                    },
                    scale_y: 490,
                    white: !*light_theme,
                },
            },
            IconType::NoBackgroundAlt => IconPlan::NoBackgroundAlt { number },
        }
    }
}

} // verus!
