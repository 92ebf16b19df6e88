//! Values and decisions around the controls of the toolkit.

pub mod number_select;

use vstd::prelude::*;

verus! {

/// How a window is shown.
#[derive(Clone, Copy, PartialEq, Eq, Structural, Debug)]
pub enum WindowPlacement {
    Normal,
    Maximized,
    Minimized,
}

/// The show states that the system reports for a window.
pub const SW_SHOWNORMAL: u32 = 1;

pub const SW_SHOWMINIMIZED: u32 = 2;

pub const SW_SHOWMAXIMIZED: u32 = 3;

impl WindowPlacement {
    /// The placement that the show state `show_cmd` stands for. A state that
    /// is none of the three known ones counts as normal.
    pub fn from_show_cmd(show_cmd: u32) -> (r: Self)
        ensures
            r == if show_cmd == SW_SHOWMAXIMIZED {
                WindowPlacement::Maximized
            } else if show_cmd == SW_SHOWMINIMIZED {
                WindowPlacement::Minimized
            } else {
                WindowPlacement::Normal
            },
    {
        if show_cmd == SW_SHOWMAXIMIZED {
            WindowPlacement::Maximized
        } else if show_cmd == SW_SHOWMINIMIZED {
            WindowPlacement::Minimized
        } else {
            WindowPlacement::Normal
        }
    }
}

/// The number of code units of `s` before the first zero, or the length of
/// `s` if it holds no zero.
pub open spec fn spec_len_until_nul(s: Seq<u16>, from: int) -> int
    decreases s.len() - from,
{
    if from < 0 || from >= s.len() {
        s.len() as int
    } else if s[from] == 0 {
        from
    } else {
        spec_len_until_nul(s, from + 1)
    }
}

/// The number of code units of a string from the system before the zero that
/// ends it.
pub fn len_until_nul(s: &Vec<u16>) -> (r: usize)
    ensures
        r == spec_len_until_nul(s@, 0),
        r <= s@.len(),
        forall|i: int| 0 <= i < r ==> s@[i] != 0,
        r < s@.len() ==> s@[r as int] == 0,
{
    let mut ix: usize = 0;
    while ix < s.len() && s[ix] != 0
        invariant
            ix <= s@.len(),
            spec_len_until_nul(s@, 0) == spec_len_until_nul(s@, ix as int),
            forall|i: int| 0 <= i < ix ==> s@[i] != 0,
        decreases s@.len() - ix,
    {
        ix = ix + 1;
    }
    ix
}

/// Where the header or the footer of a group stands.
#[derive(Clone, Copy, PartialEq, Eq, Structural, Debug)]
pub enum ListViewGroupAlignment {
    Left,
    Center,
    Right,
}

impl Default for ListViewGroupAlignment {
    fn default() -> (r: Self)
        ensures
            r == ListViewGroupAlignment::Left,
    {
        ListViewGroupAlignment::Left
    }
}

/// What to set on a group of a list view. Whatever is `None` is left as it
/// is.
#[derive(Clone, PartialEq, Eq, Debug)]
pub struct ListViewGroupInfo {
    pub group_id: i32,
    /// Whether a new group is created rather than an existing one changed.
    pub create_new: bool,
    pub header: Option<String>,
    pub subtitle: Option<String>,
    pub footer: Option<String>,
    pub task: Option<String>,
    pub description_top: Option<String>,
    pub description_bottom: Option<String>,
    pub header_alignment: Option<ListViewGroupAlignment>,
    pub footer_alignment: Option<ListViewGroupAlignment>,
    pub collapsed: Option<bool>,
    pub hidden: Option<bool>,
    pub no_header: Option<bool>,
    pub collapsible: Option<bool>,
    pub focused: Option<bool>,
    pub selected: Option<bool>,
    pub subseted: Option<bool>,
    pub subset_link_focused: Option<bool>,
}

/// The bits that tell the system which members of a group description are
/// filled in.
pub const LVGF_HEADER: u32 = 0x0001;

pub const LVGF_FOOTER: u32 = 0x0002;

pub const LVGF_STATE: u32 = 0x0004;

pub const LVGF_ALIGN: u32 = 0x0008;

pub const LVGF_GROUPID: u32 = 0x0010;

pub const LVGF_SUBTITLE: u32 = 0x0100;

pub const LVGF_TASK: u32 = 0x0200;

pub const LVGF_DESCRIPTIONTOP: u32 = 0x0400;

pub const LVGF_DESCRIPTIONBOTTOM: u32 = 0x0800;

/// The bits for the alignment of the header and of the footer.
pub const LVGA_HEADER_LEFT: u32 = 0x01;

pub const LVGA_HEADER_CENTER: u32 = 0x02;

pub const LVGA_HEADER_RIGHT: u32 = 0x04;

pub const LVGA_FOOTER_LEFT: u32 = 0x08;

pub const LVGA_FOOTER_CENTER: u32 = 0x10;

pub const LVGA_FOOTER_RIGHT: u32 = 0x20;

/// The bits for the states of a group.
pub const LVGS_COLLAPSED: u32 = 0x01;

pub const LVGS_HIDDEN: u32 = 0x02;

pub const LVGS_NOHEADER: u32 = 0x04;

pub const LVGS_COLLAPSIBLE: u32 = 0x08;

pub const LVGS_FOCUSED: u32 = 0x10;

pub const LVGS_SELECTED: u32 = 0x20;

pub const LVGS_SUBSETED: u32 = 0x40;

pub const LVGS_SUBSETLINKFOCUSED: u32 = 0x80;

/// The group id that stands for "no group".
pub const I_GROUPIDNONE: i32 = -2;

/// The numbers of a group description as the system wants them.
#[derive(Clone, Copy, PartialEq, Eq, Structural, Debug)]
pub struct ListViewGroupFlags {
    /// Which members are filled in.
    pub mask: u32,
    /// The alignment of header and footer.
    pub align: u32,
    /// Which states are spoken of.
    pub state_mask: u32,
    /// Which of the states that are spoken of are on.
    pub state: u32,
}

/// `bit` if `wanted`, and no bit otherwise.
pub open spec fn bit_if(wanted: bool, bit: u32) -> u32 {
    if wanted {
        bit
    } else {
        0
    }
}

/// The bit for the alignment of the header.
pub open spec fn header_bit(alignment: ListViewGroupAlignment) -> u32 {
    match alignment {
        ListViewGroupAlignment::Left => LVGA_HEADER_LEFT,
        ListViewGroupAlignment::Center => LVGA_HEADER_CENTER,
        ListViewGroupAlignment::Right => LVGA_HEADER_RIGHT,
    }
}

/// The bit for the alignment of the footer.
pub open spec fn footer_bit(alignment: ListViewGroupAlignment) -> u32 {
    match alignment {
        ListViewGroupAlignment::Left => LVGA_FOOTER_LEFT,
        ListViewGroupAlignment::Center => LVGA_FOOTER_CENTER,
        ListViewGroupAlignment::Right => LVGA_FOOTER_RIGHT,
    }
}

impl ListViewGroupInfo {
    /// Whether the description speaks of any state of the group.
    pub open spec fn has_state(&self) -> bool {
        self.collapsed.is_some() || self.hidden.is_some() || self.no_header.is_some()
            || self.collapsible.is_some() || self.focused.is_some() || self.selected.is_some()
            || self.subseted.is_some() || self.subset_link_focused.is_some()
    }

    /// The bits that say which members of the description are filled in.
    ///
    /// The group id counts as filled in only for a new group.
    pub open spec fn spec_mask(&self) -> u32 {
        bit_if(self.create_new, LVGF_GROUPID) | bit_if(self.header.is_some(), LVGF_HEADER) | bit_if(
            self.footer.is_some(),
            LVGF_FOOTER,
        ) | bit_if(self.subtitle.is_some(), LVGF_SUBTITLE) | bit_if(self.task.is_some(), LVGF_TASK)
            | bit_if(self.description_top.is_some(), LVGF_DESCRIPTIONTOP) | bit_if(
            self.description_bottom.is_some(),
            LVGF_DESCRIPTIONBOTTOM,
        ) | bit_if(
            self.header_alignment.is_some() || self.footer_alignment.is_some(),
            LVGF_ALIGN,
        ) | bit_if(self.has_state(), LVGF_STATE)
    }

    /// The bits for the alignment. A footer alignment without a header
    /// alignment puts the header on the left.
    pub open spec fn spec_align(&self) -> u32 {
        let header = match self.header_alignment {
            Some(a) => header_bit(a),
            None => if self.footer_alignment.is_some() {
                LVGA_HEADER_LEFT
            } else {
                0
            },
        };
        match self.footer_alignment {
            Some(a) => header | footer_bit(a),
            None => header,
        }
    }

    /// The bits of the states that the description speaks of.
    pub open spec fn spec_state_mask(&self) -> u32 {
        bit_if(self.collapsed.is_some(), LVGS_COLLAPSED) | bit_if(
            self.hidden.is_some(),
            LVGS_HIDDEN,
        ) | bit_if(self.no_header.is_some(), LVGS_NOHEADER) | bit_if(
            self.collapsible.is_some(),
            LVGS_COLLAPSIBLE,
        ) | bit_if(self.focused.is_some(), LVGS_FOCUSED) | bit_if(
            self.selected.is_some(),
            LVGS_SELECTED,
        ) | bit_if(self.subseted.is_some(), LVGS_SUBSETED) | bit_if(
            self.subset_link_focused.is_some(),
            LVGS_SUBSETLINKFOCUSED,
        )
    }

    /// The bits of the states that the description turns on.
    pub open spec fn spec_state(&self) -> u32 {
        bit_if(self.collapsed == Some(true), LVGS_COLLAPSED) | bit_if(
            self.hidden == Some(true),
            LVGS_HIDDEN,
        ) | bit_if(self.no_header == Some(true), LVGS_NOHEADER) | bit_if(
            self.collapsible == Some(true),
            LVGS_COLLAPSIBLE,
        ) | bit_if(self.focused == Some(true), LVGS_FOCUSED) | bit_if(
            self.selected == Some(true),
            LVGS_SELECTED,
        ) | bit_if(self.subseted == Some(true), LVGS_SUBSETED) | bit_if(
            self.subset_link_focused == Some(true),
            LVGS_SUBSETLINKFOCUSED,
        )
    }

    /// The numbers that describe the group to the system.
    pub fn flags(&self) -> (r: ListViewGroupFlags)
        ensures
            r.mask == self.spec_mask(),
            r.align == self.spec_align(),
            r.state_mask == self.spec_state_mask(),
            r.state == self.spec_state(),
    {
        let has_state = self.collapsed.is_some() || self.hidden.is_some()
            || self.no_header.is_some() || self.collapsible.is_some() || self.focused.is_some()
            || self.selected.is_some() || self.subseted.is_some()
            || self.subset_link_focused.is_some();
        let mask = flag(self.create_new, LVGF_GROUPID) | flag(self.header.is_some(), LVGF_HEADER)
            | flag(self.footer.is_some(), LVGF_FOOTER) | flag(
            self.subtitle.is_some(),
            LVGF_SUBTITLE,
        ) | flag(self.task.is_some(), LVGF_TASK) | flag(
            self.description_top.is_some(),
            LVGF_DESCRIPTIONTOP,
        ) | flag(self.description_bottom.is_some(), LVGF_DESCRIPTIONBOTTOM) | flag(
            self.header_alignment.is_some() || self.footer_alignment.is_some(),
            LVGF_ALIGN,
        ) | flag(has_state, LVGF_STATE);
        let header = match self.header_alignment {
            Some(ListViewGroupAlignment::Left) => LVGA_HEADER_LEFT,
            Some(ListViewGroupAlignment::Center) => LVGA_HEADER_CENTER,
            Some(ListViewGroupAlignment::Right) => LVGA_HEADER_RIGHT,
            None => if self.footer_alignment.is_some() {
                LVGA_HEADER_LEFT
            } else {
                0
            },
        };
        let align = match self.footer_alignment {
            Some(ListViewGroupAlignment::Left) => header | LVGA_FOOTER_LEFT,
            Some(ListViewGroupAlignment::Center) => header | LVGA_FOOTER_CENTER,
            Some(ListViewGroupAlignment::Right) => header | LVGA_FOOTER_RIGHT,
            None => header,
        };
        let state_mask = flag(self.collapsed.is_some(), LVGS_COLLAPSED) | flag(
            self.hidden.is_some(),
            LVGS_HIDDEN,
        ) | flag(self.no_header.is_some(), LVGS_NOHEADER) | flag(
            self.collapsible.is_some(),
            LVGS_COLLAPSIBLE,
        ) | flag(self.focused.is_some(), LVGS_FOCUSED) | flag(
            self.selected.is_some(),
            LVGS_SELECTED,
        ) | flag(self.subseted.is_some(), LVGS_SUBSETED) | flag(
            self.subset_link_focused.is_some(),
            LVGS_SUBSETLINKFOCUSED,
        );
        let state = flag(is_on(self.collapsed), LVGS_COLLAPSED) | flag(
            is_on(self.hidden),
            LVGS_HIDDEN,
        ) | flag(is_on(self.no_header), LVGS_NOHEADER) | flag(
            is_on(self.collapsible),
            LVGS_COLLAPSIBLE,
        ) | flag(is_on(self.focused), LVGS_FOCUSED) | flag(is_on(self.selected), LVGS_SELECTED)
            | flag(is_on(self.subseted), LVGS_SUBSETED) | flag(
            is_on(self.subset_link_focused),
            LVGS_SUBSETLINKFOCUSED,
        );
        ListViewGroupFlags { mask, align, state_mask, state }
    }
}

/// `bit` if `wanted`, and no bit otherwise.
pub fn flag(wanted: bool, bit: u32) -> (r: u32)
    ensures
        r == bit_if(wanted, bit),
{
    if wanted {
        bit
    } else {
        0
    }
}

/// Whether a state is spoken of and turned on.
pub fn is_on(state: Option<bool>) -> (r: bool)
    ensures
        r == (state == Some(true)),
{
    match state {
        Some(on) => on,
        None => false,
    }
}

/// The group id to hand to the system for a row that belongs to `group_id`,
/// or to no group.
pub fn group_id_or_none(group_id: Option<i32>) -> (r: i32)
    ensures
        r == match group_id {
            Some(id) => id,
            None => I_GROUPIDNONE,
        },
{
    match group_id {
        Some(id) => id,
        None => I_GROUPIDNONE,
    }
}

} // verus!
