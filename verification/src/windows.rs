use crate::menu::ClickType;
use vstd::prelude::*;

verus! {

/// The message that a released left button sends.
pub const WM_LBUTTONUP: u32 = 0x0202;

/// The message that a double click of the left button sends.
pub const WM_LBUTTONDBLCLK: u32 = 0x0203;

/// The message that a released right button sends.
pub const WM_RBUTTONUP: u32 = 0x0205;

/// The flag that says that the message of the icon is set.
pub const NIF_MESSAGE: u32 = 0x1;

/// The flag that says that the icon is set.
pub const NIF_ICON: u32 = 0x2;

/// The flag that says that the tooltip is set.
pub const NIF_TIP: u32 = 0x4;

/// The number of code units that the tooltip of an icon holds, the closing
/// zero included.
pub const TIP_LEN: usize = 128;

/// The low 16 bits of a 32-bit message parameter.
#[allow(non_snake_case)]
pub fn LOWORD(dword: u32) -> (word: u16)
    ensures
        word == dword % 0x1_0000,
{
    assert(dword & 0xFFFF == dword % 0x1_0000) by (bit_vector);
    (dword & 0xFFFF) as u16
}

/// The click that a message of the mouse stands for.
pub open spec fn click_of(message: u32) -> Option<ClickType> {
    if message == WM_LBUTTONUP {
        Some(ClickType::Left)
    } else if message == WM_RBUTTONUP {
        Some(ClickType::Right)
    } else if message == WM_LBUTTONDBLCLK {
        Some(ClickType::Double)
    } else {
        None
    }
}

impl ClickType {
    /// The click that the low 32 bits of a message parameter stand for.
    pub fn from_lparam(lparam: isize) -> (click: Option<ClickType>)
        ensures
            click == click_of(lparam as u32),
    {
        let message = #[verifier::truncate]
        (lparam as u32);
        if message == WM_LBUTTONUP {
            Some(ClickType::Left)
        } else if message == WM_RBUTTONUP {
            Some(ClickType::Right)
        } else if message == WM_LBUTTONDBLCLK {
            Some(ClickType::Double)
        } else {
            None
        }
    }
}

/// The code units of a character in UTF-16: the character itself where it
/// fits 16 bits, else a high and a low surrogate.
pub open spec fn utf16_of_char(c: char) -> Seq<u16> {
    let v = c as u32 as int;
    if v < 0x1_0000 {
        seq![v as u16]
    } else {
        seq![(0xD800 + (v - 0x1_0000) / 0x400) as u16, (0xDC00 + (v - 0x1_0000) % 0x400) as u16]
    }
}

/// The code units of a text in UTF-16.
pub open spec fn utf16(text: Seq<char>) -> Seq<u16>
    decreases text.len(),
{
    if text.len() == 0 {
        Seq::empty()
    } else {
        utf16(text.drop_last()) + utf16_of_char(text.last())
    }
}

/// The code units of a text in UTF-16, in order.
pub fn utf16_units(text: &str) -> (units: Vec<u16>)
    ensures
        units@ == utf16(text@),
{
    let mut units: Vec<u16> = Vec::new();
    for c in it: text.chars()
        invariant
            it.seq() == text@,
            units@ == utf16(text@.take(it.index() as int)),
    {
        let v: u32 = c as u32;
        proof {
            assert(text@.take(it.index() + 1).drop_last() =~= text@.take(it.index() as int));
        }
        if v < 0x1_0000 {
            units.push(v as u16);
        } else {
            let high: u32 = 0xD800 + (v - 0x1_0000) / 0x400;
            let low: u32 = 0xDC00 + (v - 0x1_0000) % 0x400;
            units.push(high as u16);
            units.push(low as u16);
        }
    }
    proof {
        assert(text@.take(text@.len() as int) =~= text@);
    }
    units
}

/// The code units of a text in UTF-16 with a closing zero.
pub fn encode_wide(string: &str) -> (wide: Vec<u16>)
    ensures
        wide@ == utf16(string@).push(0),
{
    let mut wide = utf16_units(string);
    wide.push(0);
    wide
}

/// The flag of a menu item that is a separator.
pub const MF_SEPARATOR: u32 = 0x800;

/// The flag of a menu item that shows a text.
pub const MF_STRING: u32 = 0x0;

/// The flag of a menu item that shows a checkmark.
pub const MF_CHECKED: u32 = 0x8;

/// The flag of a menu item that opens a submenu.
pub const MF_POPUP: u32 = 0x10;

/// The bytes of an image with red and blue changed over in every pixel.
/// A pixel is four bytes: red, green, blue and alpha. Bytes at the end that
/// make no whole pixel stay as they are.
pub open spec fn bgra_of(rgba: Seq<u8>) -> Seq<u8> {
    Seq::new(
        rgba.len(),
        |i: int|
            if i / 4 * 4 + 4 <= rgba.len() && i % 4 == 0 {
                rgba[i + 2]
            } else if i / 4 * 4 + 4 <= rgba.len() && i % 4 == 2 {
                rgba[i - 2]
            } else {
                rgba[i]
            },
    )
}

/// The mask of an image: for every whole pixel what its alpha lacks to 255.
pub open spec fn mask_of(rgba: Seq<u8>) -> Seq<u8> {
    Seq::new(rgba.len() / 4, |p: int| (255 - rgba[4 * p + 3]) as u8)
}

/// The colour plane and the mask from which the platform makes an icon:
/// the pixels of `rgba` in the order blue, green, red, alpha, and the mask
/// of their alpha values.
pub fn bgra_and_mask(rgba: Vec<u8>) -> (planes: (Vec<u8>, Vec<u8>))
    ensures
        planes.0@ == bgra_of(rgba@),
        planes.1@ == mask_of(rgba@),
{
    let ghost before = rgba@;
    let mut bgra = rgba;
    let mut mask: Vec<u8> = Vec::new();
    let pixels: usize = bgra.len() / 4;
    let mut p: usize = 0;
    while p < pixels
        invariant
            p <= pixels,
            pixels == before.len() / 4,
            4 * pixels <= before.len() <= usize::MAX,
            bgra@.len() == before.len(),
            forall|i: int| 0 <= i < 4 * p ==> bgra@[i] == bgra_of(before)[i],
            forall|i: int| 4 * p <= i < before.len() ==> bgra@[i] == before[i],
            mask@ == mask_of(before).take(p as int),
        decreases pixels - p,
    {
        let red: u8 = bgra[4 * p];
        let blue: u8 = bgra[4 * p + 2];
        let alpha: u8 = bgra[4 * p + 3];
        bgra.set(4 * p, blue);
        bgra.set(4 * p + 2, red);
        mask.push(u8::MAX - alpha);
        p += 1;
    }
    (bgra, mask)
}

/// What is done with the icon in the notification area.
#[derive(Debug, Clone, Copy, PartialEq, Eq, Structural)]
pub enum DataAction {
    Add,
    Modify,
    Remove,
}

impl DataAction {
    /// The number of the message that asks for this action.
    pub fn message(self) -> (number: u32)
        ensures
            number == match self {
                DataAction::Add => 0u32,
                DataAction::Modify => 1u32,
                DataAction::Remove => 2u32,
            },
    {
        match self {
            DataAction::Add => 0,
            DataAction::Modify => 1,
            DataAction::Remove => 2,
        }
    }
}

/// The tooltip of an icon after `units` were written over its beginning. The
/// last place is never written, so that a tooltip that ends in zero still
/// does.
pub open spec fn tip_with(tip: Seq<u16>, units: Seq<u16>) -> Seq<u16> {
    Seq::new(
        tip.len(),
        |i: int|
            if i < units.len() && i < tip.len() - 1 {
                units[i]
            } else {
                tip[i]
            },
    )
}

/// What the notification area is told about an icon.
#[derive(Debug)]
pub struct TrayIconData {
    flags: u32,
    callback_message: u32,
    icon: isize,
    tip: Vec<u16>,
}

impl TrayIconData {
    #[verifier::type_invariant]
    spec fn tip_is_whole(&self) -> bool {
        self.tip@.len() == TIP_LEN
    }

    /// The flags that say what is set.
    pub closed spec fn flags(&self) -> u32 {
        self.flags
    }

    /// The message that the icon sends.
    pub closed spec fn callback_message(&self) -> u32 {
        self.callback_message
    }

    /// The handle of the icon.
    pub closed spec fn icon(&self) -> isize {
        self.icon
    }

    /// The code units of the tooltip.
    pub closed spec fn tip(&self) -> Seq<u16> {
        self.tip@
    }

    /// Data that sets nothing: no flag, and a tooltip of zeros.
    pub fn new() -> (data: Self)
        ensures
            data.flags() == 0,
            data.callback_message() == 0,
            data.icon() == 0,
            data.tip() == Seq::new(TIP_LEN as nat, |i: int| 0u16),
    {
        let mut tip: Vec<u16> = Vec::new();
        let mut i: usize = 0;
        while i < TIP_LEN
            invariant
                i <= TIP_LEN,
                tip@ == Seq::new(i as nat, |j: int| 0u16),
            decreases TIP_LEN - i,
        {
            tip.push(0);
            i += 1;
        }
        TrayIconData { flags: 0, callback_message: 0, icon: 0, tip }
    }

    /// Sets the message that the icon sends.
    pub fn with_message(self, message: u32) -> (data: Self)
        ensures
            data.flags() == self.flags() | NIF_MESSAGE,
            data.callback_message() == message,
            data.icon() == self.icon(),
            data.tip() == self.tip(),
    {
        proof {
            use_type_invariant(&self);
        }
        TrayIconData {
            flags: self.flags | NIF_MESSAGE,
            callback_message: message,
            icon: self.icon,
            tip: self.tip,
        }
    }

    /// Sets the handle of the icon.
    pub fn with_icon(self, icon: isize) -> (data: Self)
        ensures
            data.flags() == self.flags() | NIF_ICON,
            data.callback_message() == self.callback_message(),
            data.icon() == icon,
            data.tip() == self.tip(),
    {
        proof {
            use_type_invariant(&self);
        }
        TrayIconData {
            flags: self.flags | NIF_ICON,
            callback_message: self.callback_message,
            icon,
            tip: self.tip,
        }
    }

    /// Sets the tooltip: its code units in UTF-16 go to the beginning of the
    /// tooltip, as many as fit before the last place.
    pub fn with_tooltip(self, tooltip: &str) -> (data: Self)
        ensures
            data.flags() == self.flags() | NIF_TIP,
            data.callback_message() == self.callback_message(),
            data.icon() == self.icon(),
            data.tip() == tip_with(self.tip(), utf16(tooltip@)),
    {
        proof {
            use_type_invariant(&self);
        }
        let units = utf16_units(tooltip);
        let mut tip = self.tip;
        let ghost before = tip@;
        let mut i: usize = 0;
        while i < units.len() && i < TIP_LEN - 1
            invariant
                tip@.len() == TIP_LEN,
                before.len() == TIP_LEN,
                i <= TIP_LEN - 1,
                i <= units@.len(),
                forall|j: int| 0 <= j < i ==> tip@[j] == units@[j],
                forall|j: int| i <= j < TIP_LEN ==> tip@[j] == before[j],
            decreases TIP_LEN - i,
        {
            tip.set(i, units[i]);
            i += 1;
        }
        TrayIconData {
            flags: self.flags | NIF_TIP,
            callback_message: self.callback_message,
            icon: self.icon,
            tip,
        }
    }

    /// The data for an icon with this tooltip and handle, as far as they are
    /// there.
    pub fn from_parts(tooltip: Option<&str>, icon: Option<isize>) -> (data: Self)
        ensures
            data.callback_message() == 0,
            data.flags() == (if tooltip is Some {
                NIF_TIP
            } else {
                0u32
            }) | (if icon is Some {
                NIF_ICON
            } else {
                0u32
            }),
            data.icon() == (match icon {
                Some(handle) => handle,
                None => 0,
            }),
            data.tip() == (match tooltip {
                Some(text) => tip_with(Seq::new(TIP_LEN as nat, |i: int| 0u16), utf16(text@)),
                None => Seq::new(TIP_LEN as nat, |i: int| 0u16),
            }),
    {
        let data = TrayIconData::new();
        let data = match tooltip {
            Some(text) => data.with_tooltip(text),
            None => data,
        };
        let data = match icon {
            Some(handle) => data.with_icon(handle),
            None => data,
        };
        assert(0u32 | NIF_TIP == NIF_TIP && 0u32 | NIF_ICON == NIF_ICON && NIF_TIP | 0u32
            == NIF_TIP && 0u32 | 0u32 == 0u32) by (bit_vector);
        data
    }

    /// The flags that say what is set.
    pub fn get_flags(&self) -> (flags: u32)
        ensures
            flags == self.flags(),
    {
        self.flags
    }

    /// The message that the icon sends.
    pub fn get_callback_message(&self) -> (message: u32)
        ensures
            message == self.callback_message(),
    {
        self.callback_message
    }

    /// The handle of the icon.
    pub fn get_icon(&self) -> (icon: isize)
        ensures
            icon == self.icon(),
    {
        self.icon
    }

    /// The code units of the tooltip.
    pub fn get_tip(&self) -> (tip: &Vec<u16>)
        ensures
            tip@ == self.tip(),
            tip@.len() == TIP_LEN,
    {
        proof {
            use_type_invariant(self);
        }
        &self.tip
    }
}

} // verus!
