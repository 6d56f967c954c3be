//! Integer RGBA colors: construction from names, hex literals and HTML hex
//! strings, channel access, and channel reordering.
use vstd::prelude::*;
use vstd::string::StringSliceAdditionalSpecFns;

verus! {

/// Primary colors.
#[derive(Clone, Copy, Debug, PartialEq, Eq, Hash, Default, Structural)]
pub enum VxColorName {
    /// #FFFFFF
    #[default]
    White,
    /// #000000
    Black,
    /// #FF0000
    Red,
    /// #00FF00
    Green,
    /// #0000FF
    Blue,
    /// #00FFFF
    Cyan,
    /// #FF00FF
    Magenta,
    /// #FFFF00
    Yellow,
    /// #00000000
    Transparent,
}

/// Layout of the color channels.
#[derive(Clone, Copy, Debug, PartialEq, Eq, Hash, Default, Structural)]
pub enum VxColorChannel {
    /// R, G, B, A
    #[default]
    RGBA,
    /// A, R, G, B
    ARGB,
    /// B, G, R, A
    BGRA,
    /// A, B, G, R
    ABGR,
    /// G, R, B, A
    GRBA,
    /// R, B, G, A
    RBGA,
}

/// Channel swap operations.
#[derive(Clone, Copy, Debug, PartialEq, Default, Eq, Hash, Structural)]
pub enum VxColorChannelSwap {
    /// No swapping is performed.
    #[default]
    NoSwap,
    /// Swaps the R and G channels.
    SwapRG,
    /// Swaps the G and B channels.
    SwapGB,
    /// Swaps the B and A channels.
    SwapBA,
    /// Swaps the R and A channels.
    SwapRA,
    /// Swaps the R and B channels.
    SwapRB,
    /// Swaps the G and A channels.
    SwapGA,
}

/// Channels as `(r, g, b, a)`.
pub type VxRgba = (u8, u8, u8, u8);

// ---------------------------------------------------------------------------
// Specifications.
// ---------------------------------------------------------------------------

/// The channels of a named color.
pub open spec fn name_rgba(name: VxColorName) -> VxRgba {
    match name {
        VxColorName::White => (255, 255, 255, 255),
        VxColorName::Black => (0, 0, 0, 255),
        VxColorName::Red => (255, 0, 0, 255),
        VxColorName::Green => (0, 255, 0, 255),
        VxColorName::Blue => (0, 0, 255, 255),
        VxColorName::Cyan => (0, 255, 255, 255),
        VxColorName::Magenta => (255, 0, 255, 255),
        VxColorName::Yellow => (255, 255, 0, 255),
        VxColorName::Transparent => (0, 0, 0, 0),
    }
}

/// Byte `k` of `hex`, counting from the least significant byte.
pub open spec fn hex_byte(hex: u32, k: nat) -> u8 {
    ((hex as nat / byte_weight(k)) % 256) as u8
}

/// The weight of byte `k`: 256 to the power `k`, for the four bytes of a `u32`.
pub open spec fn byte_weight(k: nat) -> nat {
    if k == 0 {
        1
    } else if k == 1 {
        0x100
    } else if k == 2 {
        0x1_0000
    } else {
        0x100_0000
    }
}

/// `0xRRGGBBAA` read as `(r, g, b, a)`.
pub open spec fn hex_rgba(hex: u32) -> VxRgba {
    (hex_byte(hex, 3), hex_byte(hex, 2), hex_byte(hex, 1), hex_byte(hex, 0))
}

/// `(r, g, b, a)` written as `0xRRGGBBAA`.
pub open spec fn rgba_hex(c: VxRgba) -> u32 {
    (c.0 as nat * 0x100_0000 + c.1 as nat * 0x1_0000 + c.2 as nat * 0x100 + c.3 as nat) as u32
}

/// The channels after a swap.
pub open spec fn swapped_rgba(mode: VxColorChannelSwap, c: VxRgba) -> VxRgba {
    let (r, g, b, a) = c;
    match mode {
        VxColorChannelSwap::NoSwap => (r, g, b, a),
        VxColorChannelSwap::SwapRG => (g, r, b, a),
        VxColorChannelSwap::SwapGB => (r, b, g, a),
        VxColorChannelSwap::SwapRB => (b, g, r, a),
        VxColorChannelSwap::SwapRA => (a, g, b, r),
        VxColorChannelSwap::SwapGA => (r, a, b, g),
        VxColorChannelSwap::SwapBA => (r, g, a, b),
    }
}

/// The channels reordered into the given layout.
pub open spec fn channel_rgba(mode: VxColorChannel, c: VxRgba) -> VxRgba {
    let (r, g, b, a) = c;
    match mode {
        VxColorChannel::RGBA => (r, g, b, a),
        VxColorChannel::ARGB => (a, r, g, b),
        VxColorChannel::BGRA => (b, g, r, a),
        VxColorChannel::ABGR => (a, b, g, r),
        VxColorChannel::GRBA => (g, r, b, a),
        VxColorChannel::RBGA => (r, b, g, a),
    }
}

/// Value of an ASCII hexadecimal digit.
pub open spec fn hex_digit(c: u8) -> Option<u8> {
    if 0x30 <= c <= 0x39 {
        Some((c - 0x30) as u8)
    } else if 0x61 <= c <= 0x66 {
        Some((c - 0x61 + 10) as u8)
    } else if 0x41 <= c <= 0x46 {
        Some((c - 0x41 + 10) as u8)
    } else {
        None
    }
}

/// A two-byte string read as a base-16 `u8`: both bytes hexadecimal digits,
/// or a `+` sign followed by one digit.
pub open spec fn hex_pair(c0: u8, c1: u8) -> Option<u8> {
    if c0 == 0x2b {
        hex_digit(c1)
    } else {
        match (hex_digit(c0), hex_digit(c1)) {
            (Some(h), Some(l)) => Some((h * 16 + l) as u8),
            _ => None,
        }
    }
}

/// `s` with every leading `#` removed.
pub open spec fn trim_hashes(s: Seq<u8>) -> Seq<u8>
    decreases s.len(),
{
    if s.len() > 0 && s[0] == 0x23 {
        trim_hashes(s.drop_first())
    } else {
        s
    }
}

/// Byte offset `i` of `t` starts a character.
pub open spec fn starts_char(t: Seq<u8>, i: int) -> bool {
    i >= t.len() || !(0x80 <= t[i] <= 0xbf)
}

/// The lengths that an HTML hex color may have, `#` removed.
pub open spec fn html_len_ok(n: nat) -> bool {
    n == 3 || n == 4 || n == 6 || n == 8
}

/// The channels of an HTML hex color of valid length, `#` removed; `None`
/// when a channel is not a base-16 number.
pub open spec fn html_rgba(t: Seq<u8>) -> Option<VxRgba> {
    if t.len() == 3 || t.len() == 4 {
        let r = hex_pair(t[0], t[0]);
        let g = hex_pair(t[1], t[1]);
        let b = hex_pair(t[2], t[2]);
        let a = if t.len() == 4 {
            hex_pair(t[3], t[3])
        } else {
            Some(255u8)
        };
        if r is Some && g is Some && b is Some && a is Some {
            Some((r->0, g->0, b->0, a->0))
        } else {
            None
        }
    } else {
        let r = hex_pair(t[0], t[1]);
        let g = hex_pair(t[2], t[3]);
        let b = hex_pair(t[4], t[5]);
        let a = if t.len() == 8 {
            hex_pair(t[6], t[7])
        } else {
            Some(255u8)
        };
        if r is Some && g is Some && b is Some && a is Some {
            Some((r->0, g->0, b->0, a->0))
        } else {
            None
        }
    }
}

/// Reading the channels one after another, slicing the string at a byte
/// offset that falls inside a character before a channel has failed: the
/// inputs on which string slicing would abort.
pub open spec fn html_slices_inside_char(t: Seq<u8>) -> bool {
    if t.len() == 3 || t.len() == 4 {
        !starts_char(t, 1) || (hex_pair(t[0], t[0]) is Some && (!starts_char(t, 2) || (hex_pair(
            t[1],
            t[1],
        ) is Some && !starts_char(t, 3))))
    } else if t.len() == 6 || t.len() == 8 {
        !starts_char(t, 2) || (hex_pair(t[0], t[1]) is Some && (!starts_char(t, 4) || (hex_pair(
            t[2],
            t[3],
        ) is Some && !starts_char(t, 6))))
    } else {
        false
    }
}

// ---------------------------------------------------------------------------
// Shared helpers.
// ---------------------------------------------------------------------------

/// The channels of a named color.
pub fn name_to_color(name: VxColorName) -> (r: VxRgba)
    ensures
        r == name_rgba(name),
{
    match name {
        VxColorName::White => (255, 255, 255, 255),
        VxColorName::Black => (0, 0, 0, 255),
        VxColorName::Red => (255, 0, 0, 255),
        VxColorName::Green => (0, 255, 0, 255),
        VxColorName::Blue => (0, 0, 255, 255),
        VxColorName::Cyan => (0, 255, 255, 255),
        VxColorName::Magenta => (255, 0, 255, 255),
        VxColorName::Yellow => (255, 255, 0, 255),
        VxColorName::Transparent => (0, 0, 0, 0),
    }
}

fn hex_digit_value(c: u8) -> (r: Option<u8>)
    ensures
        r == hex_digit(c),
{
    if 0x30 <= c && c <= 0x39 {
        Some(c - 0x30)
    } else if 0x61 <= c && c <= 0x66 {
        Some(c - 0x61 + 10)
    } else if 0x41 <= c && c <= 0x46 {
        Some(c - 0x41 + 10)
    } else {
        None
    }
}

/// Reads a two-byte string as a base-16 `u8`.
fn parse_hex_pair(c0: u8, c1: u8) -> (r: Option<u8>)
    ensures
        r == hex_pair(c0, c1),
{
    if c0 == 0x2b {
        return hex_digit_value(c1);
    }
    match (hex_digit_value(c0), hex_digit_value(c1)) {
        (Some(h), Some(l)) => Some(h * 16 + l),
        _ => None,
    }
}

/// Parses an HTML hex color (`RGB`, `RGBA`, `RRGGBB` or `RRGGBBAA`, any
/// number of leading `#`). Each channel is read as by `u8::from_str_radix`
/// with radix 16, so a channel written `+F` reads as 15.
pub fn html_to_color(hex: &str) -> (r: Result<VxRgba, &'static str>)
    requires
        !html_slices_inside_char(trim_hashes(hex.spec_bytes())),
    ensures
        !html_len_ok(trim_hashes(hex.spec_bytes()).len()) ==> (r matches Err(e) && e@
            == "Invalid hex length"@),
        html_len_ok(trim_hashes(hex.spec_bytes()).len()) ==> match html_rgba(
            trim_hashes(hex.spec_bytes()),
        ) {
            Some(c) => r == Ok::<VxRgba, &'static str>(c),
            None => r matches Err(e) && e@ == "Invalid hex"@,
        },
{
    let bytes = hex.as_bytes();
    let n = bytes.len();
    let mut p: usize = 0;
    assert(bytes@.skip(0) =~= bytes@);
    while p < n && bytes[p] == 0x23
        invariant
            p <= n,
            n == bytes@.len(),
            trim_hashes(bytes@.skip(p as int)) == trim_hashes(bytes@),
        decreases n - p,
    {
        assert(bytes@.skip(p as int).drop_first() =~= bytes@.skip(p + 1));
        p = p + 1;
    }
    let ghost t = bytes@.skip(p as int);
    assert(trim_hashes(t) == t);
    let len = n - p;
    if len == 3 || len == 4 {
        let r = match parse_hex_pair(bytes[p], bytes[p]) {
            Some(v) => v,
            None => return Err("Invalid hex"),
        };
        let g = match parse_hex_pair(bytes[p + 1], bytes[p + 1]) {
            Some(v) => v,
            None => return Err("Invalid hex"),
        };
        let b = match parse_hex_pair(bytes[p + 2], bytes[p + 2]) {
            Some(v) => v,
            None => return Err("Invalid hex"),
        };
        let a = if len == 4 {
            match parse_hex_pair(bytes[p + 3], bytes[p + 3]) {
                Some(v) => v,
                None => return Err("Invalid hex"),
            }
        } else {
            255
        };
        Ok((r, g, b, a))
    } else if len == 6 || len == 8 {
        let r = match parse_hex_pair(bytes[p], bytes[p + 1]) {
            Some(v) => v,
            None => return Err("Invalid hex"),
        };
        let g = match parse_hex_pair(bytes[p + 2], bytes[p + 3]) {
            Some(v) => v,
            None => return Err("Invalid hex"),
        };
        let b = match parse_hex_pair(bytes[p + 4], bytes[p + 5]) {
            Some(v) => v,
            None => return Err("Invalid hex"),
        };
        let a = if len == 8 {
            match parse_hex_pair(bytes[p + 6], bytes[p + 7]) {
                Some(v) => v,
                None => return Err("Invalid hex"),
            }
        } else {
            255
        };
        Ok((r, g, b, a))
    } else {
        Err("Invalid hex length")
    }
}

/// Whether reading `hex` as an HTML color would slice it inside a character:
/// the inputs that `html_to_color` leaves out, on which string slicing aborts.
pub fn html_slicing_inside_char(hex: &str) -> (r: bool)
    ensures
        r == html_slices_inside_char(trim_hashes(hex.spec_bytes())),
{
    let bytes = hex.as_bytes();
    let n = bytes.len();
    let mut p: usize = 0;
    assert(bytes@.skip(0) =~= bytes@);
    while p < n && bytes[p] == 0x23
        invariant
            p <= n,
            n == bytes@.len(),
            trim_hashes(bytes@.skip(p as int)) == trim_hashes(bytes@),
        decreases n - p,
    {
        assert(bytes@.skip(p as int).drop_first() =~= bytes@.skip(p + 1));
        p = p + 1;
    }
    let ghost t = bytes@.skip(p as int);
    assert(trim_hashes(t) == t);
    let len = n - p;
    if len == 3 || len == 4 {
        let b1 = !(0x80 <= bytes[p + 1] && bytes[p + 1] <= 0xbf);
        let b2 = !(0x80 <= bytes[p + 2] && bytes[p + 2] <= 0xbf);
        let b3 = len == 3 || !(0x80 <= bytes[p + 3] && bytes[p + 3] <= 0xbf);
        let c0 = parse_hex_pair(bytes[p], bytes[p]).is_some();
        let c1 = parse_hex_pair(bytes[p + 1], bytes[p + 1]).is_some();
        !b1 || (c0 && (!b2 || (c1 && !b3)))
    } else if len == 6 || len == 8 {
        let b2 = !(0x80 <= bytes[p + 2] && bytes[p + 2] <= 0xbf);
        let b4 = !(0x80 <= bytes[p + 4] && bytes[p + 4] <= 0xbf);
        let b6 = len == 6 || !(0x80 <= bytes[p + 6] && bytes[p + 6] <= 0xbf);
        let c0 = parse_hex_pair(bytes[p], bytes[p + 1]).is_some();
        let c1 = parse_hex_pair(bytes[p + 2], bytes[p + 3]).is_some();
        !b2 || (c0 && (!b4 || (c1 && !b6)))
    } else {
        false
    }
}

/// `0xRRGGBB` read as a color; alpha is 255.
pub fn hex_to_color(hex: u32) -> (r: VxRgba)
    ensures
        r == (hex_byte(hex, 2), hex_byte(hex, 1), hex_byte(hex, 0), 255u8),
{
    proof {
        lemma_hex_bytes(hex);
    }
    let r = ((hex >> 16) & 0xFF) as u8;
    let g = ((hex >> 8) & 0xFF) as u8;
    let b = (hex & 0xFF) as u8;
    (r, g, b, 255)
}

/// `0xRRGGBBAA` read as a color.
pub fn hex_to_color_with_alpha(hex: u32) -> (r: VxRgba)
    ensures
        r == hex_rgba(hex),
{
    proof {
        lemma_hex_bytes(hex);
    }
    ((hex >> 24) as u8, (hex >> 16) as u8, (hex >> 8) as u8, hex as u8)
}

/// The bytes of a `0xRRGGBBAA` literal, as shifts and masks.
proof fn lemma_hex_bytes(hex: u32)
    ensures
        hex_byte(hex, 3) == (hex >> 24) as u8,
        hex_byte(hex, 2) == (hex >> 16) as u8,
        hex_byte(hex, 2) == ((hex >> 16) & 0xFF) as u8,
        hex_byte(hex, 1) == (hex >> 8) as u8,
        hex_byte(hex, 1) == ((hex >> 8) & 0xFF) as u8,
        hex_byte(hex, 0) == hex as u8,
        hex_byte(hex, 0) == (hex & 0xFF) as u8,
{
    assert((hex >> 24) as u8 == ((hex as nat / 0x100_0000) % 256) as u8) by (bit_vector);
    assert((hex >> 16) as u8 == ((hex as nat / 0x1_0000) % 256) as u8) by (bit_vector);
    assert(((hex >> 16) & 0xFF) as u8 == ((hex as nat / 0x1_0000) % 256) as u8) by (bit_vector);
    assert((hex >> 8) as u8 == ((hex as nat / 0x100) % 256) as u8) by (bit_vector);
    assert(((hex >> 8) & 0xFF) as u8 == ((hex as nat / 0x100) % 256) as u8) by (bit_vector);
    assert(hex as u8 == ((hex as nat / 1) % 256) as u8) by (bit_vector);
    assert((hex & 0xFF) as u8 == ((hex as nat / 1) % 256) as u8) by (bit_vector);
}

/// Reading a color written as `0xRRGGBBAA` gives its channels back.
pub proof fn law_hex_round_trip(c: VxRgba)
    ensures
        hex_rgba(rgba_hex(c)) == c,
{
    let h = rgba_hex(c);
    let (r, g, b, a) = c;
    assert(h as nat == r as nat * 0x100_0000 + g as nat * 0x1_0000 + b as nat * 0x100 + a as nat);
    lemma_hex_bytes(h);
    assert((((r as u32) << 24) | ((g as u32) << 16) | ((b as u32) << 8) | (a as u32)) as nat == r as nat
        * 0x100_0000 + g as nat * 0x1_0000 + b as nat * 0x100 + a as nat) by (bit_vector);
    let h2 = ((r as u32) << 24) | ((g as u32) << 16) | ((b as u32) << 8) | (a as u32);
    assert(h2 == h);
    assert((h2 >> 24) as u8 == r) by (bit_vector)
        requires h2 == ((r as u32) << 24) | ((g as u32) << 16) | ((b as u32) << 8) | (a as u32);
    assert((h2 >> 16) as u8 == g) by (bit_vector)
        requires h2 == ((r as u32) << 24) | ((g as u32) << 16) | ((b as u32) << 8) | (a as u32);
    assert((h2 >> 8) as u8 == b) by (bit_vector)
        requires h2 == ((r as u32) << 24) | ((g as u32) << 16) | ((b as u32) << 8) | (a as u32);
    assert(h2 as u8 == a) by (bit_vector)
        requires h2 == ((r as u32) << 24) | ((g as u32) << 16) | ((b as u32) << 8) | (a as u32);
}

/// Writing the channels of `0xRRGGBBAA` gives the number back.
pub proof fn law_rgba_round_trip(hex: u32)
    ensures
        rgba_hex(hex_rgba(hex)) == hex,
{
    lemma_hex_bytes(hex);
    let c = hex_rgba(hex);
    assert((((hex >> 24) as u8) as nat * 0x100_0000 + ((hex >> 16) as u8) as nat * 0x1_0000
        + ((hex >> 8) as u8) as nat * 0x100 + (hex as u8) as nat) == hex as nat) by (bit_vector);
}

/// The channels of `hex` after a swap.
pub fn swap_color(swap_mode: VxColorChannelSwap, hex: u32) -> (r: VxRgba)
    ensures
        r == swapped_rgba(swap_mode, hex_rgba(hex)),
{
    let (r, g, b, a) = hex_to_color_with_alpha(hex);
    match swap_mode {
        VxColorChannelSwap::NoSwap => (r, g, b, a),
        VxColorChannelSwap::SwapRG => (g, r, b, a),
        VxColorChannelSwap::SwapGB => (r, b, g, a),
        VxColorChannelSwap::SwapRB => (b, g, r, a),
        VxColorChannelSwap::SwapRA => (a, g, b, r),
        VxColorChannelSwap::SwapGA => (r, a, b, g),
        VxColorChannelSwap::SwapBA => (r, g, a, b),
    }
}

/// The channels of `hex` reordered into a layout.
pub fn change_channel(channel_mode: VxColorChannel, hex: u32) -> (r: VxRgba)
    ensures
        r == channel_rgba(channel_mode, hex_rgba(hex)),
{
    let (r, g, b, a) = hex_to_color_with_alpha(hex);
    match channel_mode {
        VxColorChannel::RGBA => (r, g, b, a),
        VxColorChannel::ARGB => (a, r, g, b),
        VxColorChannel::BGRA => (b, g, r, a),
        VxColorChannel::ABGR => (a, b, g, r),
        VxColorChannel::GRBA => (g, r, b, a),
        VxColorChannel::RBGA => (r, b, g, a),
    }
}

// ---------------------------------------------------------------------------
// VxColorU8
// ---------------------------------------------------------------------------

/// A color with `u8` RGBA channels in `[0, 255]`.
#[derive(Clone, Copy, Debug, PartialEq, Eq, Ord, PartialOrd, Hash, Structural)]
pub struct VxColorU8 {
    r: u8,
    g: u8,
    b: u8,
    a: u8,
}

impl View for VxColorU8 {
    type V = VxRgba;

    closed spec fn view(&self) -> VxRgba {
        (self.r, self.g, self.b, self.a)
    }
}

impl Default for VxColorU8 {
    /// Opaque black.
    fn default() -> (c: Self)
        ensures
            c@ == (0u8, 0u8, 0u8, 255u8),
    {
        Self::rgb(0, 0, 0)
    }
}

impl VxColorU8 {
    /// An opaque color.
    pub fn rgb(r: u8, g: u8, b: u8) -> (c: Self)
        ensures
            c@ == (r, g, b, 255u8),
    {
        Self { r, g, b, a: 255 }
    }

    /// A color with alpha.
    pub fn rgba(r: u8, g: u8, b: u8, a: u8) -> (c: Self)
        ensures
            c@ == (r, g, b, a),
    {
        Self { r, g, b, a }
    }

    /// A named color.
    pub fn from_name(name: VxColorName) -> (c: Self)
        ensures
            c@ == name_rgba(name),
    {
        let (r, g, b, a) = name_to_color(name);
        Self::rgba(r, g, b, a)
    }

    /// A color from an HTML hex string: `RGB`, `RGBA`, `RRGGBB` or
    /// `RRGGBBAA`, with an optional `#` prefix.
    pub fn from_html(hex: &str) -> (c: Result<Self, &'static str>)
        requires
            !html_slices_inside_char(trim_hashes(hex.spec_bytes())),
        ensures
            !html_len_ok(trim_hashes(hex.spec_bytes()).len()) ==> (c matches Err(e) && e@
                == "Invalid hex length"@),
            html_len_ok(trim_hashes(hex.spec_bytes()).len()) ==> match html_rgba(
                trim_hashes(hex.spec_bytes()),
            ) {
                Some(v) => c matches Ok(col) && col@ == v,
                None => c matches Err(e) && e@ == "Invalid hex"@,
            },
    {
        match html_to_color(hex) {
            Ok((r, g, b, a)) => Ok(Self::rgba(r, g, b, a)),
            Err(reason) => Err(reason),
        }
    }

    /// A color from a `0xRRGGBB` literal; alpha is 255.
    pub fn from_hex(hex: u32) -> (c: Self)
        ensures
            c@ == (hex_byte(hex, 2), hex_byte(hex, 1), hex_byte(hex, 0), 255u8),
    {
        let (r, g, b, a) = hex_to_color(hex);
        Self::rgba(r, g, b, a)
    }

    /// A color from a `0xRRGGBBAA` literal.
    pub fn from_hex_with_alpha(hex: u32) -> (c: Self)
        ensures
            c@ == hex_rgba(hex),
    {
        let (r, g, b, a) = hex_to_color_with_alpha(hex);
        Self::rgba(r, g, b, a)
    }

    /// The red channel.
    pub fn red(&self) -> (r: u8)
        ensures
            r == self@.0,
    {
        self.r
    }

    /// The green channel.
    pub fn green(&self) -> (g: u8)
        ensures
            g == self@.1,
    {
        self.g
    }

    /// The blue channel.
    pub fn blue(&self) -> (b: u8)
        ensures
            b == self@.2,
    {
        self.b
    }

    /// The alpha channel.
    pub fn alpha(&self) -> (a: u8)
        ensures
            a == self@.3,
    {
        self.a
    }

    /// The channels as `(r, g, b, a)`.
    pub fn to_tuple(&self) -> (t: VxRgba)
        ensures
            t == self@,
    {
        (self.red(), self.green(), self.blue(), self.alpha())
    }

    /// The RGB channels.
    pub fn to_array(&self) -> (t: [u8; 3])
        ensures
            t@ == seq![self@.0, self@.1, self@.2],
    {
        let t = [self.red(), self.green(), self.blue()];
        assert(t@ =~= seq![self@.0, self@.1, self@.2]);
        t
    }

    /// The RGBA channels.
    pub fn to_array_with_alpha(&self) -> (t: [u8; 4])
        ensures
            t@ == seq![self@.0, self@.1, self@.2, self@.3],
    {
        let t = [self.red(), self.green(), self.blue(), self.alpha()];
        assert(t@ =~= seq![self@.0, self@.1, self@.2, self@.3]);
        t
    }

    /// The color as `0xRRGGBBAA`.
    pub fn to_hex(&self) -> (h: u32)
        ensures
            h == rgba_hex(self@),
    {
        (self.r as u32) * 0x100_0000 + (self.g as u32) * 0x1_0000 + (self.b as u32) * 0x100 + (self.a as u32)
    }

    /// Sets the red channel.
    pub fn set_red(&mut self, r: u8)
        ensures
            final(self)@ == (r, old(self)@.1, old(self)@.2, old(self)@.3),
    {
        self.r = r;
    }

    /// Sets the green channel.
    pub fn set_green(&mut self, g: u8)
        ensures
            final(self)@ == (old(self)@.0, g, old(self)@.2, old(self)@.3),
    {
        self.g = g;
    }

    /// Sets the blue channel.
    pub fn set_blue(&mut self, b: u8)
        ensures
            final(self)@ == (old(self)@.0, old(self)@.1, b, old(self)@.3),
    {
        self.b = b;
    }

    /// Sets the alpha channel.
    pub fn set_alpha(&mut self, a: u8)
        ensures
            final(self)@ == (old(self)@.0, old(self)@.1, old(self)@.2, a),
    {
        self.a = a;
    }

    /// Sets all four channels.
    pub fn set_rgba(&mut self, r: u8, g: u8, b: u8, a: u8)
        ensures
            final(self)@ == (r, g, b, a),
    {
        self.set_red(r);
        self.set_green(g);
        self.set_blue(b);
        self.set_alpha(a);
    }

    /// This color with another red channel.
    pub fn with_red(self, r: u8) -> (c: Self)
        ensures
            c@ == (r, self@.1, self@.2, self@.3),
    {
        let mut c = self;
        c.r = r;
        c
    }

    /// This color with another green channel.
    pub fn with_green(self, g: u8) -> (c: Self)
        ensures
            c@ == (self@.0, g, self@.2, self@.3),
    {
        let mut c = self;
        c.g = g;
        c
    }

    /// This color with another blue channel.
    pub fn with_blue(self, b: u8) -> (c: Self)
        ensures
            c@ == (self@.0, self@.1, b, self@.3),
    {
        let mut c = self;
        c.b = b;
        c
    }

    /// This color with another alpha channel.
    pub fn with_alpha(self, a: u8) -> (c: Self)
        ensures
            c@ == (self@.0, self@.1, self@.2, a),
    {
        let mut c = self;
        c.a = a;
        c
    }

    /// Swaps two channels.
    pub fn swap_channel(&mut self, swap_mode: VxColorChannelSwap)
        ensures
            final(self)@ == swapped_rgba(swap_mode, old(self)@),
    {
        proof {
            law_hex_round_trip(self@);
        }
        let (r, g, b, a) = swap_color(swap_mode, self.to_hex());
        self.set_rgba(r, g, b, a);
    }

    /// Reorders the channels into a layout.
    pub fn set_color_channel(&mut self, channel_mode: VxColorChannel)
        ensures
            final(self)@ == channel_rgba(channel_mode, old(self)@),
    {
        proof {
            law_hex_round_trip(self@);
        }
        let (r, g, b, a) = change_channel(channel_mode, self.to_hex());
        self.set_rgba(r, g, b, a);
    }
}

/// The upper-case hexadecimal digit of `n`.
pub open spec fn hex_upper_char(n: u8) -> char {
    if n == 0 { '0' } else if n == 1 { '1' } else if n == 2 { '2' } else if n == 3 { '3' }
    else if n == 4 { '4' } else if n == 5 { '5' } else if n == 6 { '6' } else if n == 7 { '7' }
    else if n == 8 { '8' } else if n == 9 { '9' } else if n == 10 { 'A' } else if n == 11 { 'B' }
    else if n == 12 { 'C' } else if n == 13 { 'D' } else if n == 14 { 'E' } else { 'F' }
}

/// A byte as two upper-case hexadecimal digits.
pub open spec fn hex_byte_chars(b: u8) -> Seq<char> {
    seq![hex_upper_char(b / 16), hex_upper_char(b % 16)]
}

/// A color written `#RRGGBBAA`.
pub open spec fn color_html(c: VxRgba) -> Seq<char> {
    seq!['#'] + hex_byte_chars(c.0) + hex_byte_chars(c.1) + hex_byte_chars(c.2) + hex_byte_chars(c.3)
}

/// The digit of a nibble as a one-character string.
fn hex_digit_str(n: u8) -> (s: &'static str)
    requires
        n < 16,
    ensures
        s@ == seq![hex_upper_char(n)],
{
    proof {
        reveal_strlit("0");
        reveal_strlit("1");
        reveal_strlit("2");
        reveal_strlit("3");
        reveal_strlit("4");
        reveal_strlit("5");
        reveal_strlit("6");
        reveal_strlit("7");
        reveal_strlit("8");
        reveal_strlit("9");
        reveal_strlit("A");
        reveal_strlit("B");
        reveal_strlit("C");
        reveal_strlit("D");
        reveal_strlit("E");
        reveal_strlit("F");
    }
    if n == 0 { "0" } else if n == 1 { "1" } else if n == 2 { "2" } else if n == 3 { "3" }
    else if n == 4 { "4" } else if n == 5 { "5" } else if n == 6 { "6" } else if n == 7 { "7" }
    else if n == 8 { "8" } else if n == 9 { "9" } else if n == 10 { "A" } else if n == 11 { "B" }
    else if n == 12 { "C" } else if n == 13 { "D" } else if n == 14 { "E" } else { "F" }
}

impl VxColorU8 {
    /// The color written `#RRGGBBAA`, as it prints.
    pub fn to_string(&self) -> (s: String)
        ensures
            s@ == color_html(self@),
    {
        proof {
            reveal_strlit("#");
        }
        let mut s = String::from_str("#");
        s.append(hex_digit_str(self.r / 16));
        s.append(hex_digit_str(self.r % 16));
        s.append(hex_digit_str(self.g / 16));
        s.append(hex_digit_str(self.g % 16));
        s.append(hex_digit_str(self.b / 16));
        s.append(hex_digit_str(self.b % 16));
        s.append(hex_digit_str(self.a / 16));
        s.append(hex_digit_str(self.a % 16));
        assert(s@ =~= color_html(self@));
        s
    }
}

/// The color with the given channels.
pub closed spec fn color_of(c: VxRgba) -> VxColorU8 {
    VxColorU8 { r: c.0, g: c.1, b: c.2, a: c.3 }
}

/// A color is its channels.
pub proof fn lemma_color_of(c: VxRgba)
    ensures
        color_of(c)@ == c,
        forall|x: VxColorU8| x@ == c ==> x == color_of(c),
{
}

impl From<(u8, u8, u8)> for VxColorU8 {
    /// An opaque color from `(r, g, b)`.
    fn from(v: (u8, u8, u8)) -> (c: Self) {
        Self::rgb(v.0, v.1, v.2)
    }
}

impl vstd::std_specs::convert::FromSpecImpl<(u8, u8, u8)> for VxColorU8 {
    open spec fn obeys_from_spec() -> bool {
        true
    }

    open spec fn from_spec(v: (u8, u8, u8)) -> Self {
        color_of((v.0, v.1, v.2, 255u8))
    }
}

impl From<(u8, u8, u8, u8)> for VxColorU8 {
    /// A color from `(r, g, b, a)`.
    fn from(v: (u8, u8, u8, u8)) -> (c: Self) {
        Self::rgba(v.0, v.1, v.2, v.3)
    }
}

impl vstd::std_specs::convert::FromSpecImpl<(u8, u8, u8, u8)> for VxColorU8 {
    open spec fn obeys_from_spec() -> bool {
        true
    }

    open spec fn from_spec(v: (u8, u8, u8, u8)) -> Self {
        color_of(v)
    }
}

impl From<[u8; 3]> for VxColorU8 {
    /// An opaque color from `[r, g, b]`.
    fn from(v: [u8; 3]) -> (c: Self) {
        Self::rgb(v[0], v[1], v[2])
    }
}

impl vstd::std_specs::convert::FromSpecImpl<[u8; 3]> for VxColorU8 {
    open spec fn obeys_from_spec() -> bool {
        true
    }

    open spec fn from_spec(v: [u8; 3]) -> Self {
        color_of((v@[0], v@[1], v@[2], 255u8))
    }
}

impl From<[u8; 4]> for VxColorU8 {
    /// A color from `[r, g, b, a]`.
    fn from(v: [u8; 4]) -> (c: Self) {
        Self::rgba(v[0], v[1], v[2], v[3])
    }
}

impl vstd::std_specs::convert::FromSpecImpl<[u8; 4]> for VxColorU8 {
    open spec fn obeys_from_spec() -> bool {
        true
    }

    open spec fn from_spec(v: [u8; 4]) -> Self {
        color_of((v@[0], v@[1], v@[2], v@[3]))
    }
}

impl From<u32> for VxColorU8 {
    /// An opaque color from a `0xRRGGBB` literal.
    fn from(v: u32) -> (c: Self) {
        Self::from_hex(v)
    }
}

impl vstd::std_specs::convert::FromSpecImpl<u32> for VxColorU8 {
    open spec fn obeys_from_spec() -> bool {
        true
    }

    open spec fn from_spec(v: u32) -> Self {
        color_of((hex_byte(v, 2), hex_byte(v, 1), hex_byte(v, 0), 255u8))
    }
}

impl From<VxColorName> for VxColorU8 {
    /// A named color.
    fn from(v: VxColorName) -> (c: Self) {
        Self::from_name(v)
    }
}

impl vstd::std_specs::convert::FromSpecImpl<VxColorName> for VxColorU8 {
    open spec fn obeys_from_spec() -> bool {
        true
    }

    open spec fn from_spec(v: VxColorName) -> Self {
        color_of(name_rgba(v))
    }
}

/// The bytes of an ASCII string.
pub open spec fn ascii_bytes(s: Seq<char>) -> Seq<u8> {
    s.map_values(|ch: char| ch as u8)
}

/// An upper-case hex digit is printable, is no `#` or `+`, and reads back
/// as its value.
proof fn lemma_hex_upper_digit(n: u8)
    requires
        n < 16,
    ensures
        hex_digit(hex_upper_char(n) as u8) == Some(n),
        0x20 <= hex_upper_char(n) as u8 <= 0x7e,
        hex_upper_char(n) as u8 != 0x23,
        hex_upper_char(n) as u8 != 0x2b,
{
}

/// A color printed as `#RRGGBBAA` reads back as the same color.
pub proof fn law_printed_color_parses_back(c: VxRgba)
    ensures
        html_len_ok(trim_hashes(ascii_bytes(color_html(c))).len()),
        !html_slices_inside_char(trim_hashes(ascii_bytes(color_html(c)))),
        html_rgba(trim_hashes(ascii_bytes(color_html(c)))) == Some(c),
{
    let b = ascii_bytes(color_html(c));
    let t = b.drop_first();
    lemma_hex_upper_digit(c.0 / 16);
    lemma_hex_upper_digit(c.0 % 16);
    lemma_hex_upper_digit(c.1 / 16);
    lemma_hex_upper_digit(c.1 % 16);
    lemma_hex_upper_digit(c.2 / 16);
    lemma_hex_upper_digit(c.2 % 16);
    lemma_hex_upper_digit(c.3 / 16);
    lemma_hex_upper_digit(c.3 % 16);
    assert(b.len() == 9);
    assert(b[0] == 0x23);
    assert(t.len() == 8);
    assert(t[0] != 0x23);
    assert(trim_hashes(b) == t) by {
        reveal_with_fuel(trim_hashes, 2);
    }
    assert(t[0] == hex_upper_char(c.0 / 16) as u8);
    assert(t[1] == hex_upper_char(c.0 % 16) as u8);
    assert(t[2] == hex_upper_char(c.1 / 16) as u8);
    assert(t[3] == hex_upper_char(c.1 % 16) as u8);
    assert(t[4] == hex_upper_char(c.2 / 16) as u8);
    assert(t[5] == hex_upper_char(c.2 % 16) as u8);
    assert(t[6] == hex_upper_char(c.3 / 16) as u8);
    assert(t[7] == hex_upper_char(c.3 % 16) as u8);
    assert(hex_pair(t[0], t[1]) == Some(c.0));
    assert(hex_pair(t[2], t[3]) == Some(c.1));
    assert(hex_pair(t[4], t[5]) == Some(c.2));
    assert(hex_pair(t[6], t[7]) == Some(c.3));
}

/// Channel-wise sum; no channel may exceed 255.
impl std::ops::Add for VxColorU8 {
    type Output = Self;

    fn add(self, rhs: Self) -> (c: Self) {
        Self::rgba(self.r + rhs.r, self.g + rhs.g, self.b + rhs.b, self.a + rhs.a)
    }
}

impl vstd::std_specs::ops::AddSpecImpl for VxColorU8 {
    open spec fn obeys_add_spec() -> bool {
        true
    }

    open spec fn add_req(self, rhs: Self) -> bool {
        &&& self@.0 + rhs@.0 <= 255
        &&& self@.1 + rhs@.1 <= 255
        &&& self@.2 + rhs@.2 <= 255
        &&& self@.3 + rhs@.3 <= 255
    }

    open spec fn add_spec(self, rhs: Self) -> Self {
        color_of(
            (
                (self@.0 + rhs@.0) as u8,
                (self@.1 + rhs@.1) as u8,
                (self@.2 + rhs@.2) as u8,
                (self@.3 + rhs@.3) as u8,
            ),
        )
    }
}

/// Channel-wise product; no channel may exceed 255.
impl std::ops::Mul for VxColorU8 {
    type Output = Self;

    fn mul(self, rhs: Self) -> (c: Self) {
        Self::rgba(self.r * rhs.r, self.g * rhs.g, self.b * rhs.b, self.a * rhs.a)
    }
}

impl vstd::std_specs::ops::MulSpecImpl for VxColorU8 {
    open spec fn obeys_mul_spec() -> bool {
        true
    }

    open spec fn mul_req(self, rhs: Self) -> bool {
        &&& self@.0 * rhs@.0 <= 255
        &&& self@.1 * rhs@.1 <= 255
        &&& self@.2 * rhs@.2 <= 255
        &&& self@.3 * rhs@.3 <= 255
    }

    open spec fn mul_spec(self, rhs: Self) -> Self {
        color_of(
            (
                (self@.0 * rhs@.0) as u8,
                (self@.1 * rhs@.1) as u8,
                (self@.2 * rhs@.2) as u8,
                (self@.3 * rhs@.3) as u8,
            ),
        )
    }
}

/// Swapping the same pair of channels twice restores the color.
pub proof fn law_swap_is_involution(mode: VxColorChannelSwap, c: VxRgba)
    ensures
        swapped_rgba(mode, swapped_rgba(mode, c)) == c,
{
}

} // verus!
