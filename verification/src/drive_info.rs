//! Drives: their kinds, their descriptions and human-readable sizes.

use vstd::prelude::*;
use crate::text::{hex_digit_upper, push_char, push_decimal, push_str, spec_decimal, utf16_lossy_of};

verus! {

/// Kind of a drive, as the operating system reports it.
#[derive(Clone, Copy, Debug, PartialEq, Eq, Structural)]
pub enum DriveType {
    Unknown,
    NoRootDir,
    Removable,
    Fixed,
    Network,
    CDRom,
    RamDisk,
}

/// The drive kind of a `GetDriveType` code.
pub open spec fn spec_drive_type(code: u32) -> DriveType {
    if code == 1 {
        DriveType::NoRootDir
    } else if code == 2 {
        DriveType::Removable
    } else if code == 3 {
        DriveType::Fixed
    } else if code == 4 {
        DriveType::Network
    } else if code == 5 {
        DriveType::CDRom
    } else if code == 6 {
        DriveType::RamDisk
    } else {
        DriveType::Unknown
    }
}

/// Description shown for each drive kind.
pub open spec fn spec_drive_type_name(t: DriveType) -> Seq<char> {
    match t {
        DriveType::Unknown => "Desconocido"@,
        DriveType::NoRootDir => "Sin directorio raíz"@,
        DriveType::Removable => "Extraíble (USB/SD)"@,
        DriveType::Fixed => "Disco Fijo"@,
        DriveType::Network => "Red"@,
        DriveType::CDRom => "CD/DVD"@,
        DriveType::RamDisk => "RAM Disk"@,
    }
}

impl DriveType {
    /// The drive kind of a `GetDriveType` code (unknown codes give `Unknown`).
    pub fn from_winapi(dtype: u32) -> (t: DriveType)
        ensures
            t == spec_drive_type(dtype),
    {
        match dtype {
            1 => DriveType::NoRootDir,
            2 => DriveType::Removable,
            3 => DriveType::Fixed,
            4 => DriveType::Network,
            5 => DriveType::CDRom,
            6 => DriveType::RamDisk,
            _ => DriveType::Unknown,
        }
    }

    /// Description of the drive kind.
    pub fn display_name(&self) -> (r: &'static str)
        ensures
            r@ == spec_drive_type_name(*self),
    {
        match self {
            DriveType::Unknown => "Desconocido",
            DriveType::NoRootDir => "Sin directorio raíz",
            DriveType::Removable => "Extraíble (USB/SD)",
            DriveType::Fixed => "Disco Fijo",
            DriveType::Network => "Red",
            DriveType::CDRom => "CD/DVD",
            DriveType::RamDisk => "RAM Disk",
        }
    }
}

pub const KB: u64 = 1024;

pub const MB: u64 = 1048576;

pub const GB: u64 = 1073741824;

pub const TB: u64 = 1099511627776;

/// 2^53: integers below it are exactly representable as `f64`.
pub open spec fn mantissa_limit() -> nat {
    0x20_0000_0000_0000
}

/// `n / d` rounded to the nearest integer, ties to even.
pub open spec fn round_half_even(n: nat, d: nat) -> nat {
    let q = n / d;
    let r = n % d;
    if 2 * r > d || (2 * r == d && q % 2 == 1) {
        q + 1
    } else {
        q
    }
}

/// The power of two (starting from `d`, doubling at most `fuel` times) that
/// brings `n` below 2^53.
pub open spec fn mantissa_scale(n: nat, d: nat, fuel: nat) -> nat
    decreases fuel,
{
    if fuel == 0 || n < d * mantissa_limit() {
        d
    } else {
        mantissa_scale(n, 2 * d, (fuel - 1) as nat)
    }
}

/// The exact value of `n as f64`: `n` rounded to 53 significant bits, ties to even.
pub open spec fn f64_of(n: nat) -> nat {
    let d = mantissa_scale(n, 1, 11);
    round_half_even(n, d) * d
}

/// `(n as f64) / unit` (exact, `unit` being a power of two) rounded to
/// hundredths, ties to even: the digits that `{:.2}` prints, times 100.
pub open spec fn hundredths(n: nat, unit: nat) -> nat {
    round_half_even(f64_of(n) * 100, unit)
}

/// `h / 100` written with two decimals.
pub open spec fn two_decimals(h: nat) -> Seq<char> {
    spec_decimal(h / 100) + seq!['.', hex_digit_upper((h % 100) / 10), hex_digit_upper(h % 10)]
}

/// Human-readable size: two decimals of TB (when `with_tb`), GB, MB or KB
/// (binary units), or whole bytes below 1 KB, followed by `unit_bytes` as the
/// name of bytes.
pub open spec fn spec_format_size_with(bytes: u64, with_tb: bool, unit_bytes: Seq<char>) -> Seq<char> {
    if with_tb && bytes >= TB {
        two_decimals(hundredths(bytes as nat, TB as nat)) + " TB"@
    } else if bytes >= GB {
        two_decimals(hundredths(bytes as nat, GB as nat)) + " GB"@
    } else if bytes >= MB {
        two_decimals(hundredths(bytes as nat, MB as nat)) + " MB"@
    } else if bytes >= KB {
        two_decimals(hundredths(bytes as nat, KB as nat)) + " KB"@
    } else {
        spec_decimal(bytes as nat) + unit_bytes
    }
}

/// Drive sizes: TB, GB, MB, KB with two decimals, or "N bytes".
pub open spec fn spec_format_size(bytes: u64) -> Seq<char> {
    spec_format_size_with(bytes, true, " bytes"@)
}

/// `n as f64` as an exact integer (see [`f64_of`]).
fn f64_value(n: u64) -> (r: u128)
    ensures
        r == f64_of(n as nat),
        r <= 0x1_0000_0000_0000_1000,
{
    let mut d: u64 = 1;
    let mut fuel: u64 = 11;
    while fuel > 0 && (n as u128) >= (d as u128) * 0x20_0000_0000_0000
        invariant
            1 <= d <= 4096,
            fuel <= 11,
            mantissa_scale(n as nat, 1, 11) == mantissa_scale(n as nat, d as nat, fuel as nat),
        decreases fuel,
    {
        d = d * 2;
        fuel = fuel - 1;
    }
    let q = n / d;
    let r = n % d;
    let rounded: u128 = if 2 * r > d || (2 * r == d && q % 2 == 1) {
        q as u128 + 1
    } else {
        q as u128
    };
    proof {
        assert(d * q + r == n) by (nonlinear_arith)
            requires
                q == n / d,
                r == n % d,
                d >= 1,
        ;
        assert(rounded * d <= n + d) by (nonlinear_arith)
            requires
                rounded <= q + 1,
                d * q + r == n,
                r >= 0,
        ;
    }
    let out = rounded * (d as u128);
    out
}

/// `(n as f64) / unit` rounded to hundredths, ties to even.
fn hundredths_of(n: u64, unit: u64) -> (h: u64)
    requires
        unit >= 1024,
        unit <= TB,
    ensures
        h == hundredths(n as nat, unit as nat),
{
    let f = f64_value(n);
    let x = f * 100;
    let u = unit as u128;
    let q = x / u;
    let r = x % u;
    proof {
        assert(q <= x / 1024) by (nonlinear_arith)
            requires
                q == x / u,
                u >= 1024,
                x >= 0,
        ;
    }
    let h: u128 = if 2 * r > u || (2 * r == u && q % 2 == 1) {
        q + 1
    } else {
        q
    };
    h as u64
}

/// Appends `h / 100` with two decimals to `s`.
fn push_two_decimals(s: &mut String, h: u64)
    ensures
        final(s)@ == old(s)@ + two_decimals(h as nat),
{
    push_decimal(s, h / 100);
    push_char(s, '.');
    let tens = ((h % 100) / 10) as u8;
    let units = (h % 10) as u8;
    push_char(s, (tens + 48) as char);
    push_char(s, (units + 48) as char);
    assert(final(s)@ =~= old(s)@ + two_decimals(h as nat)) by {
        assert(((tens + 48) as char) == hex_digit_upper(((h % 100) / 10) as nat));
        assert(((units + 48) as char) == hex_digit_upper((h % 10) as nat));
    }
}

/// Human-readable size with `unit_bytes` naming whole bytes (see [`spec_format_size_with`]).
pub fn format_size_with(bytes: u64, with_tb: bool, unit_bytes: &str) -> (s: String)
    ensures
        s@ == spec_format_size_with(bytes, with_tb, unit_bytes@),
{
    let mut s = String::new();
    if with_tb && bytes >= TB {
        push_two_decimals(&mut s, hundredths_of(bytes, TB));
        push_str(&mut s, " TB");
    } else if bytes >= GB {
        push_two_decimals(&mut s, hundredths_of(bytes, GB));
        push_str(&mut s, " GB");
    } else if bytes >= MB {
        push_two_decimals(&mut s, hundredths_of(bytes, MB));
        push_str(&mut s, " MB");
    } else if bytes >= KB {
        push_two_decimals(&mut s, hundredths_of(bytes, KB));
        push_str(&mut s, " KB");
    } else {
        push_decimal(&mut s, bytes);
        push_str(&mut s, unit_bytes);
    }
    assert(s@ =~= spec_format_size_with(bytes, with_tb, unit_bytes@));
    s
}

/// A drive and its space.
#[derive(Clone, Debug)]
pub struct DriveInfo {
    /// Drive path such as `C:`.
    pub path: String,
    pub drive_type: DriveType,
    pub total_bytes: u64,
    pub free_bytes: u64,
    pub used_bytes: u64,
    pub volume_label: String,
}

/// `a - b`, or zero when `b` is larger.
pub open spec fn saturating_sub(a: u64, b: u64) -> u64 {
    if a >= b {
        (a - b) as u64
    } else {
        0
    }
}

impl DriveInfo {
    /// Human-readable drive size (see [`spec_format_size`]).
    pub fn format_size(bytes: u64) -> (s: String)
        ensures
            s@ == spec_format_size(bytes),
    {
        format_size_with(bytes, true, " bytes")
    }

    /// The drive `letter:` with what the system reported of it: its kind,
    /// total and free bytes and volume label. Drives of unknown kind and
    /// without a root directory are left out.
    pub fn from_drive_letter(letter: char, drive_type: DriveType, total_bytes: u64, free_bytes: u64, volume_label: String) -> (r: Option<DriveInfo>)
        ensures
            (drive_type == DriveType::Unknown || drive_type == DriveType::NoRootDir) ==> r is None,
            !(drive_type == DriveType::Unknown || drive_type == DriveType::NoRootDir) ==> (r matches Some(d) && d.path@ == seq![letter, ':']
                && d.drive_type == drive_type && d.total_bytes == total_bytes && d.free_bytes == free_bytes
                && d.used_bytes == saturating_sub(total_bytes, free_bytes) && d.volume_label@ == volume_label@),
    {
        if drive_type == DriveType::Unknown || drive_type == DriveType::NoRootDir {
            return None;
        }
        let mut path = String::new();
        push_char(&mut path, letter);
        push_char(&mut path, ':');
        let used_bytes = if total_bytes >= free_bytes {
            total_bytes - free_bytes
        } else {
            0
        };
        assert(path@ =~= seq![letter, ':']);
        Some(DriveInfo { path, drive_type, total_bytes, free_bytes, used_bytes, volume_label })
    }
}

/// The drive letters present in a `GetLogicalDrives` bit mask, `A` first.
pub open spec fn spec_drive_letters(mask: u32, n: int) -> Seq<char>
    decreases n,
{
    if n <= 0 {
        Seq::empty()
    } else if (mask >> ((n - 1) as u32)) & 1 == 1 {
        spec_drive_letters(mask, n - 1).push(((65 + n - 1) as u32) as char)
    } else {
        spec_drive_letters(mask, n - 1)
    }
}

/// The drive letters whose bits (bit 0 for `A`, up to bit 25 for `Z`) are set in `mask`.
pub fn drive_letters(mask: u32) -> (r: Vec<char>)
    ensures
        r@ == spec_drive_letters(mask, 26),
{
    let mut r: Vec<char> = Vec::new();
    let mut i: u32 = 0;
    while i < 26
        invariant
            i <= 26,
            r@ == spec_drive_letters(mask, i as int),
        decreases 26 - i,
    {
        if (mask >> i) & 1 == 1 {
            let c = (65u8 + i as u8) as char;
            r.push(c);
        }
        i += 1;
    }
    r
}

/// A removable drive.
pub open spec fn removable() -> spec_fn(DriveInfo) -> bool {
    |d: DriveInfo| d.drive_type == DriveType::Removable
}

/// The removable drives among `drives`, in order.
pub open spec fn spec_removable(drives: Seq<DriveInfo>) -> Seq<DriveInfo> {
    drives.filter(removable())
}

/// The removable drives (USB sticks, SD cards) among `drives`, in order.
pub fn get_removable_drives(drives: Vec<DriveInfo>) -> (r: Vec<DriveInfo>)
    ensures
        r@ == spec_removable(drives@),
{
    let mut r: Vec<DriveInfo> = Vec::new();
    let mut rest = drives;
    let ghost all = rest@;
    let mut i: usize = 0;
    let n = rest.len();
    while i < n
        invariant
            i <= n,
            n == all.len(),
            rest@ == all.subrange(i as int, n as int),
            r@ == spec_removable(all.subrange(0, i as int)),
        decreases n - i,
    {
        let d = rest.remove(0);
        proof {
            assert(all.subrange(0, i + 1) =~= all.subrange(0, i as int).push(d));
            all.subrange(0, i as int).lemma_filter_push(d, removable());
        }
        if d.drive_type == DriveType::Removable {
            r.push(d);
        }
        i += 1;
        assert(rest@ =~= all.subrange(i as int, n as int));
    }
    assert(all.subrange(0, n as int) =~= all);
    r
}


/// `String::from_utf16_lossy`. Trusted: the function decodes UTF-16,
/// replacing each unpaired surrogate by U+FFFD (see [`utf16_lossy_of`]).
#[verifier::external_body]
fn utf16_lossy(units: &[u16]) -> (r: String)
    ensures
        r@ == utf16_lossy_of(units@),
{
    String::from_utf16_lossy(units)
}

/// Length of a NUL-terminated name in a buffer: up to the first 0, or 260.
pub open spec fn name_length(buf: Seq<u16>) -> int {
    match crate::bytes::first_match(|i: int| buf[i] == 0u16, 0, buf.len() as int) {
        Some(k) => k,
        None => 260,
    }
}

/// The volume label that `GetVolumeInformation` wrote into `buf` (of at
/// least 260 units), or `Sin etiqueta` when the query failed.
pub open spec fn spec_volume_label(buf: Seq<u16>, ok: bool) -> Seq<char> {
    if ok {
        utf16_lossy_of(buf.subrange(0, name_length(buf)))
    } else {
        "Sin etiqueta"@
    }
}

/// The volume label from the buffer of a `GetVolumeInformation` query (see [`spec_volume_label`]).
pub fn volume_label(buf: &[u16], ok: bool) -> (r: String)
    requires
        buf@.len() >= 260,
    ensures
        r@ == spec_volume_label(buf@, ok),
{
    if !ok {
        return "Sin etiqueta".to_owned();
    }
    let mut k: usize = 0;
    while k < buf.len() && buf[k] != 0
        invariant
            k <= buf@.len(),
            crate::bytes::first_match(|i: int| buf@[i] == 0u16, 0, buf@.len() as int)
                == crate::bytes::first_match(|i: int| buf@[i] == 0u16, k as int, buf@.len() as int),
        decreases buf@.len() - k,
    {
        k += 1;
    }
    let len = if k < buf.len() {
        k
    } else {
        260
    };
    proof {
        crate::bytes::lemma_first_match(|i: int| buf@[i] == 0u16, 0, buf@.len() as int);
    }
    utf16_lossy(vstd::slice::slice_subrange(buf, 0, len))
}

} // verus!
