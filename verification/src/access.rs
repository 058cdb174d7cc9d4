//! Opening drives: the device path of a drive, and the sizes that the
//! operating system's geometry queries report.

use vstd::prelude::*;
use crate::bytes::{le_u32, le_u64, read_le_u32, read_le_u64};
use crate::names::{strip_end, utf8_len};
use crate::text::{from_chars, to_chars};

verus! {

/// The backslash.
pub open spec fn backslash() -> spec_fn(char) -> bool {
    |c: char| c == '\\'
}

/// The device namespace prefix `\\.\`.
pub open spec fn device_prefix() -> Seq<char> {
    seq!['\\', '\\', '.', '\\']
}

/// The raw device path of a drive: `\\.\` before the drive without its
/// trailing backslashes (`C:\` and `C:` give `\\.\C:`), paths already in
/// that form unchanged.
pub open spec fn spec_device_path(p: Seq<char>) -> Seq<char> {
    if p.len() > 0 && p.last() == '\\' {
        device_prefix() + strip_end(p, backslash())
    } else if utf8_len(p) == 2 && p.len() >= 2 && p[1] == ':' {
        device_prefix() + p
    } else if p.len() >= 4 && p.subrange(0, 4) == device_prefix() {
        p
    } else {
        device_prefix() + p
    }
}

fn prefixed(v: &[char]) -> (s: String)
    ensures
        s@ == device_prefix() + v@,
{
    let pre: [char; 4] = ['\\', '\\', '.', '\\'];
    let mut all = vstd::slice::slice_to_vec(&pre);
    let mut i: usize = 0;
    while i < v.len()
        invariant
            i <= v@.len(),
            all@ == pre@ + v@.subrange(0, i as int),
        decreases v@.len() - i,
    {
        all.push(v[i]);
        i += 1;
    }
    assert(v@.subrange(0, v@.len() as int) =~= v@);
    assert(pre@ == device_prefix());
    from_chars(&all)
}

/// The raw device path of a drive (see [`spec_device_path`]).
pub fn device_path(drive_path: &str) -> (r: String)
    ensures
        r@ == spec_device_path(drive_path@),
{
    let v = to_chars(drive_path);
    let n = v.len();
    if n > 0 && v[n - 1] == '\\' {
        let mut j = n;
        assert(v@.subrange(0, n as int) =~= v@);
        while j > 0 && v[j - 1] == '\\'
            invariant
                j <= n,
                n == v@.len(),
                strip_end(v@, backslash()) == strip_end(v@.subrange(0, j as int), backslash()),
            decreases j,
        {
            assert(v@.subrange(0, j as int).drop_last() =~= v@.subrange(0, j - 1));
            j -= 1;
        }
        return prefixed(vstd::slice::slice_subrange(v.as_slice(), 0, j));
    }
    let width = crate::names::utf8_len_capped(&v, 3);
    if width == 2 && n >= 2 && v[1] == ':' {
        return prefixed(&v);
    }
    if n >= 4 && v[0] == '\\' && v[1] == '\\' && v[2] == '.' && v[3] == '\\' {
        assert(v@.subrange(0, 4) =~= device_prefix());
        return drive_path.to_owned();
    }
    proof {
        if n >= 4 && v@.subrange(0, 4) == device_prefix() {
            assert(v@.subrange(0, 4)[0] == v@[0]);
            assert(v@.subrange(0, 4)[1] == v@[1]);
            assert(v@.subrange(0, 4)[2] == v@[2]);
            assert(v@.subrange(0, 4)[3] == v@[3]);
        }
    }
    prefixed(&v)
}

/// Disk size in a `DISK_GEOMETRY_EX` answer: its `DiskSize` field, the
/// eight bytes at 24 that follow the 24-byte `DISK_GEOMETRY`, when the query
/// succeeded with at least 24 bytes.
pub open spec fn spec_geometry_ex_size(buf: Seq<u8>, ok: bool, returned: u32) -> Option<u64> {
    if ok && returned >= 24 && buf.len() >= 32 {
        Some(le_u64(buf, 24) as u64)
    } else {
        None
    }
}

/// Disk size in a `DISK_GEOMETRY_EX` answer (see [`spec_geometry_ex_size`]).
pub fn geometry_ex_size(buf: &[u8], ok: bool, returned: u32) -> (r: Option<u64>)
    ensures
        r == spec_geometry_ex_size(buf@, ok, returned),
{
    if ok && returned >= 24 && buf.len() >= 32 {
        Some(read_le_u64(buf, 24))
    } else {
        None
    }
}

/// Disk size in a `DISK_GEOMETRY` answer: bytes per sector, sectors per
/// track, tracks and media (32-bit fields at 8, 12, 16 and 20) multiplied,
/// when the query succeeded with at least 32 bytes.
pub open spec fn spec_geometry_size(buf: Seq<u8>, ok: bool, returned: u32) -> Option<int> {
    if ok && returned >= 32 && buf.len() >= 24 {
        Some(le_u32(buf, 8) * le_u32(buf, 12) * le_u32(buf, 16) * le_u32(buf, 20))
    } else {
        None
    }
}

/// Disk size in a `DISK_GEOMETRY` answer (see [`spec_geometry_size`]),
/// when the product fits in 64 bits.
pub fn geometry_size(buf: &[u8], ok: bool, returned: u32) -> (r: Option<u64>)
    requires
        spec_geometry_size(buf@, ok, returned) matches Some(s) ==> s <= u64::MAX,
    ensures
        match spec_geometry_size(buf@, ok, returned) {
            Some(s) => r == Some(s as u64),
            None => r is None,
        },
{
    if ok && returned >= 32 && buf.len() >= 24 {
        let a = read_le_u32(buf, 8);
        let b = read_le_u32(buf, 12);
        let c = read_le_u32(buf, 16);
        let d = read_le_u32(buf, 20);
        proof {
            assert(a * b * c * d <= u64::MAX);
            if c * d > 0 {
                assert(a * b <= a * b * (c * d)) by (nonlinear_arith)
                    requires
                        c * d >= 1,
                        a * b >= 0,
                ;
            }
            assert(a * b * c <= a * b * c * d || d == 0) by (nonlinear_arith)
                requires
                    a * b * c >= 0,
                    d >= 0,
            ;
            assert(a * b * (c * d) == a * b * c * d) by (nonlinear_arith);
        }
        if d == 0 || c == 0 || b == 0 || a == 0 {
            proof {
                assert(a * b * c * d == 0) by (nonlinear_arith)
                    requires
                        d == 0 || c == 0 || b == 0 || a == 0,
                ;
            }
            return Some(0);
        }
        proof {
            assert(a * b <= a * b * c * d) by (nonlinear_arith)
                requires
                    a >= 1,
                    b >= 1,
                    c >= 1,
                    d >= 1,
            ;
            assert(a * b * c <= a * b * c * d) by (nonlinear_arith)
                requires
                    a >= 1,
                    b >= 1,
                    c >= 1,
                    d >= 1,
            ;
        }
        Some(a * b * c * d)
    } else {
        None
    }
}

/// Partition size in a `VOLUME_DISK_EXTENTS` answer: the 64-bit size at 16
/// of the first extent, when the query succeeded with at least 24 bytes and
/// listed an extent.
pub open spec fn spec_volume_extent_size(buf: Seq<u8>, ok: bool, returned: u32) -> Option<u64> {
    if ok && returned >= 24 && buf.len() >= 24 && le_u32(buf, 0) > 0 {
        Some(le_u64(buf, 16) as u64)
    } else {
        None
    }
}

/// Partition size in a `VOLUME_DISK_EXTENTS` answer (see [`spec_volume_extent_size`]).
pub fn volume_extent_size(buf: &[u8], ok: bool, returned: u32) -> (r: Option<u64>)
    ensures
        r == spec_volume_extent_size(buf@, ok, returned),
{
    if ok && returned >= 24 && buf.len() >= 24 && read_le_u32(buf, 0) > 0 {
        Some(read_le_u64(buf, 16))
    } else {
        None
    }
}

/// The root directory of a drive for space queries: `C:` becomes `C:\`;
/// other paths are kept.
pub open spec fn spec_volume_root(p: Seq<char>) -> Seq<char> {
    if p.len() > 0 && p.last() == '\\' {
        p
    } else if utf8_len(p) == 2 && p.len() >= 2 && p[1] == ':' {
        p.push('\\')
    } else {
        p
    }
}

/// The root directory of a drive for space queries (see [`spec_volume_root`]).
pub fn volume_root_path(drive_path: &str) -> (r: String)
    ensures
        r@ == spec_volume_root(drive_path@),
{
    let v = to_chars(drive_path);
    let n = v.len();
    if n > 0 && v[n - 1] == '\\' {
        return drive_path.to_owned();
    }
    let width = crate::names::utf8_len_capped(&v, 3);
    if width == 2 && n >= 2 && v[1] == ':' {
        let mut r = drive_path.to_owned();
        crate::text::push_char(&mut r, '\\');
        return r;
    }
    drive_path.to_owned()
}

} // verus!
