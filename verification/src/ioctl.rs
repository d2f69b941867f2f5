//! FreeBSD ioctl request numbers: direction, parameter length, group and
//! number packed into 32 bits.

use vstd::prelude::*;

verus! {

pub const IOCPARM_MASK: u32 = 0x1fff;
pub const IOC_VOID: u32 = 0x2000_0000;
pub const IOC_OUT: u32 = 0x4000_0000;
pub const IOC_IN: u32 = 0x8000_0000;
pub const IOC_INOUT: u32 = 0xc000_0000;

/// A request with direction bits `dir`, a parameter of `size` bytes (its
/// low 13 bits), group `group` and number `number`.
pub open spec fn ioc(dir: u32, group: u8, number: u8, size: usize) -> u32 {
    dir | (((size as u32) & IOCPARM_MASK) << 16u32) | ((group as u32) << 8u32) | (number as u32)
}

/// A request that reads a parameter of `size` bytes out of the kernel.
pub fn ior(group: u8, number: u8, size: usize) -> (r: u32)
    ensures
        r == ioc(IOC_OUT, group, number, size),
{
    IOC_OUT | (((size as u32) & IOCPARM_MASK) << 16u32) | ((group as u32) << 8u32) | (number as u32)
}

/// A request without a parameter.
pub fn io(group: u8, number: u8) -> (r: u32)
    ensures
        r == IOC_VOID | ((group as u32) << 8u32) | (number as u32),
{
    IOC_VOID | ((group as u32) << 8u32) | (number as u32)
}

/// A request that writes a parameter of `size` bytes into the kernel.
pub fn iow(group: u8, number: u8, size: usize) -> (r: u32)
    ensures
        r == ioc(IOC_IN, group, number, size),
{
    IOC_IN | (((size as u32) & IOCPARM_MASK) << 16u32) | ((group as u32) << 8u32) | (number as u32)
}

/// A request that passes a parameter of `size` bytes both ways.
pub fn iowr(group: u8, number: u8, size: usize) -> (r: u32)
    ensures
        r == ioc(IOC_INOUT, group, number, size),
{
    IOC_INOUT | (((size as u32) & IOCPARM_MASK) << 16u32) | ((group as u32) << 8u32) | (number as u32)
}

/// The request for a disk's media size (`DIOCGMEDIASIZE`): read 8 bytes,
/// group `d`, number 129.
pub fn diocgmediasize() -> (r: u32)
    ensures
        r == ioc(IOC_OUT, 100, 129, 8),
        r == 0x4008_6481,
{
    let r = ior(100, 129, 8);
    assert(ioc(IOC_OUT, 100u8, 129u8, 8usize) == 0x4008_6481u32) by (bit_vector);
    r
}

/// The request for a disk's sector size (`DIOCGSECTORSIZE`): read 4 bytes,
/// group `d`, number 128.
pub fn diocgsectorsize() -> (r: u32)
    ensures
        r == ioc(IOC_OUT, 100, 128, 4),
        r == 0x4004_6480,
{
    let r = ior(100, 128, 4);
    assert(ioc(IOC_OUT, 100u8, 128u8, 4usize) == 0x4004_6480u32) by (bit_vector);
    r
}

/// The `vm.loadavg` sysctl: three load averages in fixed point and their
/// scale.
#[derive(Copy, Clone, Debug)]
pub struct loadavg {
    pub ldavg: [u32; 3],
    pub fscale: i64,
}

pub const VM_LOADAVG: i32 = 2;

} // verus!
