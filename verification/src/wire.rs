//! Numbers as bytes, in the byte order of the machine.

use vstd::prelude::*;

verus! {

/// The four bytes of a number, in the given order: lowest first where `little`
/// holds, highest first otherwise.
pub open spec fn bytes_of(x: u32, little: bool) -> Seq<u8> {
    let b0 = (x as int % 256) as u8;
    let b1 = (x as int / 256 % 256) as u8;
    let b2 = (x as int / 65536 % 256) as u8;
    let b3 = (x as int / 16777216) as u8;
    if little {
        seq![b0, b1, b2, b3]
    } else {
        seq![b3, b2, b1, b0]
    }
}

/// `u32::to_ne_bytes` gives the bytes of a number in the order of the machine.
/// Which of the two orders that is depends on the machine, and is not said.
#[verifier::external_body]
fn ne_bytes(x: u32) -> (r: Vec<u8>)
    ensures
        r@ == bytes_of(x, true) || r@ == bytes_of(x, false),
{
    x.to_ne_bytes().to_vec()
}

/// Whether the machine puts the lowest byte first. What it is on a given machine
/// is not said.
pub(crate) fn lowest_first() -> (little: bool) {
    let b = ne_bytes(1);
    order_of_one(&b)
}

/// The order in which the bytes of the number one were written.
pub fn order_of_one(b: &Vec<u8>) -> (little: bool)
    requires
        b@ == bytes_of(1, true) || b@ == bytes_of(1, false),
    ensures
        b@ == bytes_of(1, little),
        little <==> b@ == bytes_of(1, true),
{
    assert(bytes_of(1, true)[0] == 1);
    assert(bytes_of(1, false)[0] == 0);
    b[0] == 1
}

/// Appends the bytes of a number in the given order.
pub fn push_u32(v: &mut Vec<u8>, x: u32, little: bool)
    ensures
        final(v)@ == old(v)@ + bytes_of(x, little),
{
    let b0: u8 = (x % 256) as u8;
    let b1: u8 = (x / 256 % 256) as u8;
    let b2: u8 = (x / 65536 % 256) as u8;
    let b3: u8 = (x / 16777216) as u8;
    if little {
        v.push(b0);
        v.push(b1);
        v.push(b2);
        v.push(b3);
    } else {
        v.push(b3);
        v.push(b2);
        v.push(b1);
        v.push(b0);
    }
    assert(v@ =~= old(v)@ + bytes_of(x, little));
}

/// The 16-bit number that two bytes make in the given order.
pub open spec fn u16_of(a: u8, b: u8, little: bool) -> int {
    if little {
        a + 256 * b
    } else {
        256 * a + b
    }
}

/// The 16-bit number that two bytes make in the given order.
pub fn read_u16(a: u8, b: u8, little: bool) -> (r: u16)
    ensures
        r == u16_of(a, b, little),
{
    if little {
        a as u16 + 256 * (b as u16)
    } else {
        256 * (a as u16) + b as u16
    }
}

/// The 32-bit number with a sign that the first four bytes make in the given
/// order.
pub open spec fn i32_of(b: Seq<u8>, little: bool) -> int {
    let u = if little {
        b[0] + 256 * b[1] + 65536 * b[2] + 16777216 * b[3]
    } else {
        b[3] + 256 * b[2] + 65536 * b[1] + 16777216 * b[0]
    };
    if u <= i32::MAX {
        u
    } else {
        u - 0x1_0000_0000
    }
}

/// The 32-bit number with a sign that four bytes from a place on make in the
/// given order.
pub fn read_i32(v: &Vec<u8>, at: usize, little: bool) -> (r: i32)
    requires
        at + 4 <= v@.len(),
    ensures
        r as int == i32_of(v@.skip(at as int), little),
{
    let n: usize = v.len();
    assert(at + 4 <= n);
    let (a, b, c, d) = if little {
        (v[at], v[at + 1], v[at + 2], v[at + 3])
    } else {
        (v[at + 3], v[at + 2], v[at + 1], v[at])
    };
    let u: i64 = a as i64 + 256 * (b as i64) + 65536 * (c as i64) + 16777216 * (d as i64);
    if u <= i32::MAX as i64 {
        u as i32
    } else {
        (u - 0x1_0000_0000) as i32
    }
}

/// In either order different numbers have different bytes.
pub proof fn law_bytes_distinct(x: u32, y: u32, little: bool)
    ensures
        bytes_of(x, little) == bytes_of(y, little) ==> x == y,
        bytes_of(x, little).len() == 4,
{
    law_bytes_read_back(x, little, 0, 0);
    law_bytes_read_back(y, little, 0, 0);
}

/// A number written as bytes reads back as itself in the same order; the two orders
/// are each other's reverse, and the lowest byte comes first in the one that is
/// called so.
pub proof fn law_bytes_read_back(x: u32, little: bool, a: u8, b: u8)
    ensures
        x <= i32::MAX ==> i32_of(bytes_of(x, little), little) == x,
        x > i32::MAX ==> i32_of(bytes_of(x, little), little) == x - 0x1_0000_0000,
        bytes_of(x, true) == bytes_of(x, false).reverse(),
        bytes_of(x, true)[0] == x % 256,
        bytes_of(x, false)[3] == x % 256,
        u16_of(a, b, true) == a + 256 * b,
        u16_of(a, b, little) == u16_of(b, a, !little),
{
    assert(bytes_of(x, true) =~= bytes_of(x, false).reverse());
}

} // verus!
