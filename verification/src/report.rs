//! The linker-side report: one line per peripheral instance binding its
//! link symbol to its hardware base address, in model order, for an
//! external linker-script generator to consume.
//!
//! Each line reads `<symbol> = 0x<address>`, the address as exactly eight
//! lowercase hexadecimal digits.

use vstd::prelude::*;

use crate::model::Device;
use crate::names::{link_symbol, link_symbol_of};

verus! {

/// The lowercase hexadecimal digit of a value below 16.
pub open spec fn nibble_char(n: u32) -> char
    recommends
        n < 16,
{
    if n < 10 {
        ((0x30u32 + n) as u8) as char
    } else {
        ((87u32 + n) as u8) as char
    }
}

/// The eight lowercase hexadecimal digits of a 32-bit value, highest
/// nibble first.
pub open spec fn hex8_of(v: u32) -> Seq<char> {
    Seq::new(8, |i: int| nibble_char((v >> (((7 - i) * 4) as u32)) & 0xf))
}

/// Relies on `String::push`: appends exactly the one given character.
#[verifier::external_body]
fn push_char(s: &mut String, c: char)
    ensures
        final(s)@ == old(s)@.push(c),
{
    s.push(c);
}

/// Formats a 32-bit value as eight lowercase hexadecimal digits.
pub fn hex8(v: u32) -> (r: String)
    ensures
        r@ == hex8_of(v),
{
    let mut s = String::new();
    let mut k: usize = 0;
    while k < 8
        invariant
            k <= 8,
            s@ == hex8_of(v).take(k as int),
        decreases 8 - k,
    {
        let shift: u32 = (7 - (k as u32)) * 4;
        let nib: u32 = (v >> shift) & 0xf;
        proof {
            assert((v >> shift) & 0xf < 16u32) by (bit_vector);
        }
        let c: char = if nib < 10 {
            ((0x30u32 + nib) as u8) as char
        } else {
            ((87u32 + nib) as u8) as char
        };
        proof {
            assert(shift == ((7 - k as int) * 4) as u32);
            assert(c == nibble_char(nib));
            assert(hex8_of(v)[k as int] == c);
            assert(hex8_of(v).take(k as int + 1) =~= hex8_of(v).take(k as int).push(c));
        }
        push_char(&mut s, c);
        k = k + 1;
    }
    proof {
        assert(hex8_of(v).take(8) =~= hex8_of(v));
    }
    s
}

/// The report line of one peripheral instance: its link symbol, then its
/// base address as eight hexadecimal digits.
pub open spec fn link_line_of(dev: Seq<char>, pname: Seq<char>, addr: u32) -> Seq<char> {
    link_symbol_of(dev, pname) + " = 0x"@ + hex8_of(addr)
}

/// Builds the linker report of a device: one line per peripheral
/// instance, derived aliases included, in model order.
pub fn gen_link_mem(device: &Device) -> (r: Vec<String>)
    ensures
        r@.len() == device.peripherals@.len(),
        forall|i: int|
            0 <= i < r@.len() ==> (#[trigger] r@[i])@ == link_line_of(
                device.name@,
                device.peripherals@[i].name@,
                device.peripherals@[i].base_address,
            ),
{
    let mut lines: Vec<String> = Vec::new();
    let mut i: usize = 0;
    while i < device.peripherals.len()
        invariant
            i <= device.peripherals@.len(),
            lines@.len() == i,
            forall|j: int|
                0 <= j < i ==> (#[trigger] lines@[j])@ == link_line_of(
                    device.name@,
                    device.peripherals@[j].name@,
                    device.peripherals@[j].base_address,
                ),
        decreases device.peripherals@.len() - i,
    {
        let p = &device.peripherals[i];
        let mut line = link_symbol(device.name.as_str(), p.name.as_str());
        line.append(" = 0x");
        let digits = hex8(p.base_address);
        line.append(digits.as_str());
        lines.push(line);
        i = i + 1;
    }
    lines
}

} // verus!
