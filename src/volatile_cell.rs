//! Volatile access to one display cell. Every load and store of the grid goes
//! through these, so none of them is cached, merged or dropped by the compiler.

use vstd::prelude::*;
use volatile::Volatile;

verus! {

#[verifier::external_type_specification]
#[verifier::external_body]
#[verifier::reject_recursive_types(T)]
pub struct ExVolatile<T: Copy>(Volatile<T>);

/// The two-byte value that a volatile cell holds.
pub uninterp spec fn volatile_value(v: Volatile<u16>) -> u16;

/// Relies on volatile::Volatile::new: the new cell holds `value`.
#[verifier::external_body]
pub(crate) fn new_cell(value: u16) -> (r: Volatile<u16>)
    ensures
        volatile_value(r) == value,
{
    Volatile::new(value)
}

/// Relies on volatile::Volatile::read: a volatile load returns the value held.
#[verifier::external_body]
pub(crate) fn read_cell(cell: &Volatile<u16>) -> (r: u16)
    ensures
        r == volatile_value(*cell),
{
    cell.read()
}

/// Relies on volatile::Volatile::write: after a volatile store the cell holds `value`.
#[verifier::external_body]
pub(crate) fn write_cell(cell: &mut Volatile<u16>, value: u16)
    ensures
        volatile_value(*final(cell)) == value,
{
    cell.write(value)
}

} // verus!
