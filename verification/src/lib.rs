//! Sv32 virtual-memory management, verified against an explicit machine model.
//!
//! The crate models the state a paging layer manipulates — physical frames,
//! the frame allocator's bookkeeping, and the address-translation registers —
//! as one explicit [`machine::Machine`] value, and implements the two-level
//! (Sv32) page-table operations over it: typed page-table entries with their
//! flag semantics, map / unmap / lookup walks of an active table, and the
//! lifecycle of an inactive address space (bare creation, kernel mapping,
//! activation token, scoped editing, destruction).

pub mod active;
pub mod entry;
pub mod inactive;
pub mod machine;
pub mod pte;
