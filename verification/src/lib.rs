//! An atomic reference cell: a container holding a single value that many
//! readers and writers share. Readers receive a stable, reference-counted
//! snapshot of the current value; writers replace the value with a function
//! of its current contents. An access controller arbitrates between the two
//! sides, either through a reader-writer lock or through a phased admission
//! scheme that batches writers into bounded write lines and grants waiting
//! readers a grace quota at the start of every write phase. A transaction
//! facility composes several cells into an all-or-nothing update ordered by
//! a global cell identifier.
//!
//! The crate verifies the core logic: the generation store that tracks every
//! allocation and reference count, the snapshot handles, the packed-word
//! admission arithmetic of the phased controller, the cell operations, and
//! the multi-cell transaction. The thread-level spin loops that drive the
//! controller concurrently live outside the verified library and call into
//! the step functions proved here.

pub mod access;
pub mod atomic;
pub mod mem;
pub mod sync;
pub mod value_ref;
