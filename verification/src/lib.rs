//! A registry of living objects.
//!
//! An [`Inventory`] hands out a [`TrackedObject`], a handle, for every value
//! that it is asked to track. The object is alive for as long as one of its
//! handles is held, and a snapshot taken with [`Inventory::list`] holds
//! handles like any other. With its last handle an object leaves the registry
//! by itself.
//!
//! Behind the lock of a registry lies its ledger, [`Items`]: the number of
//! objects that are alive, and a weak reference to each object. The ledger
//! is plain data, and its contracts say exactly what each operation does to
//! it. Two things they leave open, because they lie with the other holders of
//! the handles: whether an object is still alive when the ledger looks at its
//! weak reference, and which ledger a thread finds behind the lock. The
//! contracts of the ledger therefore speak of every outcome of a look, the
//! module [`laws`] says what follows for a listing and for a sweep, and the
//! contracts of the registry say what holds whatever the lock protects.
//!
//! What is taken from `std::sync` without proof stands in the modules
//! [`sync`] and [`weak`].

pub mod inventory;
pub mod laws;
pub mod ledger;
pub mod object;
pub mod sync;
pub mod weak;

pub use inventory::Inventory;
pub use ledger::Items;
pub use object::TrackedObject;
pub use weak::WeakRef;
