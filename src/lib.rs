//! Map-like containers keyed by a fixed, declared set of keys.
//!
//! Each declared key owns one slot of a fixed-capacity [`Container`]; the
//! i-th declared key addresses slot i. Lookups compare the supplied key with
//! the declared keys in declaration order, and the first match selects the
//! slot. [`FastMap`] reports an undeclared key as [`Error::KeyNotFound`];
//! [`EasyMap`] folds it into "no entry"; [`InfallibleMap`] only accepts
//! declared keys.
//!
//! A declaration (the wrapped container's shape plus its settings) is
//! resolved by [`declare`]. The laws that tie the operations together are
//! proof functions in `laws`. Verified callers reasoning about slot
//! positions want `broadcast use FastMap::lemma_slot_count;`.

mod container;
mod declaration;
mod error;
mod laws;
mod map;
mod modes;
mod values;

pub use container::{deref_opt, Container};
pub use declaration::{
    all_keys, container_args, declare, default_crate_name, first_crate_name, first_infallible,
    wrapped_args, Declaration, FieldShape, ItemShape, Setting,
};
pub use error::{ConfigError, Error};
pub use laws::{
    lemma_insert_overwrites, lemma_insert_then_get, lemma_insert_then_remove,
    lemma_occupied_is_filter, lemma_undeclared_key, lemma_values_are_occupied_slots,
};
pub use map::{deref_result, is_declared, lemma_slot_from, lemma_slot_of, slot_from, slot_of, FastMap};
pub use modes::{or_none, EasyMap, InfallibleMap};
pub use values::{derefs, lemma_occupied_skip, occupied, seq_deref, Values};
