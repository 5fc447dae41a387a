//! An in-memory directory of managed service units: their names, types,
//! lifecycle status and monitoring preference.
//!
//! `Registry` holds at most one entry per name and answers exact, substring
//! and by-type lookups; `model` states each operation over sequences of
//! entry values and proves the laws that relate them.

mod model;
mod registry;
mod text;
mod types;

pub use model::{
    entry_named, first_free, has_name, index_of, law_deregister_removes, law_first_free_unique,
    law_lookup_round_trip, law_register_unique, law_substring_filter, law_type_filter,
    law_update_status_only, law_watch_filter, lemma_index_of, lemma_taken_names_bound, named_like,
    names_unique, of_type, upsert, watched, with_status, without_name,
};
pub use registry::{views, Registry};
pub use text::{
    decimal, digit_char, lemma_decimal_injective, lemma_unit_name_injective, occurs_in, unit_name,
};
pub use types::{
    EntryView, Query, RegistryEntry, RegistryError, ServiceType, UnitStatus, UnitType, VmType,
};
