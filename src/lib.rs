//! An in-memory fuzzing corpus: test cases stored under stable ids, split into an
//! enabled and a disabled partition, each kept in insertion order.

mod baby_executor;
mod corpus_id;
mod error;
mod harness;
mod inmemory;
mod laws;
mod nautilus;
mod ordered_map;
mod scheduler;
mod slot_index;
mod sorted_keys;
mod storage;
mod storage_map;
mod testcase;

pub use baby_executor::{CustomExecutor, ExitKind};
pub use corpus_id::CorpusId;
pub use error::Error;
pub use harness::{do_thing, start_fuzzing_single};
pub use inmemory::InMemoryCorpus;
pub use laws::{
    law_add_then_remove, law_disable_then_enable, law_double_disable, law_fresh_push_ascends,
    law_ids_unique, law_partition, law_peek_then_add, law_variants_agree, lemma_ascending_unique,
};
pub use nautilus::{NautilusInput, NodeId, RuleId, RuleIdOrCustom, Tree};
pub use ordered_map::OrderedStorageMap;
pub use scheduler::QueueScheduler;
pub use storage::TestcaseStorage;
pub use storage_map::{TestcaseStorageItem, TestcaseStorageMap};
pub use testcase::{BytesInput, Testcase};
