pub mod registry_list;
pub mod spsc_queue;
