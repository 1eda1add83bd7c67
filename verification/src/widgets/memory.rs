//! Memory and swap use, and the processes that use the most memory.
use vstd::prelude::*;

use crate::data::types::{MemoryData, ProcessInfo, clone_infos, infos_view};

verus! {

pub fn default_true() -> (r: bool)
    ensures
        r,
{
    true
}

pub fn default_process_count() -> (r: usize)
    ensures
        r == 5,
{
    5
}

/// Settings of the memory widget.
#[derive(Debug)]
pub struct MemoryConfig {
    pub show_swap: bool,
    pub show_processes: bool,
    /// How many of the top processes to list.
    pub process_count: usize,
}

impl Default for MemoryConfig {
    fn default() -> (r: Self)
        ensures
            r.show_swap,
            r.show_processes,
            r.process_count == 5,
    {
        MemoryConfig { show_swap: default_true(), show_processes: default_true(), process_count: default_process_count() }
    }
}

#[derive(Debug)]
pub struct MemoryWidget {
    pub id: String,
    pub config: MemoryConfig,
    pub total_mem: u64,
    pub used_mem: u64,
    pub total_swap: u64,
    pub used_swap: u64,
    pub top_processes: Vec<ProcessInfo>,
}

impl MemoryWidget {
    /// A widget with the given settings (the defaults when there are none)
    /// and no reading yet.
    pub fn new(id: String, config: Option<MemoryConfig>) -> (r: Self)
        ensures
            r.id == id,
            config matches Some(c) ==> r.config == c,
            config is None ==> r.config.show_swap && r.config.show_processes && r.config.process_count == 5,
            r.total_mem == 0 && r.used_mem == 0 && r.total_swap == 0 && r.used_swap == 0,
            r.top_processes@.len() == 0,
    {
        let config = match config {
            Some(c) => c,
            None => MemoryConfig::default(),
        };
        MemoryWidget { id, config, total_mem: 0, used_mem: 0, total_swap: 0, used_swap: 0, top_processes: Vec::new() }
    }

    pub fn id(&self) -> (r: &str)
        ensures
            r@ == self.id@,
    {
        self.id.as_str()
    }

    pub fn name(&self) -> (r: &'static str)
        ensures
            r@ == "Memory"@,
    {
        "Memory"
    }

    pub fn widget_type(&self) -> (r: &'static str)
        ensures
            r@ == "memory"@,
    {
        "memory"
    }

    /// Takes in a reading, keeping the first `process_count` processes.
    pub fn apply(&mut self, data: &MemoryData)
        ensures
            final(self).id == old(self).id,
            final(self).config == old(self).config,
            final(self).total_mem == data.total_mem,
            final(self).used_mem == data.used_mem,
            final(self).total_swap == data.total_swap,
            final(self).used_swap == data.used_swap,
            infos_view(final(self).top_processes@) == (if data.top_processes@.len() > old(self).config.process_count {
                infos_view(data.top_processes@).take(old(self).config.process_count as int)
            } else {
                infos_view(data.top_processes@)
            }),
    {
        self.total_mem = data.total_mem;
        self.used_mem = data.used_mem;
        self.total_swap = data.total_swap;
        self.used_swap = data.used_swap;
        self.top_processes = clone_infos(&data.top_processes, self.config.process_count);
    }

    /// The smallest area the widget draws in: taller when it lists processes.
    pub fn min_size(&self) -> (r: (u16, u16))
        ensures
            r == (if self.config.show_processes { (20u16, 10u16) } else { (20u16, 4u16) }),
    {
        if self.config.show_processes {
            (20, 10)
        } else {
            (20, 4)
        }
    }

    /// The swap gauge is drawn: enabled and there is swap.
    pub fn shows_swap(&self) -> (r: bool)
        ensures
            r == (self.config.show_swap && self.total_swap > 0),
    {
        self.config.show_swap && self.total_swap > 0
    }
}

} // verus!
