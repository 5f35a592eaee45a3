use vstd::prelude::*;

verus! {

/// Port a sender connects to when none is given.
pub const DEFAULT_PORT: u16 = 9000;

/// How many destination addresses the history keeps by default.
pub const DEFAULT_HISTORY_SIZE: usize = 5;

/// The sender's settings.
pub struct Cfg {
    default_port: u16,
    max_history: usize,
}

impl Cfg {
    pub closed spec fn port_view(&self) -> u16 {
        self.default_port
    }

    pub closed spec fn history_size_view(&self) -> usize {
        self.max_history
    }

    /// The settings in force when none are stored.
    pub fn new() -> (r: Cfg)
        ensures
            r.port_view() == DEFAULT_PORT,
            r.history_size_view() == DEFAULT_HISTORY_SIZE,
    {
        Cfg { default_port: DEFAULT_PORT, max_history: DEFAULT_HISTORY_SIZE }
    }

    pub fn get_port(&self) -> (r: u16)
        ensures
            r == self.port_view(),
    {
        self.default_port
    }

    pub fn get_history_size(&self) -> (r: usize)
        ensures
            r == self.history_size_view(),
    {
        self.max_history
    }

    pub fn set_port(&mut self, port: u16)
        ensures
            final(self).port_view() == port,
            final(self).history_size_view() == old(self).history_size_view(),
    {
        self.default_port = port;
    }

    pub fn set_history_size(&mut self, size: usize)
        ensures
            final(self).history_size_view() == size,
            final(self).port_view() == old(self).port_view(),
    {
        self.max_history = size;
    }
}

} // verus!
