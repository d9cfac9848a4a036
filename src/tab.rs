use vstd::prelude::*;

verus! {

/// The views of the dashboard, visited in a fixed cycle.
#[derive(Clone, Copy, Debug, PartialEq, Eq, Structural)]
pub enum Tab {
    Overview,
    Processes,
    Network,
}

impl Tab {
    /// The view that follows `self` in the cycle.
    pub open spec fn spec_next(self) -> Tab {
        match self {
            Tab::Overview => Tab::Processes,
            Tab::Processes => Tab::Network,
            Tab::Network => Tab::Overview,
        }
    }

    /// The view that precedes `self` in the cycle.
    pub open spec fn spec_previous(self) -> Tab {
        match self {
            Tab::Overview => Tab::Network,
            Tab::Processes => Tab::Overview,
            Tab::Network => Tab::Processes,
        }
    }

    pub fn next(&self) -> (r: Self)
        ensures
            r == self.spec_next(),
    {
        match self {
            Tab::Overview => Tab::Processes,
            Tab::Processes => Tab::Network,
            Tab::Network => Tab::Overview,
        }
    }

    pub fn previous(&self) -> (r: Self)
        ensures
            r == self.spec_previous(),
    {
        match self {
            Tab::Overview => Tab::Network,
            Tab::Processes => Tab::Overview,
            Tab::Network => Tab::Processes,
        }
    }
}

/// The cycle of views closes after three steps, and stepping back undoes a
/// step forward (and the other way round).
pub proof fn lemma_tab_cycle(t: Tab)
    ensures
        t.spec_next().spec_next().spec_next() == t,
        t.spec_next().spec_previous() == t,
        t.spec_previous().spec_next() == t,
{
}

} // verus!
