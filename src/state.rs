use vstd::prelude::*;

use crate::network::{
    appended, push_history, sum_traffic, total_received, total_transmitted, InterfaceTraffic,
    HISTORY_CAPACITY,
};
use crate::process::{is_cpu_sorting_of, sort_by_cpu, ProcessInfo};
use crate::tab::Tab;

verus! {

/// What one refresh of the telemetry source reported: the processes in
/// enumeration order, and each interface's traffic since the previous refresh.
pub struct Telemetry {
    pub processes: Vec<ProcessInfo>,
    pub interfaces: Vec<InterfaceTraffic>,
}

/// The dashboard's state: the derived process table, the traffic history,
/// the active view and the quit flag.
pub struct App {
    pub processes: Vec<ProcessInfo>,
    pub network_history: Vec<(u128, u128)>,
    pub current_tab: Tab,
    pub should_quit: bool,
}

/// The history entry that a refresh contributes: its traffic summed over all
/// interfaces.
pub open spec fn traffic_entry(t: Telemetry) -> (u128, u128) {
    (total_received(t.interfaces@) as u128, total_transmitted(t.interfaces@) as u128)
}

impl App {
    /// The traffic history never holds more than `HISTORY_CAPACITY` entries.
    pub open spec fn history_bounded(self) -> bool {
        self.network_history@.len() <= HISTORY_CAPACITY
    }

    /// The state after the quit flag is set.
    pub open spec fn spec_quit(self) -> App {
        App { should_quit: true, ..self }
    }

    /// The state after one tick with telemetry `t`.
    pub open spec fn ticked(self, after: App, t: Telemetry) -> bool {
        &&& after.current_tab == self.current_tab
        &&& after.should_quit == self.should_quit
        &&& if self.current_tab == Tab::Processes {
            is_cpu_sorting_of(after.processes@, t.processes@)
        } else {
            after.processes == self.processes
        }
        &&& if self.current_tab == Tab::Network {
            after.network_history@ == appended(self.network_history@, traffic_entry(t))
        } else {
            after.network_history == self.network_history
        }
    }

    /// An empty state on the Overview view.
    pub fn new() -> (r: Self)
        ensures
            r.processes@.len() == 0,
            r.network_history@.len() == 0,
            r.current_tab == Tab::Overview,
            !r.should_quit,
            r.history_bounded(),
    {
        App {
            processes: Vec::new(),
            network_history: Vec::new(),
            current_tab: Tab::Overview,
            should_quit: false,
        }
    }

    /// Takes in one refresh: on the Processes view the process table is
    /// rebuilt from it, on the Network view its traffic is appended to the
    /// history; the data of the other views is left as it was.
    pub fn on_tick(&mut self, telemetry: Telemetry)
        ensures
            old(self).ticked(*final(self), telemetry),
            old(self).history_bounded() ==> final(self).history_bounded(),
    {
        let Telemetry { processes, interfaces } = telemetry;
        if self.current_tab == Tab::Processes {
            self.update_processes(processes);
        }
        if self.current_tab == Tab::Network {
            self.update_network(&interfaces);
        }
    }

    /// Replaces the process table with `raw` sorted by CPU usage, highest
    /// first, entries of equal usage in enumeration order.
    pub fn update_processes(&mut self, raw: Vec<ProcessInfo>)
        ensures
            is_cpu_sorting_of(final(self).processes@, raw@),
            final(self).network_history == old(self).network_history,
            final(self).current_tab == old(self).current_tab,
            final(self).should_quit == old(self).should_quit,
    {
        let mut sorted = raw;
        sort_by_cpu(&mut sorted);
        self.processes = sorted;
    }

    /// Appends the summed traffic of `interfaces` to the history, keeping its
    /// last `HISTORY_CAPACITY` entries.
    pub fn update_network(&mut self, interfaces: &Vec<InterfaceTraffic>)
        ensures
            final(self).network_history@ == appended(
                old(self).network_history@,
                (total_received(interfaces@) as u128, total_transmitted(interfaces@) as u128),
            ),
            final(self).history_bounded(),
            final(self).processes == old(self).processes,
            final(self).current_tab == old(self).current_tab,
            final(self).should_quit == old(self).should_quit,
    {
        let entry = sum_traffic(interfaces);
        push_history(&mut self.network_history, entry);
    }

    /// Moves to the next view of the cycle.
    pub fn next_tab(&mut self)
        ensures
            *final(self) == (App { current_tab: old(self).current_tab.spec_next(), ..*old(self) }),
    {
        self.current_tab = self.current_tab.next();
    }

    /// Moves to the previous view of the cycle.
    pub fn previous_tab(&mut self)
        ensures
            *final(self) == (App { current_tab: old(self).current_tab.spec_previous(), ..*old(self) }),
    {
        self.current_tab = self.current_tab.previous();
    }

    /// Sets the quit flag; nothing else changes.
    pub fn quit(&mut self)
        ensures
            *final(self) == old(self).spec_quit(),
    {
        self.should_quit = true;
    }
}

/// Setting the quit flag a second time leaves the state as the first time
/// did, with the flag set.
pub proof fn lemma_quit_idempotent(a: App)
    ensures
        a.spec_quit().spec_quit() == a.spec_quit(),
        a.spec_quit().should_quit,
{
}

/// Over any run of ticks, with any telemetry and any view, the traffic
/// history never holds more than `HISTORY_CAPACITY` entries: `states[k + 1]`
/// is what a tick with `samples[k]` made of `states[k]`.
pub proof fn lemma_history_stays_bounded(states: Seq<App>, samples: Seq<Telemetry>)
    requires
        states.len() == samples.len() + 1,
        states[0].history_bounded(),
        forall|k: int| 0 <= k < samples.len() ==> #[trigger] states[k].ticked(states[k + 1], samples[k]),
    ensures
        forall|k: int| 0 <= k < states.len() ==> #[trigger] states[k].history_bounded(),
    decreases samples.len(),
{
    if samples.len() > 0 {
        let m = samples.len() - 1;
        lemma_history_stays_bounded(states.drop_last(), samples.drop_last());
        assert(states.drop_last()[m as int] == states[m as int]);
        assert(states[m as int].ticked(states[m + 1], samples[m as int]));
        assert forall|k: int| 0 <= k < states.len() implies #[trigger] states[k].history_bounded() by {
            if k < states.len() - 1 {
                assert(states.drop_last()[k] == states[k]);
            }
        }
    }
}

} // verus!
