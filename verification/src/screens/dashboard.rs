//! Dashboard screen state: the system-overview numbers and the recent
//! audit rows a renderer shows.

use vstd::prelude::*;

verus! {

/// One recent audit row shown on the overview.
#[derive(Clone, Debug)]
pub struct AuditRow {
    pub timestamp: String,
    pub agent: String,
    pub action: String,
    pub detail: String,
}

/// The dashboard's state: headline numbers, identity of the configured
/// model, the recent audit trail, and presentation counters.
#[derive(Debug)]
pub struct DashboardState {
    pub agent_count: u64,
    pub uptime_secs: u64,
    pub version: String,
    pub provider: String,
    pub model: String,
    pub recent_audit: Vec<AuditRow>,
    pub loading: bool,
    pub tick: usize,
    pub audit_scroll: u16,
}

/// What the dashboard asks its driver to do next.
#[derive(Clone, Copy, PartialEq, Eq, Structural, Debug)]
pub enum DashboardAction {
    Continue,
    Refresh,
    GoToAgents,
}

impl DashboardState {
    /// An empty dashboard, before the first refresh.
    pub fn new() -> (r: DashboardState)
        ensures
            r.agent_count == 0,
            r.uptime_secs == 0,
            r.version@ == Seq::<char>::empty(),
            r.provider@ == Seq::<char>::empty(),
            r.model@ == Seq::<char>::empty(),
            r.recent_audit@ == Seq::<AuditRow>::empty(),
            !r.loading,
            r.tick == 0,
            r.audit_scroll == 0,
    {
        let r = DashboardState {
            agent_count: 0,
            uptime_secs: 0,
            version: String::new(),
            provider: String::new(),
            model: String::new(),
            recent_audit: Vec::new(),
            loading: false,
            tick: 0,
            audit_scroll: 0,
        };
        proof {
            assert(r.recent_audit@ =~= Seq::<AuditRow>::empty());
        }
        r
    }

    /// Advances the animation counter, wrapping at the top of its range.
    pub fn tick(&mut self)
        ensures
            final(self).tick == if old(self).tick < usize::MAX {
                old(self).tick + 1
            } else {
                0int
            },
            final(self).agent_count == old(self).agent_count,
            final(self).uptime_secs == old(self).uptime_secs,
            final(self).version == old(self).version,
            final(self).provider == old(self).provider,
            final(self).model == old(self).model,
            final(self).recent_audit == old(self).recent_audit,
            final(self).loading == old(self).loading,
            final(self).audit_scroll == old(self).audit_scroll,
    {
        self.tick = self.tick.wrapping_add(1);
    }
}

} // verus!
