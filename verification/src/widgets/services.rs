//! The states of a list of systemd units.
use vstd::prelude::*;

use crate::config::strings_view;
use crate::data::types::{
    ActiveState, ActiveStateView, ServiceStatus, ServiceStatusView, ServicesResult, clone_statuses, statuses_view,
};
use crate::text::str_eq;
use crate::theme::opt_view;
use crate::widgets::{WidgetError, WidgetErrorView};

verus! {

broadcast use vstd::string::group_string_axioms;

pub fn default_scope() -> (r: String)
    ensures
        r@ == "system"@,
{
    "system".to_string()
}

pub fn default_timeout() -> (r: u64)
    ensures
        r == 10,
{
    10
}

pub fn default_interval() -> (r: u64)
    ensures
        r == 10,
{
    10
}

/// Settings of the services widget.
#[derive(Debug)]
pub struct ServicesConfig {
    /// `system` or `user`.
    pub scope: String,
    /// The units to watch.
    pub services: Vec<String>,
    /// Seconds `systemctl` may run.
    pub timeout: u64,
    /// Seconds between readings.
    pub interval: u64,
}

/// What the widget shows in the room it has.
#[derive(Debug, Clone, Copy, PartialEq, Eq, Structural)]
pub enum ServicesLayout {
    Loading,
    Error,
    /// Only the widget's name.
    Label,
    /// One unit per row: a state dot and the name.
    Compact,
    /// A table of name, state and sub-state, failed units first.
    Table,
}

#[derive(Debug)]
pub struct ServicesWidget {
    pub id: String,
    pub config: ServicesConfig,
    pub statuses: Vec<ServiceStatus>,
    pub loading: bool,
    pub error: Option<String>,
}

/// The failed units, then the others, each group in its order.
pub open spec fn failed_first(s: Seq<ServiceStatusView>) -> Seq<ServiceStatusView> {
    s.filter(|x: ServiceStatusView| x.active_state is Failed) + s.filter(|x: ServiceStatusView| !(x.active_state is Failed))
}

impl ServicesWidget {
    /// A widget for the listed units. Settings are required; the scope
    /// must be `system` or `user` and the list must not be empty.
    pub fn new(id: String, config: Option<ServicesConfig>) -> (r: Result<Self, WidgetError>)
        ensures
            config is None ==> (r matches Err(e) && e@ == WidgetErrorView::MissingServicesConfig),
            config matches Some(c) ==> {
                let scope_ok = c.scope@ == "system"@ || c.scope@ == "user"@;
                &&& (!scope_ok ==> (r matches Err(e) && e@ == (WidgetErrorView::InvalidServicesScope { scope: c.scope@ })))
                &&& (scope_ok && c.services@.len() == 0 ==> (r matches Err(e) && e@ == WidgetErrorView::EmptyServicesList))
                &&& (scope_ok && c.services@.len() > 0 ==> (r matches Ok(w) && w.id@ == id@ && w.config == c
                    && w.statuses@.len() == 0 && w.loading && w.error is None))
            },
    {
        let config = match config {
            Some(c) => c,
            None => return Err(WidgetError::MissingServicesConfig),
        };
        if !str_eq(config.scope.as_str(), "system") && !str_eq(config.scope.as_str(), "user") {
            return Err(WidgetError::InvalidServicesScope { scope: config.scope });
        }
        if config.services.len() == 0 {
            return Err(WidgetError::EmptyServicesList);
        }
        Ok(ServicesWidget { id, config, statuses: Vec::new(), loading: true, error: None })
    }

    pub fn id(&self) -> (r: &str)
        ensures
            r@ == self.id@,
    {
        self.id.as_str()
    }

    pub fn name(&self) -> (r: &'static str)
        ensures
            r@ == "Services"@,
    {
        "Services"
    }

    pub fn widget_type(&self) -> (r: &'static str)
        ensures
            r@ == "services"@,
    {
        "services"
    }

    pub fn min_size(&self) -> (r: (u16, u16))
        ensures
            r == (15u16, 1u16),
    {
        (15, 1)
    }

    /// Takes in a reading: one for this instance replaces the statuses (or
    /// records the error) and ends loading; others are ignored.
    pub fn apply(&mut self, result: &ServicesResult)
        ensures
            final(self).id == old(self).id,
            final(self).config == old(self).config,
            result.instance_id@ != old(self).id@ ==> final(self).statuses@ == old(self).statuses@
                && final(self).loading == old(self).loading && final(self).error == old(self).error,
            result.instance_id@ == old(self).id@ ==> !final(self).loading && match &result.data {
                Ok(d) => statuses_view(final(self).statuses@) == statuses_view(d.services@) && final(self).error is None,
                Err(msg) => final(self).statuses@ == old(self).statuses@ && opt_view(final(self).error) == Some(
                    msg@,
                ),
            },
    {
        if !str_eq(result.instance_id.as_str(), self.id.as_str()) {
            return;
        }
        match &result.data {
            Ok(data) => {
                self.statuses = clone_statuses(&data.services);
                self.error = None;
                self.loading = false;
            },
            Err(msg) => {
                self.error = Some(msg.clone());
                self.loading = false;
            },
        }
    }

    /// Keeps the readings of the widget this one replaces.
    pub fn transfer_from(&mut self, previous: &ServicesWidget)
        ensures
            final(self).id == old(self).id,
            final(self).config == old(self).config,
            statuses_view(final(self).statuses@) == statuses_view(previous.statuses@),
            final(self).loading == previous.loading,
            opt_view(final(self).error) == opt_view(previous.error),
    {
        self.statuses = clone_statuses(&previous.statuses);
        self.loading = previous.loading;
        self.error = crate::theme::clone_opt_string(&previous.error);
    }

    /// What to show in an area of `width` by `height` cells.
    pub fn layout_for(&self, width: u16, height: u16) -> (r: ServicesLayout)
        ensures
            r == (if self.loading {
                ServicesLayout::Loading
            } else if self.error is Some {
                ServicesLayout::Error
            } else if height < 3 || width < 15 {
                ServicesLayout::Label
            } else if height < 6 {
                ServicesLayout::Compact
            } else {
                ServicesLayout::Table
            }),
    {
        if self.loading {
            ServicesLayout::Loading
        } else if self.error.is_some() {
            ServicesLayout::Error
        } else if height < 3 || width < 15 {
            ServicesLayout::Label
        } else if height < 6 {
            ServicesLayout::Compact
        } else {
            ServicesLayout::Table
        }
    }

    /// The rows of the table: failed units first, otherwise in order.
    pub fn table_rows(&self) -> (r: Vec<ServiceStatus>)
        ensures
            statuses_view(r@) == failed_first(statuses_view(self.statuses@)),
    {
        let ghost s = statuses_view(self.statuses@);
        let mut failed: Vec<ServiceStatus> = Vec::new();
        let mut rest: Vec<ServiceStatus> = Vec::new();
        let mut i: usize = 0;
        while i < self.statuses.len()
            invariant
                i <= self.statuses.len(),
                s == statuses_view(self.statuses@),
                statuses_view(failed@) == s.take(i as int).filter(|x: ServiceStatusView| x.active_state is Failed),
                statuses_view(rest@) == s.take(i as int).filter(|x: ServiceStatusView| !(x.active_state is Failed)),
            decreases self.statuses.len() - i,
        {
            let st = &self.statuses[i];
            assert(s[i as int] == st@);
            assert(s.take(i + 1).drop_last() =~= s.take(i as int));
            assert(s.take(i + 1).last() == st@);
            proof {
                reveal(Seq::filter);
            }
            let is_failed = match st.active_state {
                ActiveState::Failed => true,
                _ => false,
            };
            let ghost f0 = failed@;
            let ghost r0 = rest@;
            if is_failed {
                failed.push(st.duplicate());
                assert(statuses_view(failed@) =~= statuses_view(f0).push(st@));
            } else {
                rest.push(st.duplicate());
                assert(statuses_view(rest@) =~= statuses_view(r0).push(st@));
            }
            i += 1;
        }
        assert(s.take(self.statuses.len() as int) =~= s);
        let ghost f = failed@;
        let mut j: usize = 0;
        while j < rest.len()
            invariant
                j <= rest.len(),
                statuses_view(failed@) == statuses_view(f) + statuses_view(rest@).take(j as int),
            decreases rest.len() - j,
        {
            let ghost before = failed@;
            failed.push(rest[j].duplicate());
            assert(statuses_view(rest@).take(j + 1) =~= statuses_view(rest@).take(j as int).push(rest@[j as int]@));
            assert(statuses_view(failed@) =~= statuses_view(before).push(rest@[j as int]@));
            assert(statuses_view(failed@) =~= statuses_view(f) + statuses_view(rest@).take(j + 1));
            j += 1;
        }
        assert(statuses_view(rest@).take(rest.len() as int) =~= statuses_view(rest@));
        failed
    }
}

/// The word shown for a state.
pub fn state_label(state: &ActiveState) -> (r: &str)
    ensures
        r@ == match state@ {
            ActiveStateView::Active => "active"@,
            ActiveStateView::Inactive => "inactive"@,
            ActiveStateView::Failed => "failed"@,
            ActiveStateView::Activating => "activating"@,
            ActiveStateView::Deactivating => "deactivating"@,
            ActiveStateView::Other(v) => v,
        },
{
    match state {
        ActiveState::Active => "active",
        ActiveState::Inactive => "inactive",
        ActiveState::Failed => "failed",
        ActiveState::Activating => "activating",
        ActiveState::Deactivating => "deactivating",
        ActiveState::Other(val) => val.as_str(),
    }
}

} // verus!
