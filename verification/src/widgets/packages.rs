//! Pending package updates, as a badge or a list.
use vstd::prelude::*;

use crate::config::strings_view;
use crate::data::types::{PackageUpdate, PackagesResult, clone_updates, updates_view};
use crate::text::str_eq;
use crate::theme::opt_view;
use crate::widgets::WidgetError;

verus! {

broadcast use vstd::string::group_string_axioms;

pub fn default_mode() -> (r: String)
    ensures
        r@ == "list"@,
{
    "list".to_string()
}

pub fn default_warn_packages() -> (r: Vec<String>)
    ensures
        r@.len() == 0,
{
    Vec::new()
}

pub fn default_timeout() -> (r: u64)
    ensures
        r == 30,
{
    30
}

pub fn default_interval() -> (r: u64)
    ensures
        r == 1800,
{
    1800
}

/// Settings of the packages widget.
#[derive(Debug)]
pub struct PackagesConfig {
    /// `badge` (a count) or `list` (a table).
    pub mode: String,
    /// Packages whose pending update deserves a warning.
    pub warn_packages: Vec<String>,
    /// Seconds `checkupdates` may run.
    pub timeout: u64,
    /// Seconds between checks.
    pub interval: u64,
}

impl Default for PackagesConfig {
    fn default() -> (r: Self)
        ensures
            r.mode@ == "list"@,
            r.warn_packages@.len() == 0,
            r.timeout == 30,
            r.interval == 1800,
    {
        PackagesConfig {
            mode: default_mode(),
            warn_packages: default_warn_packages(),
            timeout: default_timeout(),
            interval: default_interval(),
        }
    }
}

/// How much room the widget has to draw in.
#[derive(Debug, Clone, Copy, PartialEq, Eq, Structural)]
pub enum PackagesLayout {
    /// Only the widget's name.
    Label,
    /// One line with the number of updates.
    Badge,
    /// A table of the updates.
    List,
}

/// Pending package updates for one widget instance.
#[derive(Debug)]
pub struct PackagesWidget {
    pub id: String,
    pub config: PackagesConfig,
    pub updates: Vec<PackageUpdate>,
    pub loading: bool,
    pub error: Option<String>,
}

impl PackagesWidget {
    /// A widget with the given settings (the defaults when there are none);
    /// the mode must be `badge` or `list`.
    pub fn new(id: String, config: Option<PackagesConfig>) -> (r: Result<Self, WidgetError>)
        ensures
            ({
                let mode = match config {
                    Some(c) => c.mode@,
                    None => "list"@,
                };
                &&& (r is Ok) == (mode == "badge"@ || mode == "list"@)
                &&& (r matches Err(e) ==> e@ == (crate::widgets::WidgetErrorView::InvalidPackagesMode { mode }))
                &&& (r matches Ok(w) ==> {
                    &&& w.id@ == id@
                    &&& w.config.mode@ == mode
                    &&& (config matches Some(c) ==> w.config.timeout == c.timeout && w.config.interval == c.interval
                        && strings_view(w.config.warn_packages@) == strings_view(c.warn_packages@))
                    &&& (config is None ==> w.config.timeout == 30 && w.config.interval == 1800
                        && w.config.warn_packages@.len() == 0)
                    &&& w.updates@.len() == 0
                    &&& w.loading
                    &&& w.error is None
                })
            }),
    {
        let config = match config {
            Some(c) => c,
            None => PackagesConfig::default(),
        };
        if !str_eq(config.mode.as_str(), "badge") && !str_eq(config.mode.as_str(), "list") {
            return Err(WidgetError::InvalidPackagesMode { mode: config.mode });
        }
        Ok(PackagesWidget { id, config, updates: Vec::new(), loading: true, error: None })
    }

    pub fn id(&self) -> (r: &str)
        ensures
            r@ == self.id@,
    {
        self.id.as_str()
    }

    pub fn name(&self) -> (r: &'static str)
        ensures
            r@ == "Packages"@,
    {
        "Packages"
    }

    pub fn widget_type(&self) -> (r: &'static str)
        ensures
            r@ == "packages"@,
    {
        "packages"
    }

    pub fn min_size(&self) -> (r: (u16, u16))
        ensures
            r == (15u16, 1u16),
    {
        (15, 1)
    }

    /// Some pending update is for a package on the warning list.
    pub fn has_warnings(&self) -> (r: bool)
        ensures
            r == exists|i: int|
                0 <= i < self.updates@.len() && strings_view(self.config.warn_packages@).contains(
                    #[trigger] self.updates@[i].name@,
                ),
    {
        let mut i: usize = 0;
        while i < self.updates.len()
            invariant
                i <= self.updates.len(),
                forall|j: int|
                    0 <= j < i ==> !strings_view(self.config.warn_packages@).contains(#[trigger] self.updates@[j].name@),
            decreases self.updates.len() - i,
        {
            let name = self.updates[i].name.as_str();
            let mut k: usize = 0;
            while k < self.config.warn_packages.len()
                invariant
                    k <= self.config.warn_packages.len(),
                    i < self.updates.len(),
                    name@ == self.updates@[i as int].name@,
                    forall|j: int| 0 <= j < k ==> self.config.warn_packages@[j]@ != name@,
                decreases self.config.warn_packages.len() - k,
            {
                if str_eq(self.config.warn_packages[k].as_str(), name) {
                    assert(strings_view(self.config.warn_packages@)[k as int] == name@);
                    return true;
                }
                k += 1;
            }
            assert forall|j: int| 0 <= j < strings_view(self.config.warn_packages@).len() implies strings_view(
                self.config.warn_packages@,
            )[j] != name@ by {
                assert(strings_view(self.config.warn_packages@)[j] == self.config.warn_packages@[j]@);
            }
            i += 1;
        }
        false
    }

    /// Takes in a reading: one for this instance replaces the updates (or
    /// records the error) and ends loading; others are ignored.
    pub fn apply(&mut self, result: &PackagesResult)
        ensures
            final(self).id == old(self).id,
            final(self).config == old(self).config,
            result.instance_id@ != old(self).id@ ==> final(self).updates@ == old(self).updates@
                && final(self).loading == old(self).loading && final(self).error == old(self).error,
            result.instance_id@ == old(self).id@ ==> !final(self).loading && match &result.data {
                Ok(d) => updates_view(final(self).updates@) == updates_view(d.updates@) && final(self).error is None,
                Err(msg) => final(self).updates@ == old(self).updates@ && opt_view(final(self).error) == Some(
                    msg@,
                ),
            },
    {
        if !str_eq(result.instance_id.as_str(), self.id.as_str()) {
            return;
        }
        match &result.data {
            Ok(data) => {
                self.updates = clone_updates(&data.updates);
                self.error = None;
                self.loading = false;
            },
            Err(msg) => {
                self.error = Some(msg.clone());
                self.loading = false;
            },
        }
    }

    /// Keeps the readings of the widget this one replaces.
    pub fn transfer_from(&mut self, previous: &PackagesWidget)
        ensures
            final(self).id == old(self).id,
            final(self).config == old(self).config,
            updates_view(final(self).updates@) == updates_view(previous.updates@),
            final(self).loading == previous.loading,
            opt_view(final(self).error) == opt_view(previous.error),
    {
        self.updates = clone_updates(&previous.updates);
        self.loading = previous.loading;
        self.error = crate::theme::clone_opt_string(&previous.error);
    }

    /// The layout for an area of `width` by `height` cells: the label when
    /// it is under 3 rows or 15 columns, the badge under 5 rows or in badge
    /// mode, the list otherwise.
    pub fn layout_for(&self, width: u16, height: u16) -> (r: PackagesLayout)
        ensures
            r == (if height < 3 || width < 15 {
                PackagesLayout::Label
            } else if height < 5 || self.config.mode@ == "badge"@ {
                PackagesLayout::Badge
            } else {
                PackagesLayout::List
            }),
    {
        if height < 3 || width < 15 {
            PackagesLayout::Label
        } else if height < 5 || str_eq(self.config.mode.as_str(), "badge") {
            PackagesLayout::Badge
        } else {
            PackagesLayout::List
        }
    }
}

} // verus!
