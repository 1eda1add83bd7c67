//! The dashboard widgets: their settings, state and the decisions they make
//! on data and keys. Drawing happens outside the library.
use vstd::prelude::*;

pub mod memory;
pub mod packages;
pub mod placeholder;
pub mod processes;
pub mod readings;
pub mod services;
pub mod util;
pub mod workspaces;

use crate::text::string_from_chars;
use crate::widgets::util::push_str_chars;

verus! {

broadcast use vstd::string::group_string_axioms;

/// Why a widget's settings are refused.
#[derive(Debug, PartialEq)]
pub enum WidgetError {
    /// `mode` of the packages widget is neither `badge` nor `list`.
    InvalidPackagesMode { mode: String },
    /// The services widget has no settings section.
    MissingServicesConfig,
    /// `scope` of the services widget is neither `system` nor `user`.
    InvalidServicesScope { scope: String },
    /// The services widget lists no services.
    EmptyServicesList,
    /// `sort_by` of the process widget names no column.
    InvalidSortBy { value: String },
    /// `sort_order` of the process widget is neither `asc` nor `desc`.
    InvalidSortOrder { value: String },
    /// `count` of the process widget is 0.
    ZeroProcessCount,
    /// `mode` of the CPU widget is not `sparklines`, `bars` or `gauge`.
    InvalidCpuMode { mode: String },
    /// `unit` of the network widget is not `auto`, `KB/s` or `MB/s`.
    InvalidNetworkUnit { unit: String },
    /// `mode` of the disk widget is not `capacity`, `io` or `both`.
    InvalidDiskMode { mode: String },
    /// `mode` of the temperatures widget is not `gauges` or `compact`.
    InvalidTempsMode { mode: String },
    /// `history_length` of a widget with a history is 0.
    ZeroHistoryLength,
}

pub enum WidgetErrorView {
    InvalidPackagesMode { mode: Seq<char> },
    MissingServicesConfig,
    InvalidServicesScope { scope: Seq<char> },
    EmptyServicesList,
    InvalidSortBy { value: Seq<char> },
    InvalidSortOrder { value: Seq<char> },
    ZeroProcessCount,
    InvalidCpuMode { mode: Seq<char> },
    InvalidNetworkUnit { unit: Seq<char> },
    InvalidDiskMode { mode: Seq<char> },
    InvalidTempsMode { mode: Seq<char> },
    ZeroHistoryLength,
}

impl View for WidgetError {
    type V = WidgetErrorView;

    open spec fn view(&self) -> WidgetErrorView {
        match self {
            WidgetError::InvalidPackagesMode { mode } => WidgetErrorView::InvalidPackagesMode { mode: mode@ },
            WidgetError::MissingServicesConfig => WidgetErrorView::MissingServicesConfig,
            WidgetError::InvalidServicesScope { scope } => WidgetErrorView::InvalidServicesScope { scope: scope@ },
            WidgetError::EmptyServicesList => WidgetErrorView::EmptyServicesList,
            WidgetError::InvalidSortBy { value } => WidgetErrorView::InvalidSortBy { value: value@ },
            WidgetError::InvalidSortOrder { value } => WidgetErrorView::InvalidSortOrder { value: value@ },
            WidgetError::ZeroProcessCount => WidgetErrorView::ZeroProcessCount,
            WidgetError::InvalidCpuMode { mode } => WidgetErrorView::InvalidCpuMode { mode: mode@ },
            WidgetError::InvalidNetworkUnit { unit } => WidgetErrorView::InvalidNetworkUnit { unit: unit@ },
            WidgetError::InvalidDiskMode { mode } => WidgetErrorView::InvalidDiskMode { mode: mode@ },
            WidgetError::InvalidTempsMode { mode } => WidgetErrorView::InvalidTempsMode { mode: mode@ },
            WidgetError::ZeroHistoryLength => WidgetErrorView::ZeroHistoryLength,
        }
    }
}

/// The message shown for an error.
pub open spec fn widget_error_message(e: WidgetErrorView) -> Seq<char> {
    match e {
        WidgetErrorView::InvalidPackagesMode { mode } => "invalid packages mode: '"@ + mode + "'"@,
        WidgetErrorView::MissingServicesConfig => "services widget requires a [widgets.X] section with services list"@,
        WidgetErrorView::InvalidServicesScope { scope } => "invalid services scope: '"@ + scope
            + "' (expected 'system' or 'user')"@,
        WidgetErrorView::EmptyServicesList => "services list must not be empty"@,
        WidgetErrorView::InvalidSortBy { value } => "invalid sort_by: '"@ + value + "'"@,
        WidgetErrorView::InvalidSortOrder { value } => "invalid sort_order: '"@ + value + "'"@,
        WidgetErrorView::ZeroProcessCount => "count must be > 0"@,
        WidgetErrorView::InvalidCpuMode { mode } => "invalid cpu mode: '"@ + mode + "'"@,
        WidgetErrorView::InvalidNetworkUnit { unit } => "invalid network unit: '"@ + unit + "'"@,
        WidgetErrorView::InvalidDiskMode { mode } => "invalid disk mode: '"@ + mode + "'"@,
        WidgetErrorView::InvalidTempsMode { mode } => "invalid temps mode: '"@ + mode + "'"@,
        WidgetErrorView::ZeroHistoryLength => "history_length must be > 0"@,
    }
}

impl WidgetError {
    /// The message for this error.
    pub fn message(&self) -> (r: String)
        ensures
            r@ == widget_error_message(self@),
    {
        let mut out: Vec<char> = Vec::new();
        match self {
            WidgetError::InvalidPackagesMode { mode } => {
                push_str_chars(&mut out, "invalid packages mode: '");
                push_str_chars(&mut out, mode.as_str());
                push_str_chars(&mut out, "'");
            },
            WidgetError::MissingServicesConfig => {
                push_str_chars(&mut out, "services widget requires a [widgets.X] section with services list");
            },
            WidgetError::InvalidServicesScope { scope } => {
                push_str_chars(&mut out, "invalid services scope: '");
                push_str_chars(&mut out, scope.as_str());
                push_str_chars(&mut out, "' (expected 'system' or 'user')");
            },
            WidgetError::EmptyServicesList => {
                push_str_chars(&mut out, "services list must not be empty");
            },
            WidgetError::InvalidSortBy { value } => {
                push_str_chars(&mut out, "invalid sort_by: '");
                push_str_chars(&mut out, value.as_str());
                push_str_chars(&mut out, "'");
            },
            WidgetError::InvalidSortOrder { value } => {
                push_str_chars(&mut out, "invalid sort_order: '");
                push_str_chars(&mut out, value.as_str());
                push_str_chars(&mut out, "'");
            },
            WidgetError::ZeroProcessCount => {
                push_str_chars(&mut out, "count must be > 0");
            },
            WidgetError::InvalidCpuMode { mode } => {
                push_str_chars(&mut out, "invalid cpu mode: '");
                push_str_chars(&mut out, mode.as_str());
                push_str_chars(&mut out, "'");
            },
            WidgetError::InvalidNetworkUnit { unit } => {
                push_str_chars(&mut out, "invalid network unit: '");
                push_str_chars(&mut out, unit.as_str());
                push_str_chars(&mut out, "'");
            },
            WidgetError::InvalidDiskMode { mode } => {
                push_str_chars(&mut out, "invalid disk mode: '");
                push_str_chars(&mut out, mode.as_str());
                push_str_chars(&mut out, "'");
            },
            WidgetError::InvalidTempsMode { mode } => {
                push_str_chars(&mut out, "invalid temps mode: '");
                push_str_chars(&mut out, mode.as_str());
                push_str_chars(&mut out, "'");
            },
            WidgetError::ZeroHistoryLength => {
                push_str_chars(&mut out, "history_length must be > 0");
            },
        }
        assert(out@ =~= widget_error_message(self@));
        string_from_chars(&out)
    }
}

} // verus!
