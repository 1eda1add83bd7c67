//! Configuration model: grid profiles, panels, keybinds, and their validation.
use vstd::prelude::*;


use crate::text::{chars_of, parse_u16_range, parse_u16_spec, str_eq, trim_range, trimmed};
use crate::theme::{ThemeConfig, clone_opt_string, opt_view};
use crate::profile_map::{
    entry_names, has_name, index_of_name, map_contains, map_get, map_get_index, map_insert, map_len,
    map_new, profile_entries,
};

use indexmap::IndexMap;
use vstd::pervasive::unreached;

verus! {

broadcast use vstd::string::group_string_axioms;

// ─── Config structs ──────────────────────────────────────────────────────────

#[derive(Debug)]
pub struct GeneralConfig {
    pub tick_rate: u64,
    pub default_profile: Option<String>,
}

#[derive(Debug, Default)]
pub struct KeybindsConfig {
    pub quit: Option<String>,
    pub force_quit: Option<String>,
    pub reload: Option<String>,
    pub help: Option<String>,
    pub focus_next: Option<String>,
    pub focus_prev: Option<String>,
    pub focus_up: Option<String>,
    pub focus_down: Option<String>,
    pub focus_left: Option<String>,
    pub focus_right: Option<String>,
    pub enter_interact: Option<String>,
    pub exit_interact: Option<String>,
    pub edit_mode: Option<String>,
    pub profile_next: Option<String>,
    pub profile_prev: Option<String>,
}

/// A single layout profile: a grid of `rows` x `columns` cells and the panels on it.
#[derive(Debug, PartialEq)]
pub struct ProfileConfig {
    pub columns: usize,
    pub rows: usize,
    pub column_widths: Option<Vec<String>>,
    pub row_heights: Option<Vec<String>>,
    pub header: bool,
    pub footer: bool,
    pub panels: Vec<PanelConfig>,
}

/// A panel anchored at `(row, col)` spanning `row_span` x `col_span` cells.
#[derive(Debug, PartialEq)]
pub struct PanelConfig {
    pub row: usize,
    pub col: usize,
    pub widget_type: String,
    pub id: Option<String>,
    pub col_span: usize,
    pub row_span: usize,
}

/// The mathematical content of a panel.
pub struct PanelView {
    pub row: usize,
    pub col: usize,
    pub widget_type: Seq<char>,
    pub id: Option<Seq<char>>,
    pub col_span: usize,
    pub row_span: usize,
}

/// The mathematical content of a profile.
pub struct ProfileView {
    pub columns: usize,
    pub rows: usize,
    pub column_widths: Option<Seq<Seq<char>>>,
    pub row_heights: Option<Seq<Seq<char>>>,
    pub header: bool,
    pub footer: bool,
    pub panels: Seq<PanelView>,
}

pub open spec fn strings_view(v: Seq<String>) -> Seq<Seq<char>> {
    v.map_values(|s: String| s@)
}

pub open spec fn opt_strings_view(o: Option<Vec<String>>) -> Option<Seq<Seq<char>>> {
    match o {
        Some(v) => Some(strings_view(v@)),
        None => None,
    }
}

pub open spec fn panels_view(v: Seq<PanelConfig>) -> Seq<PanelView> {
    v.map_values(|p: PanelConfig| p@)
}

impl View for PanelConfig {
    type V = PanelView;

    open spec fn view(&self) -> PanelView {
        PanelView {
            row: self.row,
            col: self.col,
            widget_type: self.widget_type@,
            id: opt_view(self.id),
            col_span: self.col_span,
            row_span: self.row_span,
        }
    }
}

impl View for ProfileConfig {
    type V = ProfileView;

    open spec fn view(&self) -> ProfileView {
        ProfileView {
            columns: self.columns,
            rows: self.rows,
            column_widths: opt_strings_view(self.column_widths),
            row_heights: opt_strings_view(self.row_heights),
            header: self.header,
            footer: self.footer,
            panels: panels_view(self.panels@),
        }
    }
}

/// The instance id of a panel: its explicit `id`, or else its widget type.
pub open spec fn instance_id_of(p: PanelView) -> Seq<char> {
    match p.id {
        Some(id) => id,
        None => p.widget_type,
    }
}

pub fn clone_strings(v: &Vec<String>) -> (r: Vec<String>)
    ensures
        strings_view(r@) == strings_view(v@),
{
    let mut r: Vec<String> = Vec::new();
    let mut i: usize = 0;
    while i < v.len()
        invariant
            i <= v.len(),
            r@.len() == i,
            forall|j: int| 0 <= j < i ==> (#[trigger] r@[j])@ == v@[j]@,
        decreases v.len() - i,
    {
        r.push(v[i].clone());
        i += 1;
    }
    assert(strings_view(r@) =~= strings_view(v@));
    r
}

pub fn clone_opt_strings(o: &Option<Vec<String>>) -> (r: Option<Vec<String>>)
    ensures
        opt_strings_view(r) == opt_strings_view(*o),
{
    match o {
        Some(v) => Some(clone_strings(v)),
        None => None,
    }
}

impl PanelConfig {
    /// The instance id: the explicit `id` if set, otherwise the widget type.
    pub fn instance_id(&self) -> (r: &str)
        ensures
            r@ == instance_id_of(self@),
    {
        match &self.id {
            Some(id) => id.as_str(),
            None => self.widget_type.as_str(),
        }
    }

    pub fn duplicate(&self) -> (r: PanelConfig)
        ensures
            r@ == self@,
    {
        PanelConfig {
            row: self.row,
            col: self.col,
            widget_type: self.widget_type.clone(),
            id: clone_opt_string(&self.id),
            col_span: self.col_span,
            row_span: self.row_span,
        }
    }
}

pub fn clone_panels(v: &Vec<PanelConfig>) -> (r: Vec<PanelConfig>)
    ensures
        panels_view(r@) == panels_view(v@),
{
    let mut r: Vec<PanelConfig> = Vec::new();
    let mut i: usize = 0;
    while i < v.len()
        invariant
            i <= v.len(),
            r@.len() == i,
            forall|j: int| 0 <= j < i ==> (#[trigger] r@[j])@ == v@[j]@,
        decreases v.len() - i,
    {
        r.push(v[i].duplicate());
        i += 1;
    }
    assert(panels_view(r@) =~= panels_view(v@));
    r
}

impl ProfileConfig {
    pub fn duplicate(&self) -> (r: ProfileConfig)
        ensures
            r@ == self@,
    {
        ProfileConfig {
            columns: self.columns,
            rows: self.rows,
            column_widths: clone_opt_strings(&self.column_widths),
            row_heights: clone_opt_strings(&self.row_heights),
            header: self.header,
            footer: self.footer,
            panels: clone_panels(&self.panels),
        }
    }
}

impl ProfileConfig {
    /// Every panel's far row and column edges fit in `usize`.
    pub fn spans_in_range(&self) -> (r: bool)
        ensures
            r == spans_fit(self@),
    {
        let mut i: usize = 0;
        while i < self.panels.len()
            invariant
                i <= self.panels.len(),
                forall|j: int| 0 <= j < i ==> (#[trigger] self@.panels[j]).row + self@.panels[j].row_span <= usize::MAX
                    && self@.panels[j].col + self@.panels[j].col_span <= usize::MAX,
            decreases self.panels.len() - i,
        {
            let p = &self.panels[i];
            assert(self@.panels[i as int] == p@);
            if p.row > usize::MAX - p.row_span || p.col > usize::MAX - p.col_span {
                return false;
            }
            i += 1;
        }
        true
    }
}

impl GeneralConfig {
    pub fn duplicate(&self) -> (r: GeneralConfig)
        ensures
            r.tick_rate == self.tick_rate,
            opt_view(r.default_profile) == opt_view(self.default_profile),
    {
        GeneralConfig {
            tick_rate: self.tick_rate,
            default_profile: clone_opt_string(&self.default_profile),
        }
    }
}

impl KeybindsConfig {
    pub open spec fn same_as(&self, other: &KeybindsConfig) -> bool {
        &&& opt_view(self.quit) == opt_view(other.quit)
        &&& opt_view(self.force_quit) == opt_view(other.force_quit)
        &&& opt_view(self.reload) == opt_view(other.reload)
        &&& opt_view(self.help) == opt_view(other.help)
        &&& opt_view(self.focus_next) == opt_view(other.focus_next)
        &&& opt_view(self.focus_prev) == opt_view(other.focus_prev)
        &&& opt_view(self.focus_up) == opt_view(other.focus_up)
        &&& opt_view(self.focus_down) == opt_view(other.focus_down)
        &&& opt_view(self.focus_left) == opt_view(other.focus_left)
        &&& opt_view(self.focus_right) == opt_view(other.focus_right)
        &&& opt_view(self.enter_interact) == opt_view(other.enter_interact)
        &&& opt_view(self.exit_interact) == opt_view(other.exit_interact)
        &&& opt_view(self.edit_mode) == opt_view(other.edit_mode)
        &&& opt_view(self.profile_next) == opt_view(other.profile_next)
        &&& opt_view(self.profile_prev) == opt_view(other.profile_prev)
    }

    pub fn duplicate(&self) -> (r: KeybindsConfig)
        ensures
            r.same_as(self),
    {
        KeybindsConfig {
            quit: clone_opt_string(&self.quit),
            force_quit: clone_opt_string(&self.force_quit),
            reload: clone_opt_string(&self.reload),
            help: clone_opt_string(&self.help),
            focus_next: clone_opt_string(&self.focus_next),
            focus_prev: clone_opt_string(&self.focus_prev),
            focus_up: clone_opt_string(&self.focus_up),
            focus_down: clone_opt_string(&self.focus_down),
            focus_left: clone_opt_string(&self.focus_left),
            focus_right: clone_opt_string(&self.focus_right),
            enter_interact: clone_opt_string(&self.enter_interact),
            exit_interact: clone_opt_string(&self.exit_interact),
            edit_mode: clone_opt_string(&self.edit_mode),
            profile_next: clone_opt_string(&self.profile_next),
            profile_prev: clone_opt_string(&self.profile_prev),
        }
    }
}


// ─── Errors and warnings ─────────────────────────────────────────────────────

#[derive(Debug, PartialEq)]
pub enum ConfigError {
    InvalidGridDimensions { rows: usize, columns: usize },
    InvalidSpan { id: String, row: usize, col: usize, col_span: usize, row_span: usize },
    SpanOutOfBounds {
        id: String,
        row: usize,
        col: usize,
        col_span: usize,
        row_span: usize,
        rows: usize,
        cols: usize,
    },
    SpanOverlap { id1: String, id2: String, overlap_row: usize, overlap_col: usize },
    UnknownWidgetType { widget_type: String },
    DuplicateInstanceId { id: String },
    ColumnWidthsMismatch { expected: usize, got: usize },
    RowHeightsMismatch { expected: usize, got: usize },
    PercentageSumError { sum: u16 },
    InvalidPercentage { value: String },
    OrphanWidgetSection { id: String },
    InvalidInstanceId { id: String },
    InvalidProfileName { name: String },
}

/// `ConfigError` with its strings taken as character sequences.
pub enum ConfigErrorView {
    InvalidGridDimensions { rows: usize, columns: usize },
    InvalidSpan { id: Seq<char>, row: usize, col: usize, col_span: usize, row_span: usize },
    SpanOutOfBounds {
        id: Seq<char>,
        row: usize,
        col: usize,
        col_span: usize,
        row_span: usize,
        rows: usize,
        cols: usize,
    },
    SpanOverlap { id1: Seq<char>, id2: Seq<char>, overlap_row: usize, overlap_col: usize },
    UnknownWidgetType { widget_type: Seq<char> },
    DuplicateInstanceId { id: Seq<char> },
    ColumnWidthsMismatch { expected: usize, got: usize },
    RowHeightsMismatch { expected: usize, got: usize },
    PercentageSumError { sum: u16 },
    InvalidPercentage { value: Seq<char> },
    OrphanWidgetSection { id: Seq<char> },
    InvalidInstanceId { id: Seq<char> },
    InvalidProfileName { name: Seq<char> },
}

impl View for ConfigError {
    type V = ConfigErrorView;

    open spec fn view(&self) -> ConfigErrorView {
        match self {
            ConfigError::InvalidGridDimensions { rows, columns } => ConfigErrorView::InvalidGridDimensions {
                rows: *rows,
                columns: *columns,
            },
            ConfigError::InvalidSpan { id, row, col, col_span, row_span } => ConfigErrorView::InvalidSpan {
                id: id@,
                row: *row,
                col: *col,
                col_span: *col_span,
                row_span: *row_span,
            },
            ConfigError::SpanOutOfBounds { id, row, col, col_span, row_span, rows, cols } =>
                ConfigErrorView::SpanOutOfBounds {
                id: id@,
                row: *row,
                col: *col,
                col_span: *col_span,
                row_span: *row_span,
                rows: *rows,
                cols: *cols,
            },
            ConfigError::SpanOverlap { id1, id2, overlap_row, overlap_col } => ConfigErrorView::SpanOverlap {
                id1: id1@,
                id2: id2@,
                overlap_row: *overlap_row,
                overlap_col: *overlap_col,
            },
            ConfigError::UnknownWidgetType { widget_type } => ConfigErrorView::UnknownWidgetType {
                widget_type: widget_type@,
            },
            ConfigError::DuplicateInstanceId { id } => ConfigErrorView::DuplicateInstanceId { id: id@ },
            ConfigError::ColumnWidthsMismatch { expected, got } => ConfigErrorView::ColumnWidthsMismatch {
                expected: *expected,
                got: *got,
            },
            ConfigError::RowHeightsMismatch { expected, got } => ConfigErrorView::RowHeightsMismatch {
                expected: *expected,
                got: *got,
            },
            ConfigError::PercentageSumError { sum } => ConfigErrorView::PercentageSumError { sum: *sum },
            ConfigError::InvalidPercentage { value } => ConfigErrorView::InvalidPercentage { value: value@ },
            ConfigError::OrphanWidgetSection { id } => ConfigErrorView::OrphanWidgetSection { id: id@ },
            ConfigError::InvalidInstanceId { id } => ConfigErrorView::InvalidInstanceId { id: id@ },
            ConfigError::InvalidProfileName { name } => ConfigErrorView::InvalidProfileName { name: name@ },
        }
    }
}

#[derive(Debug, PartialEq)]
pub enum ConfigWarning {
    EmptyPanels,
    OrphanWidgetSection { id: String },
}

pub enum ConfigWarningView {
    EmptyPanels,
    OrphanWidgetSection { id: Seq<char> },
}

impl View for ConfigWarning {
    type V = ConfigWarningView;

    open spec fn view(&self) -> ConfigWarningView {
        match self {
            ConfigWarning::EmptyPanels => ConfigWarningView::EmptyPanels,
            ConfigWarning::OrphanWidgetSection { id } => ConfigWarningView::OrphanWidgetSection { id: id@ },
        }
    }
}

#[derive(Debug)]
pub struct ValidationResult {
    pub errors: Vec<ConfigError>,
    pub warnings: Vec<ConfigWarning>,
}

pub open spec fn errors_view(v: Seq<ConfigError>) -> Seq<ConfigErrorView> {
    v.map_values(|e: ConfigError| e@)
}

pub open spec fn warnings_view(v: Seq<ConfigWarning>) -> Seq<ConfigWarningView> {
    v.map_values(|w: ConfigWarning| w@)
}

impl ValidationResult {
    pub fn has_errors(&self) -> (r: bool)
        ensures
            r == (self.errors@.len() > 0),
    {
        self.errors.len() > 0
    }
}

// ─── Validation rules ────────────────────────────────────────────────────────

/// `[A-Za-z0-9_-]`
pub open spec fn is_id_char(c: char) -> bool {
    ('a' <= c && c <= 'z') || ('A' <= c && c <= 'Z') || ('0' <= c && c <= '9') || c == '_'
        || c == '-'
}

/// `[A-Za-z0-9_]`
pub open spec fn is_profile_name_char(c: char) -> bool {
    ('a' <= c && c <= 'z') || ('A' <= c && c <= 'Z') || ('0' <= c && c <= '9') || c == '_'
}

/// An instance id matches `[A-Za-z0-9_-]+`.
pub open spec fn valid_instance_id(s: Seq<char>) -> bool {
    s.len() > 0 && forall|i: int| 0 <= i < s.len() ==> is_id_char(#[trigger] s[i])
}

/// A profile name matches `[A-Za-z0-9_]+`.
pub open spec fn valid_profile_name(s: Seq<char>) -> bool {
    s.len() > 0 && forall|i: int| 0 <= i < s.len() ==> is_profile_name_char(#[trigger] s[i])
}

/// Returns `true` if the string matches `[A-Za-z0-9_-]+`.
pub fn is_valid_instance_id(id: &str) -> (r: bool)
    ensures
        r == valid_instance_id(id@),
{
    let v = chars_of(id);
    if v.len() == 0 {
        return false;
    }
    let mut i: usize = 0;
    while i < v.len()
        invariant
            v@ == id@,
            i <= v.len(),
            forall|j: int| 0 <= j < i ==> is_id_char(#[trigger] v@[j]),
        decreases v.len() - i,
    {
        let c = v[i];
        if !(('a' <= c && c <= 'z') || ('A' <= c && c <= 'Z') || ('0' <= c && c <= '9') || c
            == '_' || c == '-') {
            return false;
        }
        i += 1;
    }
    true
}

/// Returns `true` if the profile name matches `[A-Za-z0-9_]+`. Profile names
/// use underscores only (no hyphens) since they are TOML keys.
pub fn is_valid_profile_name(name: &str) -> (r: bool)
    ensures
        r == valid_profile_name(name@),
{
    let v = chars_of(name);
    if v.len() == 0 {
        return false;
    }
    let mut i: usize = 0;
    while i < v.len()
        invariant
            v@ == name@,
            i <= v.len(),
            forall|j: int| 0 <= j < i ==> is_profile_name_char(#[trigger] v@[j]),
        decreases v.len() - i,
    {
        let c = v[i];
        if !(('a' <= c && c <= 'z') || ('A' <= c && c <= 'Z') || ('0' <= c && c <= '9') || c
            == '_') {
            return false;
        }
        i += 1;
    }
    true
}

/// The number a percentage string stands for: surrounding whitespace removed,
/// then a trailing `%`, then a `u16`.
pub open spec fn parse_percentage(v: Seq<char>) -> Option<u16> {
    let t = trimmed(v);
    if t.len() > 0 && t.last() == '%' {
        parse_u16_spec(t.drop_last())
    } else {
        None
    }
}

pub open spec fn sat_add_u16(a: u16, b: u16) -> u16 {
    if a + b > u16::MAX { u16::MAX } else { (a + b) as u16 }
}

/// The saturating sum of a list of percentages, or the first entry that is
/// not a percentage.
pub open spec fn percentage_sum(values: Seq<Seq<char>>) -> Result<u16, Seq<char>>
    decreases values.len(),
{
    if values.len() == 0 {
        Ok(0)
    } else {
        match percentage_sum(values.drop_last()) {
            Err(bad) => Err(bad),
            Ok(sum) => match parse_percentage(values.last()) {
                Some(n) => Ok(sat_add_u16(sum, n)),
                None => Err(values.last()),
            },
        }
    }
}

pub(crate) fn parse_percentage_exec(s: &String) -> (r: Option<u16>)
    ensures
        r == parse_percentage(s@),
{
    let v = chars_of(s.as_str());
    let (lo, hi) = trim_range(&v, 0, v.len());
    assert(v@.subrange(0, v@.len() as int) =~= v@);
    if lo < hi && v[hi - 1] == '%' {
        assert(v@.subrange(lo as int, hi - 1) =~= v@.subrange(lo as int, hi as int).drop_last());
        parse_u16_range(&v, lo, hi - 1)
    } else {
        None
    }
}

/// Parse a list of percentage strings (e.g. `["60%", "40%"]`) and return
/// their saturating sum, or the first entry that cannot be parsed.
pub fn parse_percentage_sum(values: &Vec<String>) -> (r: Result<u16, String>)
    ensures
        match r {
            Ok(n) => percentage_sum(strings_view(values@)) == Ok::<u16, Seq<char>>(n),
            Err(bad) => percentage_sum(strings_view(values@)) == Err::<u16, Seq<char>>(bad@),
        },
{
    let mut sum: u16 = 0;
    let mut i: usize = 0;
    while i < values.len()
        invariant
            i <= values.len(),
            percentage_sum(strings_view(values@).take(i as int)) == Ok::<u16, Seq<char>>(sum),
        decreases values.len() - i,
    {
        assert(strings_view(values@).take(i + 1).drop_last() =~= strings_view(values@).take(i as int));
        assert(strings_view(values@).take(i + 1).last() == values@[i as int]@);
        match parse_percentage_exec(&values[i]) {
            Some(n) => {
                sum = sum.saturating_add(n);
            },
            None => {
                proof {
                    lemma_percentage_sum_err_prefix(strings_view(values@), i + 1);
                }
                return Err(values[i].clone());
            },
        }
        i += 1;
    }
    assert(strings_view(values@).take(values.len() as int) =~= strings_view(values@));
    Ok(sum)
}

/// Once a prefix of the list fails to parse, the whole list fails with the same entry.
pub proof fn lemma_percentage_sum_err_prefix(values: Seq<Seq<char>>, k: int)
    requires
        0 <= k <= values.len(),
        percentage_sum(values.take(k)) is Err,
    ensures
        percentage_sum(values) == percentage_sum(values.take(k)),
    decreases values.len() - k,
{
    if k < values.len() {
        assert(values.take(k + 1).drop_last() =~= values.take(k));
        lemma_percentage_sum_err_prefix(values, k + 1);
    } else {
        assert(values.take(k) =~= values);
    }
}


/// Panel `p` covers cell `(r, c)`.
pub open spec fn covers(p: PanelView, r: int, c: int) -> bool {
    p.row <= r < p.row + p.row_span && p.col <= c < p.col + p.col_span
}

/// The first of `panels[0..i]` that covers cell `(r, c)`: the panel that
/// claimed the cell first.
pub open spec fn first_claimer(panels: Seq<PanelView>, i: int, r: int, c: int) -> Option<int>
    decreases i,
{
    if i <= 0 {
        None
    } else {
        match first_claimer(panels, i - 1, r, c) {
            Some(j) => Some(j),
            None => if covers(panels[i - 1], r, c) { Some(i - 1) } else { None },
        }
    }
}

pub open spec fn min_usize(a: int, b: int) -> int {
    if a <= b { a } else { b }
}

/// The overlap reported for panel `i` at cell `(r, c)`, if an earlier panel claimed it.
pub open spec fn overlap_cell(panels: Seq<PanelView>, i: int, r: int, c: int) -> Seq<ConfigErrorView> {
    match first_claimer(panels, i, r, c) {
        Some(j) => seq![ConfigErrorView::SpanOverlap {
            id1: instance_id_of(panels[j]),
            id2: instance_id_of(panels[i]),
            overlap_row: r as usize,
            overlap_col: c as usize,
        }],
        None => seq![],
    }
}

/// Overlaps of panel `i` on row `r`, columns `c0..c1`, in column order.
pub open spec fn overlap_row(panels: Seq<PanelView>, i: int, r: int, c0: int, c1: int) -> Seq<ConfigErrorView>
    decreases c1 - c0,
{
    if c1 <= c0 {
        seq![]
    } else {
        overlap_row(panels, i, r, c0, c1 - 1) + overlap_cell(panels, i, r, c1 - 1)
    }
}

/// Overlaps of panel `i` on rows `r0..r1` and columns `c0..c1`, in row-major order.
pub open spec fn overlap_rows(panels: Seq<PanelView>, i: int, r0: int, r1: int, c0: int, c1: int) -> Seq<ConfigErrorView>
    decreases r1 - r0,
{
    if r1 <= r0 {
        seq![]
    } else {
        overlap_rows(panels, i, r0, r1 - 1, c0, c1) + overlap_row(panels, i, r1 - 1, c0, c1)
    }
}

/// The overlaps found for panel `i`: the cells of its span that lie on the
/// grid and that an earlier panel already claimed.
pub open spec fn panel_overlaps(layout: ProfileView, i: int) -> Seq<ConfigErrorView> {
    let p = layout.panels[i];
    overlap_rows(
        layout.panels,
        i,
        p.row as int,
        min_usize(p.row + p.row_span, layout.rows as int),
        p.col as int,
        min_usize(p.col + p.col_span, layout.columns as int),
    )
}

/// Some panel before `i` has the same instance id as panel `i`.
pub open spec fn id_seen_before(panels: Seq<PanelView>, i: int) -> bool {
    exists|j: int| 0 <= j < i && instance_id_of(panels[j]) == instance_id_of(panels[i])
}

/// The widget type is one of `known`.
pub open spec fn is_known(known: Seq<Seq<char>>, t: Seq<char>) -> bool {
    known.contains(t)
}

pub open spec fn span_error(p: PanelView) -> Seq<ConfigErrorView> {
    if p.col_span == 0 || p.row_span == 0 {
        seq![ConfigErrorView::InvalidSpan {
            id: instance_id_of(p),
            row: p.row,
            col: p.col,
            col_span: p.col_span,
            row_span: p.row_span,
        }]
    } else {
        seq![]
    }
}

pub open spec fn bounds_error(layout: ProfileView, p: PanelView) -> Seq<ConfigErrorView> {
    if layout.rows > 0 && layout.columns > 0 && (p.row + p.row_span > layout.rows || p.col
        + p.col_span > layout.columns) {
        seq![ConfigErrorView::SpanOutOfBounds {
            id: instance_id_of(p),
            row: p.row,
            col: p.col,
            col_span: p.col_span,
            row_span: p.row_span,
            rows: layout.rows,
            cols: layout.columns,
        }]
    } else {
        seq![]
    }
}

pub open spec fn type_error(known: Seq<Seq<char>>, p: PanelView) -> Seq<ConfigErrorView> {
    if !is_known(known, p.widget_type) {
        seq![ConfigErrorView::UnknownWidgetType { widget_type: p.widget_type }]
    } else {
        seq![]
    }
}

pub open spec fn id_error(p: PanelView) -> Seq<ConfigErrorView> {
    if !valid_instance_id(instance_id_of(p)) {
        seq![ConfigErrorView::InvalidInstanceId { id: instance_id_of(p) }]
    } else {
        seq![]
    }
}

pub open spec fn dup_error(panels: Seq<PanelView>, i: int) -> Seq<ConfigErrorView> {
    if id_seen_before(panels, i) {
        seq![ConfigErrorView::DuplicateInstanceId { id: instance_id_of(panels[i]) }]
    } else {
        seq![]
    }
}

/// Everything reported about panel `i`, in the order the checks run.
pub open spec fn panel_errors(layout: ProfileView, known: Seq<Seq<char>>, i: int) -> Seq<ConfigErrorView> {
    let p = layout.panels[i];
    span_error(p) + bounds_error(layout, p) + panel_overlaps(layout, i) + type_error(known, p) + id_error(p)
        + dup_error(layout.panels, i)
}

/// The errors of panels `0..n`, panel by panel.
pub open spec fn panels_errors(layout: ProfileView, known: Seq<Seq<char>>, n: int) -> Seq<ConfigErrorView>
    decreases n,
{
    if n <= 0 {
        seq![]
    } else {
        panels_errors(layout, known, n - 1) + panel_errors(layout, known, n - 1)
    }
}

/// The check of one sizing list (`column_widths` or `row_heights`) against
/// the number of grid lines it sizes.
pub open spec fn sizing_errors(sizes: Option<Seq<Seq<char>>>, expected: usize, columns: bool) -> Seq<ConfigErrorView> {
    match sizes {
        None => seq![],
        Some(w) => if w.len() != expected {
            if columns {
                seq![ConfigErrorView::ColumnWidthsMismatch { expected, got: w.len() as usize }]
            } else {
                seq![ConfigErrorView::RowHeightsMismatch { expected, got: w.len() as usize }]
            }
        } else {
            match percentage_sum(w) {
                Ok(sum) => if sum != 100 {
                    seq![ConfigErrorView::PercentageSumError { sum }]
                } else {
                    seq![]
                },
                Err(bad) => seq![ConfigErrorView::InvalidPercentage { value: bad }],
            }
        },
    }
}

/// Some panel has instance id `id`.
pub open spec fn has_panel_id(panels: Seq<PanelView>, id: Seq<char>) -> bool {
    exists|j: int| 0 <= j < panels.len() && instance_id_of(panels[j]) == id
}

/// Widget sections `widgets[0..k]` that name no panel, in order.
pub open spec fn orphan_errors(widgets: Seq<Seq<char>>, panels: Seq<PanelView>, k: int) -> Seq<ConfigErrorView>
    decreases k,
{
    if k <= 0 {
        seq![]
    } else {
        orphan_errors(widgets, panels, k - 1) + if has_panel_id(panels, widgets[k - 1]) {
            seq![]
        } else {
            seq![ConfigErrorView::OrphanWidgetSection { id: widgets[k - 1] }]
        }
    }
}

/// All errors of a profile, in the order they are reported.
pub open spec fn profile_errors(layout: ProfileView, widgets: Seq<Seq<char>>, known: Seq<Seq<char>>) -> Seq<ConfigErrorView> {
    let grid_err = if layout.rows == 0 || layout.columns == 0 {
        seq![ConfigErrorView::InvalidGridDimensions { rows: layout.rows, columns: layout.columns }]
    } else {
        seq![]
    };
    grid_err + panels_errors(layout, known, layout.panels.len() as int) + sizing_errors(
        layout.column_widths,
        layout.columns,
        true,
    ) + sizing_errors(layout.row_heights, layout.rows, false) + orphan_errors(
        widgets,
        layout.panels,
        widgets.len() as int,
    )
}

/// All warnings of a profile.
pub open spec fn profile_warnings(layout: ProfileView) -> Seq<ConfigWarningView> {
    if layout.panels.len() == 0 {
        seq![ConfigWarningView::EmptyPanels]
    } else {
        seq![]
    }
}

/// Span arithmetic of every panel fits in `usize`.
pub open spec fn spans_fit(layout: ProfileView) -> bool {
    forall|i: int|
        0 <= i < layout.panels.len() ==> (#[trigger] layout.panels[i]).row + layout.panels[i].row_span
            <= usize::MAX && layout.panels[i].col + layout.panels[i].col_span <= usize::MAX
}

pub open spec fn known_view(known: Seq<&str>) -> Seq<Seq<char>> {
    known.map_values(|s: &str| s@)
}

fn is_known_exec(known: &Vec<&str>, t: &str) -> (r: bool)
    ensures
        r == is_known(known_view(known@), t@),
{
    let mut i: usize = 0;
    while i < known.len()
        invariant
            i <= known.len(),
            forall|j: int| 0 <= j < i ==> known@[j]@ != t@,
        decreases known.len() - i,
    {
        if str_eq(known[i], t) {
            assert(known_view(known@)[i as int] == t@);
            return true;
        }
        i += 1;
    }
    assert forall|j: int| 0 <= j < known_view(known@).len() implies known_view(known@)[j] != t@ by {
        assert(known_view(known@)[j] == known@[j]@);
    }
    false
}

pub(crate) fn first_claimer_exec(panels: &Vec<PanelConfig>, i: usize, r: usize, c: usize) -> (res: Option<usize>)
    requires
        i <= panels.len(),
        spans_fit_panels(panels_view(panels@)),
    ensures
        match res {
            Some(j) => j < i && first_claimer(panels_view(panels@), i as int, r as int, c as int) == Some(j as int),
            None => first_claimer(panels_view(panels@), i as int, r as int, c as int) is None,
        },
{
    let ghost pv = panels_view(panels@);
    let mut j: usize = 0;
    while j < i
        invariant
            j <= i <= panels.len(),
            pv == panels_view(panels@),
            spans_fit_panels(pv),
            first_claimer(pv, j as int, r as int, c as int) is None,
        decreases i - j,
    {
        let p = &panels[j];
        assert(pv[j as int] == p@);
        if p.row <= r && r < p.row + p.row_span && p.col <= c && c < p.col + p.col_span {
            proof {
                lemma_first_claimer_stable(pv, j as int + 1, i as int, r as int, c as int);
            }
            return Some(j);
        }
        j += 1;
    }
    None
}

pub open spec fn spans_fit_panels(panels: Seq<PanelView>) -> bool {
    forall|i: int|
        0 <= i < panels.len() ==> (#[trigger] panels[i]).row + panels[i].row_span <= usize::MAX
            && panels[i].col + panels[i].col_span <= usize::MAX
}

/// Once a cell has a claimer, later panels do not change it.
pub proof fn lemma_first_claimer_stable(panels: Seq<PanelView>, k: int, i: int, r: int, c: int)
    requires
        0 <= k <= i,
        first_claimer(panels, k, r, c) is Some,
    ensures
        first_claimer(panels, i, r, c) == first_claimer(panels, k, r, c),
    decreases i - k,
{
    if k < i {
        lemma_first_claimer_stable(panels, k, i - 1, r, c);
    }
}


fn push_error(errors: &mut Vec<ConfigError>, e: ConfigError)
    ensures
        errors_view(final(errors)@) == errors_view(old(errors)@).push(e@),
{
    errors.push(e);
    assert(errors_view(errors@) =~= errors_view(old(errors)@).push(e@));
}

fn push_overlaps(layout: &ProfileConfig, i: usize, errors: &mut Vec<ConfigError>)
    requires
        i < layout.panels.len(),
        spans_fit(layout@),
    ensures
        errors_view(final(errors)@) == errors_view(old(errors)@) + panel_overlaps(layout@, i as int),
{
    let ghost pv = layout@.panels;
    let ghost start = errors_view(errors@);
    let p = &layout.panels[i];
    assert(pv[i as int] == p@);
    assert(spans_fit_panels(pv));
    let r_end = if p.row + p.row_span <= layout.rows { p.row + p.row_span } else { layout.rows };
    let c_end = if p.col + p.col_span <= layout.columns { p.col + p.col_span } else { layout.columns };
    let id = p.instance_id();
    let mut r = p.row;
    while r < r_end
        invariant
            i < layout.panels.len(),
            pv == layout@.panels,
            spans_fit_panels(pv),
            p@ == pv[i as int],
            id@ == instance_id_of(pv[i as int]),
            p.row <= r,
            r <= r_end || r == p.row,
            errors_view(errors@) == start + overlap_rows(pv, i as int, p.row as int, r as int, p.col as int, c_end as int),
        decreases r_end - r,
    {
        let mut c = p.col;
        while c < c_end
            invariant
                i < layout.panels.len(),
                pv == layout@.panels,
                spans_fit_panels(pv),
                p@ == pv[i as int],
                id@ == instance_id_of(pv[i as int]),
                p.row <= r < r_end,
                p.col <= c,
                c <= c_end || c == p.col,
                errors_view(errors@) == start + overlap_rows(pv, i as int, p.row as int, r as int, p.col as int, c_end as int)
                    + overlap_row(pv, i as int, r as int, p.col as int, c as int),
            decreases c_end - c,
        {
            let ghost before = errors_view(errors@);
            match first_claimer_exec(&layout.panels, i, r, c) {
                Some(j) => {
                    let owner = layout.panels[j].instance_id();
                    assert(pv[j as int] == layout.panels@[j as int]@);
                    push_error(errors, ConfigError::SpanOverlap {
                        id1: owner.to_string(),
                        id2: id.to_string(),
                        overlap_row: r,
                        overlap_col: c,
                    });
                },
                None => {},
            }
            assert(overlap_row(pv, i as int, r as int, p.col as int, c + 1) == overlap_row(pv, i as int, r as int, p.col as int, c as int)
                + overlap_cell(pv, i as int, r as int, c as int));
            assert(errors_view(errors@) =~= before + overlap_cell(pv, i as int, r as int, c as int));
            c += 1;
        }
        assert(overlap_row(pv, i as int, r as int, p.col as int, c as int) == overlap_row(pv, i as int, r as int, p.col as int, c_end as int));
        r += 1;
    }
    assert(overlap_rows(pv, i as int, p.row as int, r as int, p.col as int, c_end as int) == overlap_rows(pv, i as int, p.row as int, r_end as int, p.col as int, c_end as int));
}

fn id_seen_before_exec(panels: &Vec<PanelConfig>, i: usize) -> (r: bool)
    requires
        i < panels.len(),
    ensures
        r == id_seen_before(panels_view(panels@), i as int),
{
    let ghost pv = panels_view(panels@);
    let id = panels[i].instance_id();
    let mut j: usize = 0;
    while j < i
        invariant
            j <= i < panels.len(),
            pv == panels_view(panels@),
            id@ == instance_id_of(pv[i as int]),
            forall|k: int| 0 <= k < j ==> instance_id_of(pv[k]) != instance_id_of(pv[i as int]),
        decreases i - j,
    {
        let other = panels[j].instance_id();
        assert(other@ == instance_id_of(pv[j as int]));
        if str_eq(other, id) {
            return true;
        }
        j += 1;
    }
    false
}

fn has_panel_id_exec(panels: &Vec<PanelConfig>, id: &str) -> (r: bool)
    ensures
        r == has_panel_id(panels_view(panels@), id@),
{
    let ghost pv = panels_view(panels@);
    let mut j: usize = 0;
    while j < panels.len()
        invariant
            j <= panels.len(),
            pv == panels_view(panels@),
            forall|k: int| 0 <= k < j ==> instance_id_of(pv[k]) != id@,
        decreases panels.len() - j,
    {
        let other = panels[j].instance_id();
        assert(other@ == instance_id_of(pv[j as int]));
        if str_eq(other, id) {
            return true;
        }
        j += 1;
    }
    false
}

fn push_span_error(p: &PanelConfig, errors: &mut Vec<ConfigError>)
    ensures
        errors_view(final(errors)@) == errors_view(old(errors)@) + span_error(p@),
{
    if p.col_span == 0 || p.row_span == 0 {
        let id = p.instance_id();
        push_error(errors, ConfigError::InvalidSpan {
            id: id.to_string(),
            row: p.row,
            col: p.col,
            col_span: p.col_span,
            row_span: p.row_span,
        });
    }
    assert(errors_view(errors@) =~= errors_view(old(errors)@) + span_error(p@));
}

fn push_bounds_error(layout: &ProfileConfig, p: &PanelConfig, errors: &mut Vec<ConfigError>)
    requires
        p.row + p.row_span <= usize::MAX,
        p.col + p.col_span <= usize::MAX,
    ensures
        errors_view(final(errors)@) == errors_view(old(errors)@) + bounds_error(layout@, p@),
{
    if layout.rows > 0 && layout.columns > 0 && (p.row + p.row_span > layout.rows || p.col + p.col_span
        > layout.columns) {
        let id = p.instance_id();
        push_error(errors, ConfigError::SpanOutOfBounds {
            id: id.to_string(),
            row: p.row,
            col: p.col,
            col_span: p.col_span,
            row_span: p.row_span,
            rows: layout.rows,
            cols: layout.columns,
        });
    }
    assert(errors_view(errors@) =~= errors_view(old(errors)@) + bounds_error(layout@, p@));
}

fn push_type_error(known_types: &Vec<&str>, p: &PanelConfig, errors: &mut Vec<ConfigError>)
    ensures
        errors_view(final(errors)@) == errors_view(old(errors)@) + type_error(known_view(known_types@), p@),
{
    if !is_known_exec(known_types, p.widget_type.as_str()) {
        push_error(errors, ConfigError::UnknownWidgetType { widget_type: p.widget_type.clone() });
    }
    assert(errors_view(errors@) =~= errors_view(old(errors)@) + type_error(known_view(known_types@), p@));
}

fn push_id_error(p: &PanelConfig, errors: &mut Vec<ConfigError>)
    ensures
        errors_view(final(errors)@) == errors_view(old(errors)@) + id_error(p@),
{
    let id = p.instance_id();
    if !is_valid_instance_id(id) {
        push_error(errors, ConfigError::InvalidInstanceId { id: id.to_string() });
    }
    assert(errors_view(errors@) =~= errors_view(old(errors)@) + id_error(p@));
}

fn push_dup_error(panels: &Vec<PanelConfig>, i: usize, errors: &mut Vec<ConfigError>)
    requires
        i < panels.len(),
    ensures
        errors_view(final(errors)@) == errors_view(old(errors)@) + dup_error(panels_view(panels@), i as int),
{
    if id_seen_before_exec(panels, i) {
        let id = panels[i].instance_id();
        push_error(errors, ConfigError::DuplicateInstanceId { id: id.to_string() });
    }
    assert(errors_view(errors@) =~= errors_view(old(errors)@) + dup_error(panels_view(panels@), i as int));
}

fn push_panel_errors(layout: &ProfileConfig, known_types: &Vec<&str>, i: usize, errors: &mut Vec<ConfigError>)
    requires
        i < layout.panels.len(),
        spans_fit(layout@),
    ensures
        errors_view(final(errors)@) == errors_view(old(errors)@) + panel_errors(layout@, known_view(known_types@), i as int),
{
    let ghost start = errors_view(errors@);
    let p = &layout.panels[i];
    assert(layout@.panels[i as int] == p@);
    push_span_error(p, errors);
    push_bounds_error(layout, p, errors);
    push_overlaps(layout, i, errors);
    push_type_error(known_types, p, errors);
    push_id_error(p, errors);
    push_dup_error(&layout.panels, i, errors);
    assert(errors_view(errors@) =~= start + panel_errors(layout@, known_view(known_types@), i as int));
}

fn push_sizing_errors(sizes: &Option<Vec<String>>, expected: usize, columns: bool, errors: &mut Vec<ConfigError>)
    ensures
        errors_view(final(errors)@) == errors_view(old(errors)@) + sizing_errors(opt_strings_view(*sizes), expected, columns),
{
    match sizes {
        None => {
            assert(errors_view(errors@) =~= errors_view(old(errors)@) + sizing_errors(opt_strings_view(*sizes), expected, columns));
        },
        Some(w) => {
            if w.len() != expected {
                if columns {
                    push_error(errors, ConfigError::ColumnWidthsMismatch { expected, got: w.len() });
                } else {
                    push_error(errors, ConfigError::RowHeightsMismatch { expected, got: w.len() });
                }
            } else {
                match parse_percentage_sum(w) {
                    Ok(sum) => {
                        if sum != 100 {
                            push_error(errors, ConfigError::PercentageSumError { sum });
                        } else {
                            assert(errors_view(errors@) =~= errors_view(old(errors)@) + sizing_errors(opt_strings_view(*sizes), expected, columns));
                        }
                    },
                    Err(bad) => {
                        push_error(errors, ConfigError::InvalidPercentage { value: bad });
                    },
                }
            }
        },
    }
}

/// Validate a single profile's layout against the list of known widget types
/// and the names of the `[widgets.*]` sections.
pub fn validate_profile(layout: &ProfileConfig, widgets: &Vec<String>, known_types: &Vec<&str>) -> (r: ValidationResult)
    requires
        spans_fit(layout@),
    ensures
        errors_view(r.errors@) == profile_errors(layout@, strings_view(widgets@), known_view(known_types@)),
        warnings_view(r.warnings@) == profile_warnings(layout@),
{
    let ghost known = known_view(known_types@);
    let mut errors: Vec<ConfigError> = Vec::new();
    let mut warnings: Vec<ConfigWarning> = Vec::new();

    // 1. Grid dimensions must be > 0
    if layout.rows == 0 || layout.columns == 0 {
        push_error(&mut errors, ConfigError::InvalidGridDimensions { rows: layout.rows, columns: layout.columns });
    }
    let ghost grid = errors_view(errors@);
    assert(grid =~= (if layout.rows == 0 || layout.columns == 0 {
        seq![ConfigErrorView::InvalidGridDimensions { rows: layout.rows, columns: layout.columns }]
    } else {
        seq![]
    }));

    // 2. Panel-level checks
    let mut i: usize = 0;
    while i < layout.panels.len()
        invariant
            i <= layout.panels.len(),
            spans_fit(layout@),
            known == known_view(known_types@),
            errors_view(errors@) == grid + panels_errors(layout@, known, i as int),
        decreases layout.panels.len() - i,
    {
        push_panel_errors(layout, known_types, i, &mut errors);
        assert(grid + panels_errors(layout@, known, i + 1) =~= grid + panels_errors(layout@, known, i as int)
            + panel_errors(layout@, known, i as int));
        i += 1;
    }

    // 3. Empty panels warning
    if layout.panels.len() == 0 {
        warnings.push(ConfigWarning::EmptyPanels);
    }
    assert(warnings_view(warnings@) =~= profile_warnings(layout@));

    // 4-5. Sizing lists
    push_sizing_errors(&layout.column_widths, layout.columns, true, &mut errors);
    push_sizing_errors(&layout.row_heights, layout.rows, false, &mut errors);
    let ghost before_orphans = errors_view(errors@);

    // 6. Orphan widget sections
    let mut k: usize = 0;
    while k < widgets.len()
        invariant
            k <= widgets.len(),
            errors_view(errors@) == before_orphans + orphan_errors(strings_view(widgets@), layout@.panels, k as int),
        decreases widgets.len() - k,
    {
        let ghost prev = errors_view(errors@);
        assert(strings_view(widgets@)[k as int] == widgets@[k as int]@);
        if !has_panel_id_exec(&layout.panels, widgets[k].as_str()) {
            push_error(&mut errors, ConfigError::OrphanWidgetSection { id: widgets[k].clone() });
        }
        assert(errors_view(errors@) =~= prev + (if has_panel_id(layout@.panels, strings_view(widgets@)[k as int]) {
            seq![]
        } else {
            seq![ConfigErrorView::OrphanWidgetSection { id: strings_view(widgets@)[k as int] }]
        }));
        k += 1;
    }
    assert(errors_view(errors@) =~= profile_errors(layout@, strings_view(widgets@), known));
    ValidationResult { errors, warnings }
}


// ─── Config and normalization ────────────────────────────────────────────────

/// A parsed configuration file. `widgets` holds the names of its
/// `[widgets.*]` sections, in file order.
pub struct Config {
    pub general: GeneralConfig,
    pub keybinds: KeybindsConfig,
    pub layout: Option<ProfileConfig>,
    pub profiles: Option<IndexMap<String, ProfileConfig>>,
    pub theme: ThemeConfig,
    pub widgets: Vec<String>,
}

/// Config after normalization: a legacy `[layout]` becomes a single
/// "default" profile, and `[profiles.*]` is kept as-is.
pub struct NormalizedConfig {
    pub general: GeneralConfig,
    pub profiles: IndexMap<String, ProfileConfig>,
    pub default_profile: String,
    pub theme: ThemeConfig,
    pub keybinds: KeybindsConfig,
    pub widgets: Vec<String>,
}

/// Why a configuration cannot be normalized.
#[derive(Debug, PartialEq)]
pub enum NormalizeError {
    /// Both `[layout]` and `[profiles.*]` are present.
    BothLayoutAndProfiles,
    /// Neither `[layout]` nor a non-empty `[profiles.*]` is present.
    MissingLayout,
    /// `default_profile` names no profile.
    DefaultProfileNotFound { name: String },
}

pub open spec fn opt_entries(p: Option<IndexMap<String, ProfileConfig>>) -> Seq<(Seq<char>, ProfileView)> {
    match p {
        Some(m) => profile_entries(m),
        None => seq![],
    }
}

impl Config {
    /// The config has a `[layout]` section.
    pub open spec fn has_layout(&self) -> bool {
        self.layout is Some
    }

    /// The config has a non-empty `[profiles.*]` table.
    pub open spec fn has_profiles(&self) -> bool {
        opt_entries(self.profiles).len() > 0
    }

    /// The name of the profile a profiles-form config starts on.
    pub open spec fn default_name(&self) -> Seq<char> {
        match self.general.default_profile {
            Some(n) => n@,
            None => opt_entries(self.profiles)[0].0,
        }
    }
}

impl NormalizedConfig {
    /// The default profile names an entry of the profile map.
    pub open spec fn wf(&self) -> bool {
        has_name(profile_entries(self.profiles), self.default_profile@)
    }

    pub fn default_profile(&self) -> (r: &str)
        ensures
            r@ == self.default_profile@,
    {
        self.default_profile.as_str()
    }

    pub fn profiles(&self) -> (r: &IndexMap<String, ProfileConfig>)
        ensures
            profile_entries(*r) == profile_entries(self.profiles),
    {
        &self.profiles
    }

    /// The layout of the profile named by `default_profile`.
    pub open spec fn active_view(&self) -> ProfileView {
        profile_entries(self.profiles)[index_of_name(profile_entries(self.profiles), self.default_profile@)].1
    }

    /// The profile named by `default_profile`.
    pub fn active_profile_config(&self) -> (r: &ProfileConfig)
        requires
            self.wf(),
        ensures
            r@ == self.active_view(),
    {
        match map_get(&self.profiles, self.default_profile.as_str()) {
            Some(p) => p,
            None => {
                proof {
                    assert(false);
                }
                unreached()
            },
        }
    }
}

fn copy_profiles(m: &IndexMap<String, ProfileConfig>) -> (r: IndexMap<String, ProfileConfig>)
    ensures
        profile_entries(r) == profile_entries(*m),
{
    let n = map_len(m);
    let mut r = map_new();
    let mut i: usize = 0;
    while i < n
        invariant
            i <= n,
            n == profile_entries(*m).len(),
            profile_entries(r) == profile_entries(*m).take(i as int),
        decreases n - i,
    {
        match map_get_index(m, i) {
            Some(kv) => {
                let ghost e = profile_entries(*m);
                map_insert(&mut r, kv.0.clone(), kv.1.duplicate());
                assert(profile_entries(r) =~= e.take(i + 1));
            },
            None => {},
        }
        i += 1;
    }
    assert(profile_entries(*m).take(n as int) =~= profile_entries(*m));
    r
}


/// The profile errors of entries `0..n`, each profile validated on its own.
pub open spec fn entries_errors(e: Seq<(Seq<char>, ProfileView)>, widgets: Seq<Seq<char>>, known: Seq<Seq<char>>, n: int) -> Seq<ConfigErrorView>
    decreases n,
{
    if n <= 0 {
        seq![]
    } else {
        entries_errors(e, widgets, known, n - 1) + profile_errors(e[n - 1].1, widgets, known)
    }
}

/// The warnings of entries `0..n`.
pub open spec fn entries_warnings(e: Seq<(Seq<char>, ProfileView)>, n: int) -> Seq<ConfigWarningView>
    decreases n,
{
    if n <= 0 {
        seq![]
    } else {
        entries_warnings(e, n - 1) + profile_warnings(e[n - 1].1)
    }
}

/// Invalid profile names among entries `0..n`, in order.
pub open spec fn name_errors(e: Seq<(Seq<char>, ProfileView)>, n: int) -> Seq<ConfigErrorView>
    decreases n,
{
    if n <= 0 {
        seq![]
    } else {
        name_errors(e, n - 1) + if valid_profile_name(e[n - 1].0) {
            seq![]
        } else {
            seq![ConfigErrorView::InvalidProfileName { name: e[n - 1].0 }]
        }
    }
}

/// Every profile's panels have spans whose arithmetic fits in `usize`.
pub open spec fn all_spans_fit(e: Seq<(Seq<char>, ProfileView)>) -> bool {
    forall|i: int| 0 <= i < e.len() ==> spans_fit(#[trigger] e[i].1)
}

impl NormalizedConfig {
    /// The general, theme, keybind and widget settings are those of `c`.
    pub open spec fn carries_over(&self, c: &Config) -> bool {
        &&& self.general.tick_rate == c.general.tick_rate
        &&& opt_view(self.general.default_profile) == opt_view(c.general.default_profile)
        &&& self.theme.same_as(&c.theme)
        &&& self.keybinds.same_as(&c.keybinds)
        &&& strings_view(self.widgets@) == strings_view(c.widgets@)
    }

    /// Back to a `Config` in profiles form (no legacy `[layout]`), for
    /// writing out.
    pub fn to_saveable(&self) -> (r: Config)
        ensures
            r.layout is None,
            r.profiles is Some,
            opt_entries(r.profiles) == profile_entries(self.profiles),
            self.carries_over(&r),
    {
        Config {
            general: self.general.duplicate(),
            keybinds: self.keybinds.duplicate(),
            layout: None,
            profiles: Some(copy_profiles(&self.profiles)),
            theme: self.theme.duplicate(),
            widgets: clone_strings(&self.widgets),
        }
    }

    /// Validate every profile independently, after checking the format of
    /// every profile name.
    pub fn validate(&self, known_types: &Vec<&str>) -> (r: ValidationResult)
        requires
            all_spans_fit(profile_entries(self.profiles)),
        ensures
            errors_view(r.errors@) == name_errors(profile_entries(self.profiles), profile_entries(self.profiles).len() as int)
                + entries_errors(
                profile_entries(self.profiles),
                strings_view(self.widgets@),
                known_view(known_types@),
                profile_entries(self.profiles).len() as int,
            ),
            warnings_view(r.warnings@) == entries_warnings(
                profile_entries(self.profiles),
                profile_entries(self.profiles).len() as int,
            ),
    {
        let ghost e = profile_entries(self.profiles);
        let n = map_len(&self.profiles);
        let mut errors: Vec<ConfigError> = Vec::new();
        let mut warnings: Vec<ConfigWarning> = Vec::new();

        let mut i: usize = 0;
        while i < n
            invariant
                i <= n,
                n == e.len(),
                e == profile_entries(self.profiles),
                errors_view(errors@) == name_errors(e, i as int),
            decreases n - i,
        {
            match map_get_index(&self.profiles, i) {
                Some(kv) => {
                    if !is_valid_profile_name(kv.0.as_str()) {
                        push_error(&mut errors, ConfigError::InvalidProfileName { name: kv.0.clone() });
                    }
                    assert(errors_view(errors@) =~= name_errors(e, i + 1));
                },
                None => {},
            }
            i += 1;
        }
        let ghost names = errors_view(errors@);

        let mut i: usize = 0;
        while i < n
            invariant
                i <= n,
                n == e.len(),
                e == profile_entries(self.profiles),
                all_spans_fit(e),
                errors_view(errors@) == names + entries_errors(e, strings_view(self.widgets@), known_view(known_types@), i as int),
                warnings_view(warnings@) == entries_warnings(e, i as int),
            decreases n - i,
        {
            match map_get_index(&self.profiles, i) {
                Some(kv) => {
                    assert(spans_fit(e[i as int].1));
                    let mut result = validate_profile(kv.1, &self.widgets, known_types);
                    let ghost before_e = errors_view(errors@);
                    let ghost before_w = warnings_view(warnings@);
                    let ghost new_e = errors_view(result.errors@);
                    let ghost new_w = warnings_view(result.warnings@);
                    errors.append(&mut result.errors);
                    warnings.append(&mut result.warnings);
                    assert(errors_view(errors@) =~= before_e + new_e);
                    assert(warnings_view(warnings@) =~= before_w + new_w);
                },
                None => {},
            }
            i += 1;
        }
        ValidationResult { errors, warnings }
    }

    /// `validate`, on any config: `None` when some profile has a panel whose
    /// span arithmetic would overflow.
    pub fn validate_checked(&self, known_types: &Vec<&str>) -> (r: Option<ValidationResult>)
        ensures
            r is None <==> !all_spans_fit(profile_entries(self.profiles)),
            r matches Some(v) ==> errors_view(v.errors@) == name_errors(
                profile_entries(self.profiles),
                profile_entries(self.profiles).len() as int,
            ) + entries_errors(
                profile_entries(self.profiles),
                strings_view(self.widgets@),
                known_view(known_types@),
                profile_entries(self.profiles).len() as int,
            ) && warnings_view(v.warnings@) == entries_warnings(
                profile_entries(self.profiles),
                profile_entries(self.profiles).len() as int,
            ),
    {
        let ghost e = profile_entries(self.profiles);
        let n = map_len(&self.profiles);
        let mut i: usize = 0;
        while i < n
            invariant
                i <= n,
                n == e.len(),
                e == profile_entries(self.profiles),
                forall|j: int| 0 <= j < i ==> spans_fit(#[trigger] e[j].1),
            decreases n - i,
        {
            match map_get_index(&self.profiles, i) {
                Some(kv) => {
                    if !kv.1.spans_in_range() {
                        return None;
                    }
                },
                None => {},
            }
            i += 1;
        }
        Some(self.validate(known_types))
    }
}

impl Config {
    /// Normalize the config, converting a legacy `[layout]` into a single
    /// "default" profile.
    ///
    /// Fails when both `[layout]` and `[profiles.*]` are present, when neither
    /// is, or when `default_profile` names no profile.
    pub fn normalize(&self) -> (r: Result<NormalizedConfig, NormalizeError>)
        ensures
            self.has_layout() && self.has_profiles() ==> r == Err::<NormalizedConfig, NormalizeError>(
                NormalizeError::BothLayoutAndProfiles,
            ),
            !self.has_layout() && !self.has_profiles() ==> r == Err::<NormalizedConfig, NormalizeError>(
                NormalizeError::MissingLayout,
            ),
            self.has_layout() && !self.has_profiles() ==> (r matches Ok(n) && profile_entries(n.profiles)
                == seq![("default"@, self.layout.unwrap()@)] && n.default_profile@ == "default"@
                && n.carries_over(self)),
            !self.has_layout() && self.has_profiles() && !has_name(opt_entries(self.profiles), self.default_name())
                ==> (r matches Err(NormalizeError::DefaultProfileNotFound { name }) && name@ == self.default_name()),
            !self.has_layout() && self.has_profiles() && has_name(opt_entries(self.profiles), self.default_name())
                ==> (r matches Ok(n) && profile_entries(n.profiles) == opt_entries(self.profiles)
                && n.default_profile@ == self.default_name() && n.carries_over(self)),
            r matches Ok(n) ==> n.wf(),
    {
        let has_layout = self.layout.is_some();
        let has_profiles = match &self.profiles {
            Some(p) => map_len(p) > 0,
            None => false,
        };

        if has_layout && has_profiles {
            return Err(NormalizeError::BothLayoutAndProfiles);
        }
        if !has_layout && !has_profiles {
            return Err(NormalizeError::MissingLayout);
        }

        let (default_profile, profiles) = match &self.layout {
            Some(layout) => {
                let mut map = map_new();
                let name = String::from_str("default");
                map_insert(&mut map, name, layout.duplicate());
                assert(profile_entries(map) =~= seq![("default"@, layout@)]);
                assert(profile_entries(map)[0].0 == "default"@);
                (String::from_str("default"), map)
            },
            None => {
                let src = match &self.profiles {
                    Some(p) => p,
                    None => {
                        proof {
                            assert(false);
                        }
                        unreached()
                    },
                };
                let default_name = match &self.general.default_profile {
                    Some(n) => n.clone(),
                    None => match map_get_index(src, 0) {
                        Some(kv) => kv.0.clone(),
                        None => {
                            proof {
                                assert(false);
                            }
                            unreached()
                        },
                    },
                };
                if !map_contains(src, default_name.as_str()) {
                    return Err(NormalizeError::DefaultProfileNotFound { name: default_name });
                }
                (default_name, copy_profiles(src))
            },
        };
        Ok(NormalizedConfig {
            general: self.general.duplicate(),
            profiles,
            default_profile,
            theme: self.theme.duplicate(),
            keybinds: self.keybinds.duplicate(),
            widgets: clone_strings(&self.widgets),
        })
    }

    /// The config normalizes (see `normalize`).
    pub open spec fn normalizes(&self) -> bool {
        ||| self.has_layout() && !self.has_profiles()
        ||| !self.has_layout() && self.has_profiles() && has_name(opt_entries(self.profiles), self.default_name())
    }

    /// The name of the profile the dashboard starts on.
    pub open spec fn active_name(&self) -> Seq<char> {
        if self.has_layout() {
            "default"@
        } else {
            self.default_name()
        }
    }

    /// The layout of the profile the dashboard starts on.
    pub open spec fn active_profile(&self) -> ProfileView {
        if self.has_layout() {
            self.layout.unwrap()@
        } else {
            opt_entries(self.profiles)[index_of_name(opt_entries(self.profiles), self.default_name())].1
        }
    }

    /// `r` is what validating this config gives: nothing for a config that
    /// does not normalize; otherwise the name and layout errors of the active
    /// profile, and its warnings.
    pub open spec fn validated(&self, widgets: Seq<Seq<char>>, known: Seq<Seq<char>>, r: ValidationResult) -> bool {
        if self.normalizes() {
            &&& errors_view(r.errors@) == active_errors(self.active_name(), self.active_profile(), widgets, known)
            &&& warnings_view(r.warnings@) == profile_warnings(self.active_profile())
        } else {
            r.errors@.len() == 0 && r.warnings@.len() == 0
        }
    }

    /// Validate the config: normalize it, then validate the active profile
    /// (its name and its layout). A config that does not normalize yields no
    /// errors and no warnings here (its structural problems are reported by
    /// `normalize`).
    pub fn validate(&self, known_types: &Vec<&str>) -> (r: ValidationResult)
        requires
            self.normalizes() ==> spans_fit(self.active_profile()),
        ensures
            self.validated(strings_view(self.widgets@), known_view(known_types@), r),
    {
        match self.normalize() {
            Ok(normalized) => {
                proof {
                    self.lemma_active_of_normalized(normalized);
                }
                validate_active(&normalized, known_types)
            },
            Err(_) => ValidationResult { errors: Vec::new(), warnings: Vec::new() },
        }
    }

    /// `validate`, on any config: `None` when the active profile has a panel
    /// whose span arithmetic would overflow.
    pub fn validate_checked(&self, known_types: &Vec<&str>) -> (r: Option<ValidationResult>)
        ensures
            r is None <==> (self.normalizes() && !spans_fit(self.active_profile())),
            r matches Some(v) ==> self.validated(strings_view(self.widgets@), known_view(known_types@), v),
    {
        match self.normalize() {
            Ok(normalized) => {
                proof {
                    self.lemma_active_of_normalized(normalized);
                }
                let p = normalized.active_profile_config();
                if !p.spans_in_range() {
                    return None;
                }
                Some(validate_active(&normalized, known_types))
            },
            Err(_) => Some(ValidationResult { errors: Vec::new(), warnings: Vec::new() }),
        }
    }

    /// The normalized config's default profile is this config's active one.
    proof fn lemma_active_of_normalized(&self, n: NormalizedConfig)
        requires
            n.wf(),
            self.has_layout() && !self.has_profiles() ==> (profile_entries(n.profiles) == seq![("default"@, self.layout.unwrap()@)]
                && n.default_profile@ == "default"@),
            !self.has_layout() && self.has_profiles() && has_name(opt_entries(self.profiles), self.default_name())
                ==> (profile_entries(n.profiles) == opt_entries(self.profiles) && n.default_profile@ == self.default_name()),
            self.normalizes(),
        ensures
            n.default_profile@ == self.active_name(),
            n.active_view() == self.active_profile(),
    {
        if self.has_layout() {
            let e = profile_entries(n.profiles);
            let i = index_of_name(e, n.default_profile@);
            assert(0 <= i < e.len() && e[i].0 == n.default_profile@);
            assert(i == 0);
        }
    }
}

/// The errors of validating the profile `layout` named `name`: an invalid
/// name first, then the layout's own errors.
pub open spec fn active_errors(name: Seq<char>, layout: ProfileView, widgets: Seq<Seq<char>>, known: Seq<Seq<char>>) -> Seq<ConfigErrorView> {
    (if valid_profile_name(name) {
        seq![]
    } else {
        seq![ConfigErrorView::InvalidProfileName { name }]
    }) + profile_errors(layout, widgets, known)
}

/// Validates the default profile of `n`: its name, then its layout.
fn validate_active(n: &NormalizedConfig, known_types: &Vec<&str>) -> (r: ValidationResult)
    requires
        n.wf(),
        spans_fit(n.active_view()),
    ensures
        errors_view(r.errors@) == active_errors(n.default_profile@, n.active_view(), strings_view(n.widgets@), known_view(known_types@)),
        warnings_view(r.warnings@) == profile_warnings(n.active_view()),
{
    let p = n.active_profile_config();
    let mut errors: Vec<ConfigError> = Vec::new();
    if !is_valid_profile_name(n.default_profile.as_str()) {
        push_error(&mut errors, ConfigError::InvalidProfileName { name: n.default_profile.clone() });
    }
    let ghost first = errors_view(errors@);
    let mut result = validate_profile(p, &n.widgets, known_types);
    let ghost rest = errors_view(result.errors@);
    errors.append(&mut result.errors);
    assert(errors_view(errors@) =~= first + rest);
    ValidationResult { errors, warnings: result.warnings }
}


// ─── What a clean validation guarantees ──────────────────────────────────────

/// A profile whose grid is non-empty, whose panels have positive spans inside
/// the grid, never share a cell, and have distinct instance ids.
pub open spec fn well_formed_grid(layout: ProfileView) -> bool {
    &&& layout.rows > 0
    &&& layout.columns > 0
    &&& forall|i: int|
        0 <= i < layout.panels.len() ==> {
            let p = #[trigger] layout.panels[i];
            &&& p.row_span >= 1
            &&& p.col_span >= 1
            &&& p.row + p.row_span <= layout.rows
            &&& p.col + p.col_span <= layout.columns
        }
    &&& forall|i: int, j: int, r: int, c: int|
        0 <= i < j < layout.panels.len() ==> !(#[trigger] covers(layout.panels[i], r, c) && #[trigger] covers(
            layout.panels[j],
            r,
            c,
        ))
    &&& forall|i: int, j: int|
        0 <= i < j < layout.panels.len() ==> instance_id_of(#[trigger] layout.panels[i]) != instance_id_of(
            #[trigger] layout.panels[j],
        )
}

proof fn lemma_panels_errors_empty(layout: ProfileView, known: Seq<Seq<char>>, n: int, i: int)
    requires
        0 <= i < n,
        panels_errors(layout, known, n).len() == 0,
    ensures
        panel_errors(layout, known, i).len() == 0,
    decreases n,
{
    if i < n - 1 {
        lemma_panels_errors_empty(layout, known, n - 1, i);
    }
}

proof fn lemma_first_claimer_some(panels: Seq<PanelView>, i: int, j: int, r: int, c: int)
    requires
        0 <= i < j,
        covers(panels[i], r, c),
    ensures
        first_claimer(panels, j, r, c) is Some,
    decreases j,
{
    if i < j - 1 {
        lemma_first_claimer_some(panels, i, j - 1, r, c);
    }
}

proof fn lemma_overlap_row_has_cell(panels: Seq<PanelView>, i: int, r: int, c0: int, c1: int, c: int)
    requires
        c0 <= c < c1,
        first_claimer(panels, i, r, c) is Some,
    ensures
        overlap_row(panels, i, r, c0, c1).len() > 0,
    decreases c1 - c0,
{
    if c < c1 - 1 {
        lemma_overlap_row_has_cell(panels, i, r, c0, c1 - 1, c);
    }
}

proof fn lemma_overlap_rows_has_cell(panels: Seq<PanelView>, i: int, r0: int, r1: int, c0: int, c1: int, r: int, c: int)
    requires
        r0 <= r < r1,
        c0 <= c < c1,
        first_claimer(panels, i, r, c) is Some,
    ensures
        overlap_rows(panels, i, r0, r1, c0, c1).len() > 0,
    decreases r1 - r0,
{
    if r < r1 - 1 {
        lemma_overlap_rows_has_cell(panels, i, r0, r1 - 1, c0, c1, r, c);
    } else {
        lemma_overlap_row_has_cell(panels, i, r, c0, c1, c);
    }
}

/// A profile that validates without errors is well formed: its grid is
/// non-empty, every panel has positive spans that fit in the grid, no two
/// panels share a cell, and no two panels share an instance id.
pub proof fn lemma_clean_profile_is_well_formed(layout: ProfileView, widgets: Seq<Seq<char>>, known: Seq<Seq<char>>)
    requires
        profile_errors(layout, widgets, known).len() == 0,
    ensures
        well_formed_grid(layout),
{
    let n = layout.panels.len() as int;
    assert(panels_errors(layout, known, n).len() == 0);
    assert forall|i: int| 0 <= i < n implies {
        let p = #[trigger] layout.panels[i];
        &&& p.row_span >= 1
        &&& p.col_span >= 1
        &&& p.row + p.row_span <= layout.rows
        &&& p.col + p.col_span <= layout.columns
    } by {
        lemma_panels_errors_empty(layout, known, n, i);
    }
    assert forall|i: int, j: int, r: int, c: int|
        0 <= i < j < n implies !(#[trigger] covers(layout.panels[i], r, c) && #[trigger] covers(layout.panels[j], r, c)) by {
        if covers(layout.panels[i], r, c) && covers(layout.panels[j], r, c) {
            lemma_panels_errors_empty(layout, known, n, j);
            let p = layout.panels[j];
            lemma_first_claimer_some(layout.panels, i, j, r, c);
            lemma_overlap_rows_has_cell(
                layout.panels,
                j,
                p.row as int,
                min_usize(p.row + p.row_span, layout.rows as int),
                p.col as int,
                min_usize(p.col + p.col_span, layout.columns as int),
                r,
                c,
            );
        }
    }
    assert forall|i: int, j: int|
        0 <= i < j < n implies instance_id_of(#[trigger] layout.panels[i]) != instance_id_of(#[trigger] layout.panels[j]) by {
        lemma_panels_errors_empty(layout, known, n, j);
        if instance_id_of(layout.panels[i]) == instance_id_of(layout.panels[j]) {
            assert(id_seen_before(layout.panels, j));
        }
    }
}

// ─── Sizing-list mismatches ──────────────────────────────────────────────────

/// No error in `errs` is a sizing-list length mismatch.
pub open spec fn no_mismatch(errs: Seq<ConfigErrorView>) -> bool {
    forall|k: int|
        0 <= k < errs.len() ==> !(#[trigger] errs[k] is RowHeightsMismatch) && !(errs[k] is ColumnWidthsMismatch)
}

proof fn lemma_overlap_row_no_mismatch(panels: Seq<PanelView>, i: int, r: int, c0: int, c1: int)
    ensures
        no_mismatch(overlap_row(panels, i, r, c0, c1)),
    decreases c1 - c0,
{
    if c1 > c0 {
        lemma_overlap_row_no_mismatch(panels, i, r, c0, c1 - 1);
    }
}

proof fn lemma_overlap_rows_no_mismatch(panels: Seq<PanelView>, i: int, r0: int, r1: int, c0: int, c1: int)
    ensures
        no_mismatch(overlap_rows(panels, i, r0, r1, c0, c1)),
    decreases r1 - r0,
{
    if r1 > r0 {
        lemma_overlap_rows_no_mismatch(panels, i, r0, r1 - 1, c0, c1);
        lemma_overlap_row_no_mismatch(panels, i, r1 - 1, c0, c1);
    }
}

proof fn lemma_panels_no_mismatch(layout: ProfileView, known: Seq<Seq<char>>, n: int)
    ensures
        no_mismatch(panels_errors(layout, known, n)),
    decreases n,
{
    if n > 0 {
        lemma_panels_no_mismatch(layout, known, n - 1);
        let p = layout.panels[n - 1];
        lemma_overlap_rows_no_mismatch(
            layout.panels,
            n - 1,
            p.row as int,
            min_usize(p.row + p.row_span, layout.rows as int),
            p.col as int,
            min_usize(p.col + p.col_span, layout.columns as int),
        );
    }
}

proof fn lemma_orphans_no_mismatch(widgets: Seq<Seq<char>>, panels: Seq<PanelView>, k: int)
    ensures
        no_mismatch(orphan_errors(widgets, panels, k)),
    decreases k,
{
    if k > 0 {
        lemma_orphans_no_mismatch(widgets, panels, k - 1);
    }
}

/// The mismatch error a sizing list of `given` entries deserves against a
/// grid with `lines` rows (or columns): none when it is absent or has one
/// entry per line.
pub open spec fn expected_mismatch(given: Option<Seq<Seq<char>>>, lines: usize, columns: bool) -> Option<ConfigErrorView> {
    match given {
        Some(h) => if h.len() != lines {
            if columns {
                Some(ConfigErrorView::ColumnWidthsMismatch { expected: lines, got: h.len() as usize })
            } else {
                Some(ConfigErrorView::RowHeightsMismatch { expected: lines, got: h.len() as usize })
            }
        } else {
            None
        },
        None => None,
    }
}

/// A profile's `row_heights` is reported as `RowHeightsMismatch` exactly when
/// its length differs from the number of rows, with `expected` the number of
/// rows and `got` its length; `column_widths` likewise against the number of
/// columns. Neither depends on the other dimension.
pub proof fn lemma_sizing_mismatch_exact(layout: ProfileView, widgets: Seq<Seq<char>>, known: Seq<Seq<char>>)
    ensures
        ({
            let errs = profile_errors(layout, widgets, known);
            let rows_e = expected_mismatch(layout.row_heights, layout.rows, false);
            let cols_e = expected_mismatch(layout.column_widths, layout.columns, true);
            &&& forall|k: int| 0 <= k < errs.len() && (#[trigger] errs[k] is RowHeightsMismatch) ==> rows_e == Some(errs[k])
            &&& (rows_e is Some ==> errs.contains(rows_e->0))
            &&& forall|k: int| 0 <= k < errs.len() && (#[trigger] errs[k] is ColumnWidthsMismatch) ==> cols_e == Some(errs[k])
            &&& (cols_e is Some ==> errs.contains(cols_e->0))
        }),
{
    let grid_err = if layout.rows == 0 || layout.columns == 0 {
        seq![ConfigErrorView::InvalidGridDimensions { rows: layout.rows, columns: layout.columns }]
    } else {
        seq![]
    };
    let a = panels_errors(layout, known, layout.panels.len() as int);
    let cw = sizing_errors(layout.column_widths, layout.columns, true);
    let rh = sizing_errors(layout.row_heights, layout.rows, false);
    let o = orphan_errors(widgets, layout.panels, widgets.len() as int);
    lemma_panels_no_mismatch(layout, known, layout.panels.len() as int);
    lemma_orphans_no_mismatch(widgets, layout.panels, widgets.len() as int);
    let errs = profile_errors(layout, widgets, known);
    assert(errs == grid_err + a + cw + rh + o);
    let n1 = grid_err.len() + a.len();
    let n2 = n1 + cw.len();
    let n3 = n2 + rh.len();
    let rows_e = expected_mismatch(layout.row_heights, layout.rows, false);
    let cols_e = expected_mismatch(layout.column_widths, layout.columns, true);
    assert forall|k: int| 0 <= k < errs.len() implies ((#[trigger] errs[k] is RowHeightsMismatch) ==> rows_e == Some(errs[k]))
        && ((errs[k] is ColumnWidthsMismatch) ==> cols_e == Some(errs[k])) by {
        if k < grid_err.len() {
            assert(errs[k] == grid_err[k]);
        } else if k < n1 {
            assert(errs[k] == a[k - grid_err.len()]);
        } else if k < n2 {
            assert(errs[k] == cw[k - n1]);
        } else if k < n3 {
            assert(errs[k] == rh[k - n2]);
        } else {
            assert(errs[k] == o[k - n3]);
        }
    }
    if rows_e is Some {
        assert(errs[n2 as int] == rh[0]);
    }
    if cols_e is Some {
        assert(errs[n1 as int] == cw[0]);
    }
}

} // verus!
