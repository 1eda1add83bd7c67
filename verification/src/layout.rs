//! The grid layout engine: which panel occupies each cell, the anchor cell of
//! each panel, the row and column percentages, and the screen areas of cells
//! and panels.
use vstd::prelude::*;

use crate::config::{
    PanelConfig, PanelView, ProfileConfig, ProfileView, instance_id_of, opt_strings_view, parse_percentage,
    parse_percentage_exec, spans_fit, strings_view,
};
use crate::text::str_eq;
use ratatui::layout::{Constraint as RConstraint, Direction as RDirection, Layout as RLayout, Rect as RRect};

verus! {

broadcast use vstd::string::group_string_axioms;

// ─── Types ───────────────────────────────────────────────────────────────────

/// A rectangle of terminal cells.
#[derive(Debug, Clone, Copy, PartialEq, Eq, Structural)]
pub struct Area {
    pub x: u16,
    pub y: u16,
    pub width: u16,
    pub height: u16,
}

/// How a part of an area is sized when the area is split.
#[derive(Debug, Clone, Copy, PartialEq, Eq, Structural)]
pub enum Constraint {
    /// Exactly this many cells.
    Length(u16),
    /// Whatever is left, shared by weight.
    Fill(u16),
    /// This percentage of the area.
    Percentage(u16),
}

/// The direction in which an area is split.
#[derive(Debug, Clone, Copy, PartialEq, Eq, Structural)]
pub enum SplitDirection {
    Horizontal,
    Vertical,
}

/// A panel as the engine keeps it: instance id, anchor cell and spans.
#[derive(Debug)]
pub struct PlacedPanel {
    pub id: String,
    pub row: usize,
    pub col: usize,
    pub row_span: usize,
    pub col_span: usize,
}

pub struct PlacedView {
    pub id: Seq<char>,
    pub row: usize,
    pub col: usize,
    pub row_span: usize,
    pub col_span: usize,
}

impl View for PlacedPanel {
    type V = PlacedView;

    open spec fn view(&self) -> PlacedView {
        PlacedView { id: self.id@, row: self.row, col: self.col, row_span: self.row_span, col_span: self.col_span }
    }
}

/// Why a layout cannot be built.
#[derive(Debug, PartialEq)]
pub enum LayoutError {
    /// A row height or column width that is not a percentage.
    InvalidPercentage { value: String },
}

/// The grid: its size, header and footer, the panels in configuration order
/// and the percentages of its rows and columns.
pub struct LayoutEngine {
    rows: usize,
    cols: usize,
    header: bool,
    footer: bool,
    panels: Vec<PlacedPanel>,
    row_constraints: Vec<u16>,
    col_constraints: Vec<u16>,
}

pub struct EngineView {
    pub rows: usize,
    pub cols: usize,
    pub header: bool,
    pub footer: bool,
    pub placed: Seq<PlacedView>,
    pub row_pcts: Seq<u16>,
    pub col_pcts: Seq<u16>,
}

pub open spec fn placed_view(v: Seq<PlacedPanel>) -> Seq<PlacedView> {
    v.map_values(|p: PlacedPanel| p@)
}

impl View for LayoutEngine {
    type V = EngineView;

    closed spec fn view(&self) -> EngineView {
        EngineView {
            rows: self.rows,
            cols: self.cols,
            header: self.header,
            footer: self.footer,
            placed: placed_view(self.panels@),
            row_pcts: self.row_constraints@,
            col_pcts: self.col_constraints@,
        }
    }
}

// ─── Specification ───────────────────────────────────────────────────────────

/// A panel as placed on the grid: its instance id, anchor and spans.
pub open spec fn placement(p: PanelView) -> PlacedView {
    PlacedView { id: instance_id_of(p), row: p.row, col: p.col, row_span: p.row_span, col_span: p.col_span }
}

pub open spec fn placements(ps: Seq<PanelView>) -> Seq<PlacedView> {
    ps.map_values(|p: PanelView| placement(p))
}

/// The percentages of a list of sizes, or the first entry that is not one.
pub open spec fn percentages(sizes: Seq<Seq<char>>) -> Result<Seq<u16>, Seq<char>>
    decreases sizes.len(),
{
    if sizes.len() == 0 {
        Ok(seq![])
    } else {
        match percentages(sizes.drop_last()) {
            Err(bad) => Err(bad),
            Ok(ps) => match parse_percentage(sizes.last()) {
                Some(n) => Ok(ps.push(n)),
                None => Err(sizes.last()),
            },
        }
    }
}

/// `n` equal parts of 100% (the count taken as a `u16`), the last one taking
/// what the others leave.
pub open spec fn equal_split(n: nat) -> Seq<u16>
    recommends
        n % 65536 != 0,
{
    let k = (n % 65536) as int;
    let base = 100int / k;
    Seq::new((n - 1) as nat, |i: int| base as u16).push((100 - base * (k - 1)) as u16)
}

/// The percentages of `n` rows (or columns) sized by `sizes`.
pub open spec fn resolve_constraints_spec(n: usize, sizes: Option<Seq<Seq<char>>>) -> Result<Seq<u16>, Seq<char>> {
    if n == 0 {
        Ok(seq![])
    } else {
        match sizes {
            Some(p) => percentages(p),
            None => Ok(equal_split(n as nat)),
        }
    }
}

/// The grid size can be turned into equal parts without dividing by zero.
pub open spec fn splittable(n: usize) -> bool {
    n % 65536 != 0 || n == 0
}

pub open spec fn placed_covers(p: PlacedView, r: int, c: int) -> bool {
    p.row <= r < p.row + p.row_span && p.col <= c < p.col + p.col_span
}

/// The last of `ps[0..n]` covering `(r, c)`: the one whose id the cell keeps.
pub open spec fn last_claimer(ps: Seq<PlacedView>, n: int, r: int, c: int) -> Option<int>
    decreases n,
{
    if n <= 0 {
        None
    } else if placed_covers(ps[n - 1], r, c) {
        Some(n - 1)
    } else {
        last_claimer(ps, n - 1, r, c)
    }
}

/// The last of `ps[0..n]` with instance id `id`: the one whose anchor and
/// spans the id keeps.
pub open spec fn last_with_id(ps: Seq<PlacedView>, n: int, id: Seq<char>) -> Option<int>
    decreases n,
{
    if n <= 0 {
        None
    } else if ps[n - 1].id == id {
        Some(n - 1)
    } else {
        last_with_id(ps, n - 1, id)
    }
}

/// The instance id occupying cell `(r, c)`: the last panel covering it,
/// for cells of the grid.
pub open spec fn occupant(e: EngineView, r: int, c: int) -> Option<Seq<char>> {
    if 0 <= r < e.rows && 0 <= c < e.cols {
        match last_claimer(e.placed, e.placed.len() as int, r, c) {
            Some(i) => Some(e.placed[i].id),
            None => None,
        }
    } else {
        None
    }
}

/// The anchor cell of the panel occupying `(r, c)`.
pub open spec fn anchor_at(e: EngineView, r: int, c: int) -> Option<(usize, usize)> {
    match occupant(e, r, c) {
        Some(id) => match last_with_id(e.placed, e.placed.len() as int, id) {
            Some(i) => Some((e.placed[i].row, e.placed[i].col)),
            None => None,
        },
        None => None,
    }
}

/// Panel `i` is the last with its id.
pub open spec fn is_last_of_id(ps: Seq<PlacedView>, i: int) -> bool {
    forall|j: int| i < j < ps.len() ==> (#[trigger] ps[j]).id != ps[i].id
}

/// The anchor cells of the instance ids, in order of their last panel.
pub open spec fn anchor_cells(ps: Seq<PlacedView>, n: int) -> Seq<(usize, usize)>
    decreases n,
{
    if n <= 0 {
        seq![]
    } else if is_last_of_id(ps, n - 1) {
        anchor_cells(ps, n - 1).push((ps[n - 1].row, ps[n - 1].col))
    } else {
        anchor_cells(ps, n - 1)
    }
}

/// Cell `a` comes before or is `b` in reading order.
pub open spec fn cell_le(a: (usize, usize), b: (usize, usize)) -> bool {
    a.0 < b.0 || (a.0 == b.0 && a.1 <= b.1)
}

pub open spec fn cells_sorted(s: Seq<(usize, usize)>) -> bool {
    forall|i: int, j: int| 0 <= i < j < s.len() ==> cell_le(#[trigger] s[i], #[trigger] s[j])
}

// ─── Building ────────────────────────────────────────────────────────────────

fn percentages_exec(sizes: &Vec<String>) -> (r: Result<Vec<u16>, LayoutError>)
    ensures
        match r {
            Ok(v) => percentages(strings_view(sizes@)) == Ok::<Seq<u16>, Seq<char>>(v@),
            Err(LayoutError::InvalidPercentage { value }) => percentages(strings_view(sizes@)) == Err::<
                Seq<u16>,
                Seq<char>,
            >(value@),
        },
{
    let ghost sv = strings_view(sizes@);
    let mut out: Vec<u16> = Vec::new();
    let mut i: usize = 0;
    while i < sizes.len()
        invariant
            i <= sizes.len(),
            sv == strings_view(sizes@),
            percentages(sv.take(i as int)) == Ok::<Seq<u16>, Seq<char>>(out@),
        decreases sizes.len() - i,
    {
        assert(sv.take(i + 1).drop_last() =~= sv.take(i as int));
        assert(sv.take(i + 1).last() == sizes@[i as int]@);
        match parse_percentage_exec(&sizes[i]) {
            Some(n) => {
                out.push(n);
            },
            None => {
                proof {
                    lemma_percentages_err_prefix(sv, i + 1);
                }
                return Err(LayoutError::InvalidPercentage { value: sizes[i].clone() });
            },
        }
        i += 1;
    }
    assert(sv.take(sizes.len() as int) =~= sv);
    Ok(out)
}

/// Once a prefix of the list holds a bad entry, the whole list fails with it.
proof fn lemma_percentages_err_prefix(sizes: Seq<Seq<char>>, k: int)
    requires
        0 <= k <= sizes.len(),
        percentages(sizes.take(k)) is Err,
    ensures
        percentages(sizes) == percentages(sizes.take(k)),
    decreases sizes.len() - k,
{
    if k < sizes.len() {
        assert(sizes.take(k + 1).drop_last() =~= sizes.take(k));
        lemma_percentages_err_prefix(sizes, k + 1);
    } else {
        assert(sizes.take(k) =~= sizes);
    }
}

/// The percentages of `n` rows or columns: those given in `sizes`, or equal
/// parts when there are none.
pub fn resolve_constraints(n: usize, sizes: &Option<Vec<String>>) -> (r: Result<Vec<u16>, LayoutError>)
    requires
        splittable(n),
    ensures
        match r {
            Ok(v) => resolve_constraints_spec(n, opt_strings_view(*sizes)) == Ok::<Seq<u16>, Seq<char>>(v@),
            Err(LayoutError::InvalidPercentage { value }) => resolve_constraints_spec(
                n,
                opt_strings_view(*sizes),
            ) == Err::<Seq<u16>, Seq<char>>(value@),
        },
{
    if n == 0 {
        return Ok(Vec::new());
    }
    match sizes {
        Some(pcts) => percentages_exec(pcts),
        None => {
            let k = (n % 65536) as u16;
            let base: u16 = 100u16 / k;
            assert(base * (k - 1) <= 100) by (nonlinear_arith)
                requires
                    base == 100int / (k as int),
                    k >= 1,
            ;
            let remainder: u16 = 100u16 - base * (k - 1);
            let mut constraints: Vec<u16> = Vec::new();
            let mut i: usize = 0;
            while i < n - 1
                invariant
                    i <= n - 1,
                    constraints@ == Seq::new(i as nat, |j: int| base),
                decreases n - 1 - i,
            {
                constraints.push(base);
                i += 1;
                assert(constraints@ =~= Seq::new(i as nat, |j: int| base));
            }
            constraints.push(remainder);
            assert(constraints@ =~= equal_split(n as nat));
            Ok(constraints)
        },
    }
}

fn place_panels(panels: &Vec<PanelConfig>) -> (r: Vec<PlacedPanel>)
    ensures
        placed_view(r@) == placements(crate::config::panels_view(panels@)),
{
    let mut r: Vec<PlacedPanel> = Vec::new();
    let mut i: usize = 0;
    while i < panels.len()
        invariant
            i <= panels.len(),
            r@.len() == i,
            forall|j: int| 0 <= j < i ==> (#[trigger] r@[j])@ == placement(panels@[j]@),
        decreases panels.len() - i,
    {
        let p = &panels[i];
        r.push(PlacedPanel {
            id: p.instance_id().to_string(),
            row: p.row,
            col: p.col,
            row_span: p.row_span,
            col_span: p.col_span,
        });
        i += 1;
    }
    assert(placed_view(r@) =~= placements(crate::config::panels_view(panels@)));
    r
}

fn insert_sorted(cells: &mut Vec<(usize, usize)>, cell: (usize, usize))
    requires
        cells_sorted(old(cells)@),
    ensures
        cells_sorted(final(cells)@),
        final(cells)@.to_multiset() == old(cells)@.to_multiset().insert(cell),
{
    broadcast use vstd::seq_lib::group_to_multiset_ensures;
    let mut pos: usize = 0;
    while pos < cells.len() && cell_le_exec(cells[pos], cell)
        invariant
            pos <= cells.len(),
            cells@ == old(cells)@,
            forall|j: int| 0 <= j < pos ==> cell_le(#[trigger] cells@[j], cell),
        decreases cells.len() - pos,
    {
        pos += 1;
    }
    let ghost before = cells@;
    cells.insert(pos, cell);
    assert(cells@ == before.insert(pos as int, cell));
    assert forall|i: int, j: int| 0 <= i < j < cells@.len() implies cell_le(#[trigger] cells@[i], #[trigger] cells@[j]) by {
        if j < pos {
        } else if j == pos {
        } else if i < pos {
            assert(cells@[j] == before[j - 1]);
            if pos < before.len() {
                assert(!cell_le(before[pos as int], cell));
                assert(cell_le(before[pos as int], before[j - 1]) || pos == j - 1);
            }
        } else if i == pos {
            assert(!cell_le(before[pos as int], cell));
            assert(cell_le(before[pos as int], before[j - 1]) || pos == j - 1);
        } else {
            assert(cells@[i] == before[i - 1]);
            assert(cells@[j] == before[j - 1]);
        }
    }
}

fn cell_le_exec(a: (usize, usize), b: (usize, usize)) -> (r: bool)
    ensures
        r == cell_le(a, b),
{
    a.0 < b.0 || (a.0 == b.0 && a.1 <= b.1)
}

impl LayoutEngine {
    /// Builds the engine for a profile layout. Rows and columns take the
    /// percentages given for them, or equal parts when none are given.
    pub fn from_config(config: &ProfileConfig) -> (r: Result<Self, LayoutError>)
        requires
            spans_fit(config@),
            splittable(config.rows),
            splittable(config.columns),
        ensures
            match r {
                Ok(e) => {
                    &&& resolve_constraints_spec(config.rows, config@.row_heights) == Ok::<Seq<u16>, Seq<char>>(
                        e@.row_pcts,
                    )
                    &&& resolve_constraints_spec(config.columns, config@.column_widths) == Ok::<
                        Seq<u16>,
                        Seq<char>,
                    >(e@.col_pcts)
                    &&& e@.rows == config.rows
                    &&& e@.cols == config.columns
                    &&& e@.header == config.header
                    &&& e@.footer == config.footer
                    &&& e@.placed == placements(config@.panels)
                    &&& placed_spans_fit(e@.placed)
                },
                Err(LayoutError::InvalidPercentage { value }) => {
                    ||| resolve_constraints_spec(config.rows, config@.row_heights) == Err::<Seq<u16>, Seq<char>>(
                        value@,
                    )
                    ||| (resolve_constraints_spec(config.rows, config@.row_heights) is Ok
                        && resolve_constraints_spec(config.columns, config@.column_widths) == Err::<
                        Seq<u16>,
                        Seq<char>,
                    >(value@))
                },
            },
    {
        let panels = place_panels(&config.panels);
        let row_constraints = match resolve_constraints(config.rows, &config.row_heights) {
            Ok(v) => v,
            Err(e) => return Err(e),
        };
        let col_constraints = match resolve_constraints(config.columns, &config.column_widths) {
            Ok(v) => v,
            Err(e) => return Err(e),
        };
        Ok(LayoutEngine {
            rows: config.rows,
            cols: config.columns,
            header: config.header,
            footer: config.footer,
            panels,
            row_constraints,
            col_constraints,
        })
    }

    /// The instance id of the widget at `(row, col)`, if any.
    pub fn instance_at(&self, row: usize, col: usize) -> (r: Option<&str>)
        ensures
            match r {
                Some(id) => occupant(self@, row as int, col as int) == Some(id@),
                None => occupant(self@, row as int, col as int) is None,
            },
    {
        match self.claimer_at(row, col) {
            Some(i) => Some(self.panels[i].id.as_str()),
            None => None,
        }
    }

    /// The index of the last panel occupying cell `(row, col)` of the grid.
    fn claimer_at(&self, row: usize, col: usize) -> (r: Option<usize>)
        ensures
            match r {
                Some(i) => i < self@.placed.len() && 0 <= row < self@.rows && 0 <= col < self@.cols
                    && last_claimer(self@.placed, self@.placed.len() as int, row as int, col as int) == Some(i as int),
                None => occupant(self@, row as int, col as int) is None,
            },
    {
        if row >= self.rows || col >= self.cols {
            return None;
        }
        let ghost ps = self@.placed;
        let mut k: usize = self.panels.len();
        while k > 0
            invariant
                k <= self.panels.len(),
                ps == self@.placed,
                row < self@.rows,
                col < self@.cols,
                last_claimer(ps, ps.len() as int, row as int, col as int) == last_claimer(ps, k as int, row as int, col as int),
            decreases k,
        {
            let p = &self.panels[k - 1];
            assert(ps[k - 1] == p@);
            if p.row <= row && row - p.row < p.row_span && p.col <= col && col - p.col < p.col_span {
                return Some(k - 1);
            }
            k -= 1;
        }
        None
    }

    /// The index of the last panel with instance id `id`.
    fn last_with_id_exec(&self, id: &str) -> (r: Option<usize>)
        ensures
            match r {
                Some(i) => i < self@.placed.len() && last_with_id(self@.placed, self@.placed.len() as int, id@) == Some(i as int),
                None => last_with_id(self@.placed, self@.placed.len() as int, id@) is None,
            },
    {
        let ghost ps = self@.placed;
        let mut k: usize = self.panels.len();
        while k > 0
            invariant
                k <= self.panels.len(),
                ps == self@.placed,
                last_with_id(ps, ps.len() as int, id@) == last_with_id(ps, k as int, id@),
            decreases k,
        {
            let p = &self.panels[k - 1];
            assert(ps[k - 1] == p@);
            if str_eq(p.id.as_str(), id) {
                return Some(k - 1);
            }
            k -= 1;
        }
        None
    }

    /// A panel after `i` has the same instance id.
    fn id_recurs_after(&self, i: usize) -> (r: bool)
        requires
            i < self@.placed.len(),
        ensures
            r == !is_last_of_id(self@.placed, i as int),
    {
        let ghost ps = self@.placed;
        assert(self.panels@.len() == ps.len());
        let id = self.panels[i].id.as_str();
        assert(ps[i as int].id == id@);
        let n = self.panels.len();
        let mut j: usize = i + 1;
        while j < self.panels.len()
            invariant
                i < j <= self.panels.len(),
                ps == self@.placed,
                ps[i as int].id == id@,
                forall|m: int| i < m < j ==> (#[trigger] ps[m]).id != ps[i as int].id,
            decreases self.panels.len() - j,
        {
            assert(ps[j as int] == self.panels@[j as int]@);
            if str_eq(self.panels[j].id.as_str(), id) {
                return true;
            }
            j += 1;
        }
        false
    }

    /// All anchor cells, one per instance id, in reading order.
    pub fn occupied_cells(&self) -> (r: Vec<(usize, usize)>)
        ensures
            cells_sorted(r@),
            r@.to_multiset() == anchor_cells(self@.placed, self@.placed.len() as int).to_multiset(),
    {
        broadcast use vstd::seq_lib::group_to_multiset_ensures;
        let ghost ps = self@.placed;
        let mut cells: Vec<(usize, usize)> = Vec::new();
        let mut i: usize = 0;
        while i < self.panels.len()
            invariant
                i <= self.panels.len(),
                ps == self@.placed,
                cells_sorted(cells@),
                cells@.to_multiset() == anchor_cells(ps, i as int).to_multiset(),
            decreases self.panels.len() - i,
        {
            let p = &self.panels[i];
            assert(ps[i as int] == p@);
            let later = self.id_recurs_after(i);
            let ghost old_cells = cells@;
            if !later {
                insert_sorted(&mut cells, (p.row, p.col));
                assert(anchor_cells(ps, i + 1) == anchor_cells(ps, i as int).push((p.row, p.col)));
                proof {
                    vstd::seq_lib::to_multiset_build(anchor_cells(ps, i as int), (p.row, p.col));
                }
                assert(anchor_cells(ps, i + 1).to_multiset() == anchor_cells(ps, i as int).to_multiset().insert(
                    (p.row, p.col),
                ));
            } else {
                assert(anchor_cells(ps, i + 1) == anchor_cells(ps, i as int));
            }
            i += 1;
        }
        cells
    }

    /// The anchor cell of the panel occupying `(row, col)`; `None` for an
    /// unoccupied cell.
    pub fn anchor_for(&self, row: usize, col: usize) -> (r: Option<(usize, usize)>)
        ensures
            r == anchor_at(self@, row as int, col as int),
    {
        let id = match self.instance_at(row, col) {
            Some(id) => id,
            None => return None,
        };
        match self.last_with_id_exec(id) {
            Some(i) => {
                assert(self@.placed[i as int] == self.panels@[i as int]@);
                Some((self.panels[i].row, self.panels[i].col))
            },
            None => None,
        }
    }

    /// The grid size as `(rows, cols)`.
    pub fn grid_dimensions(&self) -> (r: (usize, usize))
        ensures
            r == (self@.rows, self@.cols),
    {
        (self.rows, self.cols)
    }

    pub fn has_header(&self) -> (r: bool)
        ensures
            r == self@.header,
    {
        self.header
    }

    pub fn has_footer(&self) -> (r: bool)
        ensures
            r == self@.footer,
    {
        self.footer
    }
}


// ─── Screen areas ────────────────────────────────────────────────────────────

/// The far edge of `a` along `direction`, as `Rect::right` and
/// `Rect::bottom` compute it (capped at the last coordinate).
pub open spec fn area_end(a: Area, direction: SplitDirection) -> int {
    let e = match direction {
        SplitDirection::Horizontal => a.x + a.width,
        SplitDirection::Vertical => a.y + a.height,
    };
    if e > u16::MAX { u16::MAX as int } else { e }
}

/// `p` is a part of `area` cut along `direction`: it keeps the area's
/// position and extent across the cut and lies inside the area along it.
pub open spec fn part_of(area: Area, direction: SplitDirection, p: Area) -> bool {
    match direction {
        SplitDirection::Vertical => p.x == area.x && p.width == area.width && area.y <= p.y && p.y + p.height
            <= area_end(area, direction),
        SplitDirection::Horizontal => p.y == area.y && p.height == area.height && area.x <= p.x && p.x + p.width
            <= area_end(area, direction),
    }
}

/// `parts` are `n` parts of `area` cut along `direction`.
pub open spec fn split_parts(area: Area, direction: SplitDirection, n: nat, parts: Seq<Area>) -> bool {
    parts.len() == n && forall|i: int| 0 <= i < n ==> part_of(area, direction, #[trigger] parts[i])
}

/// `ratatui::layout::Layout::new(direction, constraints).split(area)`, with
/// the library's own area and constraint types converted one for one. It
/// gives one part per constraint: the solver builds one segment per
/// constraint. What the contract states is what the solver's required
/// constraints and `changes_to_rects` fix for every outcome: each segment's
/// two edges lie inside the area (start at or after its near edge, end at or
/// before its far edge, start no later than end), and each part takes the
/// area's position and extent across the cut. The sizes of the parts and
/// their order are set by non-required constraints and by how the solver
/// settles ties, which may differ from one call to the next (its tables are
/// hash maps with per-process seeds); they are not stated. `split` panics only when the solver rejects a
/// constraint; the only required constraints it adds fix the two ends of the
/// area, keep every edge inside the area and keep the edges in order, and
/// those can always be met together, so it returns for every area.
#[verifier::external_body]
fn layout_split(area: Area, direction: SplitDirection, constraints: &Vec<Constraint>) -> (r: Vec<Area>)
    ensures
        split_parts(area, direction, constraints@.len(), r@),
{
    let dir = match direction {
        SplitDirection::Horizontal => RDirection::Horizontal,
        SplitDirection::Vertical => RDirection::Vertical,
    };
    let cs = constraints.iter().map(|c| match c {
        Constraint::Length(n) => RConstraint::Length(*n),
        Constraint::Fill(n) => RConstraint::Fill(*n),
        Constraint::Percentage(n) => RConstraint::Percentage(*n),
    });
    let rect = RRect { x: area.x, y: area.y, width: area.width, height: area.height };
    let parts = RLayout::new(dir, cs).split(rect);
    parts.iter().map(|p| Area { x: p.x, y: p.y, width: p.width, height: p.height }).collect()
}

/// The constraints of the header, grid and footer rows.
pub open spec fn chrome_constraints(header: bool, footer: bool) -> Seq<Constraint> {
    if header && footer {
        seq![Constraint::Length(1), Constraint::Fill(1), Constraint::Length(1)]
    } else if header {
        seq![Constraint::Length(1), Constraint::Fill(1)]
    } else {
        seq![Constraint::Fill(1), Constraint::Length(1)]
    }
}

/// The header, grid and footer areas, given the parts the chrome
/// constraints cut `area` into: one part each for the header and the footer
/// where they are enabled, the part between them for the grid; with
/// neither, the grid is all of `area`.
pub open spec fn chrome_of(header: bool, footer: bool, area: Area, parts: Seq<Area>) -> (Option<Area>, Area, Option<Area>) {
    if !header && !footer {
        (None, area, None)
    } else if header && !footer {
        (Some(parts[0]), parts[1], None)
    } else if !header && footer {
        (None, parts[0], Some(parts[1]))
    } else {
        (Some(parts[0]), parts[1], Some(parts[2]))
    }
}

pub open spec fn pct_constraints(p: Seq<u16>) -> Seq<Constraint> {
    p.map_values(|x: u16| Constraint::Percentage(x))
}

/// `g` has an area for every cell of the grid: one row per grid row, one
/// area per grid column in each.
pub open spec fn grid_shaped(e: EngineView, g: Seq<Seq<Area>>) -> bool {
    &&& g.len() == e.rows
    &&& forall|i: int| 0 <= i < e.rows ==> (#[trigger] g[i]).len() == e.cols
}

/// The bounds of a set of cells: least left and top, greatest right and
/// bottom edge. An empty set has left and top at the last coordinate and
/// right and bottom at 0.
pub struct Extent {
    pub min_x: int,
    pub min_y: int,
    pub max_x: int,
    pub max_y: int,
}

pub open spec fn empty_extent() -> Extent {
    Extent { min_x: u16::MAX as int, min_y: u16::MAX as int, max_x: 0, max_y: 0 }
}

pub open spec fn join(a: Extent, b: Area) -> Extent {
    Extent {
        min_x: if b.x < a.min_x { b.x as int } else { a.min_x },
        min_y: if b.y < a.min_y { b.y as int } else { a.min_y },
        max_x: if b.x + b.width > a.max_x { b.x + b.width } else { a.max_x },
        max_y: if b.y + b.height > a.max_y { b.y + b.height } else { a.max_y },
    }
}

/// The extent of cells `c0..c1` of row `r`, added to `acc`.
pub open spec fn row_extent(g: Seq<Seq<Area>>, acc: Extent, r: int, c0: int, c1: int) -> Extent
    decreases c1 - c0,
{
    if c1 <= c0 {
        acc
    } else {
        join(row_extent(g, acc, r, c0, c1 - 1), g[r][c1 - 1])
    }
}

/// The extent of the cells of rows `r0..r1`, columns `c0..c1`.
pub open spec fn block_extent(g: Seq<Seq<Area>>, r0: int, r1: int, c0: int, c1: int) -> Extent
    decreases r1 - r0,
{
    if r1 <= r0 {
        empty_extent()
    } else {
        row_extent(g, block_extent(g, r0, r1 - 1, c0, c1), r1 - 1, c0, c1)
    }
}

pub open spec fn min_int(a: int, b: int) -> int {
    if a <= b { a } else { b }
}

/// The area a panel covers: the bounds of its cells on the grid, if they
/// enclose any space. A right or bottom edge past the last coordinate counts
/// as the last coordinate.
pub open spec fn panel_area(e: EngineView, g: Seq<Seq<Area>>, p: PlacedView) -> Option<Area> {
    let x = block_extent(g, p.row as int, min_int(p.row + p.row_span, e.rows as int), p.col as int, min_int(p.col + p.col_span, e.cols as int));
    if x.min_x < x.max_x && x.min_y < x.max_y {
        Some(Area {
            x: x.min_x as u16,
            y: x.min_y as u16,
            width: (min_int(x.max_x, u16::MAX as int) - x.min_x) as u16,
            height: (min_int(x.max_y, u16::MAX as int) - x.min_y) as u16,
        })
    } else {
        None
    }
}

/// The areas of the panels `0..n` that are last of their id, keyed by anchor.
pub open spec fn panel_areas(e: EngineView, g: Seq<Seq<Area>>, n: int) -> Seq<((usize, usize), Area)>
    decreases n,
{
    if n <= 0 {
        seq![]
    } else {
        let rest = panel_areas(e, g, n - 1);
        let p = e.placed[n - 1];
        if is_last_of_id(e.placed, n - 1) {
            match panel_area(e, g, p) {
                Some(a) => rest.push(((p.row, p.col), a)),
                None => rest,
            }
        } else {
            rest
        }
    }
}

/// The row and column percentages give every cell of the grid an area.
pub open spec fn sizes_cover_grid(e: EngineView) -> bool {
    e.row_pcts.len() >= e.rows && e.col_pcts.len() >= e.cols
}

pub open spec fn placed_spans_fit(ps: Seq<PlacedView>) -> bool {
    forall|i: int|
        0 <= i < ps.len() ==> (#[trigger] ps[i]).row + ps[i].row_span <= usize::MAX && ps[i].col + ps[i].col_span
            <= usize::MAX
}

fn percentage_constraints(p: &Vec<u16>) -> (r: Vec<Constraint>)
    ensures
        r@ == pct_constraints(p@),
{
    let mut r: Vec<Constraint> = Vec::new();
    let mut i: usize = 0;
    while i < p.len()
        invariant
            i <= p.len(),
            r@ == pct_constraints(p@.take(i as int)),
        decreases p.len() - i,
    {
        r.push(Constraint::Percentage(p[i]));
        i += 1;
        assert(r@ =~= pct_constraints(p@.take(i as int)));
    }
    assert(p@.take(p.len() as int) =~= p@);
    r
}

/// `r` is the chrome cut from `parts`, and `parts` has one area per
/// chrome constraint.
pub open spec fn r_chrome_witness(header: bool, footer: bool, area: Area, parts: Seq<Area>, r: (Option<Area>, Area, Option<Area>)) -> bool {
    split_parts(area, SplitDirection::Vertical, chrome_constraints(header, footer).len(), parts) && r == chrome_of(
        header,
        footer,
        area,
        parts,
    )
}

/// `chrome` is a header, grid and footer that `split_chrome` can give for
/// `area`.
pub open spec fn chrome_ok(e: EngineView, area: Area, chrome: (Option<Area>, Area, Option<Area>)) -> bool {
    exists|parts: Seq<Area>| #[trigger] r_chrome_witness(e.header, e.footer, area, parts, chrome)
}

/// `g` is cut from `area` as `resolve_all_rects` cuts it: `chrome` is the
/// header, grid and footer, `rows` are the parts the row percentages cut the
/// grid into, and each cell is a part of its row cut across.
pub open spec fn grid_witness(e: EngineView, area: Area, chrome: (Option<Area>, Area, Option<Area>), rows: Seq<Area>, g: Seq<Seq<Area>>) -> bool {
    &&& chrome_ok(e, area, chrome)
    &&& split_parts(chrome.1, SplitDirection::Vertical, e.row_pcts.len(), rows)
    &&& grid_shaped(e, g)
    &&& forall|i: int| 0 <= i < e.rows ==> row_cut(e, rows[i], #[trigger] g[i])
}

/// `cells` are the first `e.cols` of the parts `cols` that the column
/// percentages cut `row` into.
pub open spec fn row_cut_witness(e: EngineView, row: Area, cells: Seq<Area>, cols: Seq<Area>) -> bool {
    split_parts(row, SplitDirection::Horizontal, e.col_pcts.len(), cols) && cells == cols.take(e.cols as int)
}

/// `cells` are the cells of one grid row: the first `e.cols` parts of some
/// cut of `row` by the column percentages.
pub open spec fn row_cut(e: EngineView, row: Area, cells: Seq<Area>) -> bool {
    exists|cols: Seq<Area>| #[trigger] row_cut_witness(e, row, cells, cols)
}

/// The cells of one grid row: the first `cols` of the parts a row was cut
/// into.
pub fn row_cells(parts: &Vec<Area>, cols: usize) -> (r: Vec<Area>)
    requires
        cols <= parts@.len(),
    ensures
        r@ == parts@.take(cols as int),
{
    let mut cells: Vec<Area> = Vec::new();
    let mut col: usize = 0;
    while col < cols
        invariant
            col <= cols <= parts@.len(),
            cells@ == parts@.take(col as int),
        decreases cols - col,
    {
        cells.push(parts[col]);
        col += 1;
        assert(cells@ =~= parts@.take(col as int));
    }
    cells
}

/// Some header, grid and row parts cut `area` into the cells `g`.
pub open spec fn grid_cut(e: EngineView, area: Area, g: Seq<Seq<Area>>) -> bool {
    exists|chrome: (Option<Area>, Area, Option<Area>), rows: Seq<Area>| #[trigger] grid_witness(e, area, chrome, rows, g)
}

/// Picks the header, grid and footer out of the parts the chrome
/// constraints cut `area` into.
pub fn chrome_from_parts(header: bool, footer: bool, area: Area, parts: &Vec<Area>) -> (r: (Option<Area>, Area, Option<Area>))
    requires
        (header || footer) ==> parts@.len() == chrome_constraints(header, footer).len(),
    ensures
        r == chrome_of(header, footer, area, parts@),
{
    if header && footer {
        (Some(parts[0]), parts[1], Some(parts[2]))
    } else if header {
        (Some(parts[0]), parts[1], None)
    } else if footer {
        (None, parts[0], Some(parts[1]))
    } else {
        (None, area, None)
    }
}

impl LayoutEngine {
    /// The row and column percentages give every cell of the grid an area.
    pub fn sizes_cover_grid(&self) -> (r: bool)
        ensures
            r == sizes_cover_grid(self@),
    {
        self.row_constraints.len() >= self.rows && self.col_constraints.len() >= self.cols
    }

    /// Splits `area` into header, grid and footer. The header and the footer
    /// take one row each where enabled (the parts are the solver's); with
    /// neither, the grid is all of it.
    pub fn split_chrome(&self, area: Area) -> (r: (Option<Area>, Area, Option<Area>))
        ensures
            chrome_ok(self@, area, r),
    {
        if !self.header && !self.footer {
            let ghost edge = Area { x: area.x, y: area.y, width: area.width, height: 0 };
            let ghost parts: Seq<Area> = seq![edge, edge];
            assert(r_chrome_witness(self@.header, self@.footer, area, parts, (None, area, None)));
            return (None, area, None);
        }
        let mut cs: Vec<Constraint> = Vec::new();
        if self.header {
            cs.push(Constraint::Length(1));
        }
        cs.push(Constraint::Fill(1));
        if self.footer {
            cs.push(Constraint::Length(1));
        }
        assert(cs@ =~= chrome_constraints(self.header, self.footer));
        let parts = layout_split(area, SplitDirection::Vertical, &cs);
        let r = chrome_from_parts(self.header, self.footer, area, &parts);
        assert(r_chrome_witness(self@.header, self@.footer, area, parts@, r));
        r
    }

    /// The area of every cell of the grid, row by row, unoccupied cells
    /// included: the grid area split into rows by the row percentages, each
    /// row split into columns by the column percentages. Row `i` holds the
    /// first `cols` parts of the cut of row part `i` (see `row_cells`); the
    /// row parts are a cut of the grid area (see `layout_split` for what the
    /// solver's parts are known to satisfy).
    pub fn resolve_all_rects(&self, area: Area) -> (r: Vec<Vec<Area>>)
        requires
            sizes_cover_grid(self@),
        ensures
            grid_cut(self@, area, r@.map_values(|v: Vec<Area>| v@)),
    {
        let chrome = self.split_chrome(area);
        let grid_area = chrome.1;
        let row_cs = percentage_constraints(&self.row_constraints);
        let col_cs = percentage_constraints(&self.col_constraints);
        let row_areas = layout_split(grid_area, SplitDirection::Vertical, &row_cs);
        let mut result: Vec<Vec<Area>> = Vec::new();
        let mut row: usize = 0;
        while row < self.rows
            invariant
                row <= self.rows,
                sizes_cover_grid(self@),
                split_parts(grid_area, SplitDirection::Vertical, self@.row_pcts.len(), row_areas@),
                col_cs@ == pct_constraints(self@.col_pcts),
                result@.len() == row,
                forall|i: int| 0 <= i < row ==> (#[trigger] result@[i])@.len() == self@.cols,
                forall|i: int| 0 <= i < row ==> row_cut(self@, row_areas@[i], #[trigger] result@[i]@),
            decreases self.rows - row,
        {
            let col_areas = layout_split(row_areas[row], SplitDirection::Horizontal, &col_cs);
            let cells = row_cells(&col_areas, self.cols);
            assert(row_cut_witness(self@, row_areas@[row as int], cells@, col_areas@));
            result.push(cells);
            row += 1;
        }
        let ghost g = result@.map_values(|v: Vec<Area>| v@);
        assert(grid_witness(self@, area, chrome, row_areas@, g)) by {
            assert forall|i: int| 0 <= i < self@.rows implies row_cut(self@, row_areas@[i], #[trigger] g[i]) by {
                assert(g[i] == result@[i]@);
            }
            assert forall|i: int| 0 <= i < self@.rows implies (#[trigger] g[i]).len() == self@.cols by {
                assert(g[i] == result@[i]@);
            }
        }
        result
    }

    /// The area of every panel, keyed by its anchor cell, on the cells that
    /// `resolve_all_rects` gives (see `panel_rects`).
    pub fn resolve_rects(&self, area: Area) -> (r: Vec<((usize, usize), Area)>)
        requires
            sizes_cover_grid(self@),
            placed_spans_fit(self@.placed),
        ensures
            exists|g: Seq<Seq<Area>>| #[trigger] grid_cut(self@, area, g) && r@ == panel_areas(self@, g, self@.placed.len() as int),
    {
        let all = self.resolve_all_rects(area);
        let ghost g = all@.map_values(|v: Vec<Area>| v@);
        assert(grid_shaped(self@, g)) by {
            let (chrome, rows) = choose|chrome: (Option<Area>, Area, Option<Area>), rows: Seq<Area>| #[trigger] grid_witness(self@, area, chrome, rows, g);
        }
        let r = self.panel_rects(&all);
        r
    }

    /// The area of every panel given the area of every cell: the bounds of
    /// the cells it spans, one per instance id (the last panel with it),
    /// keyed by its anchor cell; panels whose cells enclose no space are left
    /// out.
    pub fn panel_rects(&self, all: &Vec<Vec<Area>>) -> (r: Vec<((usize, usize), Area)>)
        requires
            placed_spans_fit(self@.placed),
            grid_shaped(self@, all@.map_values(|v: Vec<Area>| v@)),
        ensures
            r@ == panel_areas(self@, all@.map_values(|v: Vec<Area>| v@), self@.placed.len() as int),
    {
        let ghost g = all@.map_values(|v: Vec<Area>| v@);
        let ghost ps = self@.placed;
        proof {
            assert forall|k: int| 0 <= k < self@.rows implies (#[trigger] all@[k])@.len() == self@.cols by {
                assert(g[k] == all@[k]@);
            }
        }
        let mut result: Vec<((usize, usize), Area)> = Vec::new();
        let mut i: usize = 0;
        while i < self.panels.len()
            invariant
                i <= self.panels.len(),
                ps == self@.placed,
                placed_spans_fit(ps),
                g == all@.map_values(|v: Vec<Area>| v@),
                all@.len() == self@.rows,
                forall|k: int| 0 <= k < self@.rows ==> (#[trigger] all@[k])@.len() == self@.cols,
                result@ == panel_areas(self@, g, i as int),
            decreases self.panels.len() - i,
        {
            if !self.id_recurs_after(i) {
                let p = &self.panels[i];
                assert(ps[i as int] == p@);
                match self.panel_area_exec(all, i) {
                    Some(a) => result.push(((p.row, p.col), a)),
                    None => {},
                }
            }
            i += 1;
        }
        result
    }

    fn panel_area_exec(&self, all: &Vec<Vec<Area>>, i: usize) -> (r: Option<Area>)
        requires
            i < self@.placed.len(),
            placed_spans_fit(self@.placed),
            all@.len() == self@.rows,
            forall|k: int| 0 <= k < self@.rows ==> (#[trigger] all@[k])@.len() == self@.cols,
        ensures
            r == panel_area(self@, all@.map_values(|v: Vec<Area>| v@), self@.placed[i as int]),
    {
        let ghost g = all@.map_values(|v: Vec<Area>| v@);
        let ghost pv = self@.placed[i as int];
        let p = &self.panels[i];
        assert(pv == p@);
        let r_end = if p.row + p.row_span < self.rows { p.row + p.row_span } else { self.rows };
        let c_end = if p.col + p.col_span < self.cols { p.col + p.col_span } else { self.cols };
        let mut min_x: u32 = 65535;
        let mut min_y: u32 = 65535;
        let mut max_x: u32 = 0;
        let mut max_y: u32 = 0;
        let mut r = p.row;
        while r < r_end
            invariant
                p.row <= r,
                r <= r_end || r == p.row,
                r_end <= self@.rows,
                c_end <= self@.cols,
                all@.len() == self@.rows,
                forall|k: int| 0 <= k < self@.rows ==> (#[trigger] all@[k])@.len() == self@.cols,
                g == all@.map_values(|v: Vec<Area>| v@),
                ({
                    let x = block_extent(g, p.row as int, r as int, p.col as int, c_end as int);
                    min_x == x.min_x && min_y == x.min_y && max_x == x.max_x && max_y == x.max_y
                }),
                max_x <= 2 * 65535,
                max_y <= 2 * 65535,
                min_x <= 65535,
                min_y <= 65535,
            decreases r_end - r,
        {
            let mut c = p.col;
            let ghost before = block_extent(g, p.row as int, r as int, p.col as int, c_end as int);
            while c < c_end
                invariant
                    p.row <= r < r_end,
                    p.col <= c,
                    c <= c_end || c == p.col,
                    r_end <= self@.rows,
                    c_end <= self@.cols,
                    all@.len() == self@.rows,
                    forall|k: int| 0 <= k < self@.rows ==> (#[trigger] all@[k])@.len() == self@.cols,
                    g == all@.map_values(|v: Vec<Area>| v@),
                    ({
                        let x = row_extent(g, before, r as int, p.col as int, c as int);
                        min_x == x.min_x && min_y == x.min_y && max_x == x.max_x && max_y == x.max_y
                    }),
                    max_x <= 2 * 65535,
                    max_y <= 2 * 65535,
                    min_x <= 65535,
                    min_y <= 65535,
                decreases c_end - c,
            {
                assert(g[r as int] == all@[r as int]@);
                let cell = all[r][c];
                if (cell.x as u32) < min_x {
                    min_x = cell.x as u32;
                }
                if (cell.y as u32) < min_y {
                    min_y = cell.y as u32;
                }
                if cell.x as u32 + cell.width as u32 > max_x {
                    max_x = cell.x as u32 + cell.width as u32;
                }
                if cell.y as u32 + cell.height as u32 > max_y {
                    max_y = cell.y as u32 + cell.height as u32;
                }
                c += 1;
            }
            r += 1;
        }
        if min_x < max_x && min_y < max_y {
            let right: u32 = if max_x > 65535 { 65535 } else { max_x };
            let bottom: u32 = if max_y > 65535 { 65535 } else { max_y };
            Some(Area {
                x: min_x as u16,
                y: min_y as u16,
                width: (right - min_x) as u16,
                height: (bottom - min_y) as u16,
            })
        } else {
            None
        }
    }
}

} // verus!
