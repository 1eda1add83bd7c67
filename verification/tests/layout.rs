use mise_tui::config::{PanelConfig, ProfileConfig};
use mise_tui::layout::{chrome_from_parts, row_cells, resolve_constraints, Area, LayoutEngine, LayoutError};

fn make_config(rows: usize, cols: usize, panels: Vec<PanelConfig>) -> ProfileConfig {
    ProfileConfig {
        rows,
        columns: cols,
        column_widths: None,
        row_heights: None,
        header: false,
        footer: false,
        panels,
    }
}

fn panel(row: usize, col: usize, widget_type: &str) -> PanelConfig {
    spanning_panel(row, col, widget_type, 1, 1)
}

fn spanning_panel(row: usize, col: usize, widget_type: &str, row_span: usize, col_span: usize) -> PanelConfig {
    PanelConfig { row, col, widget_type: widget_type.to_string(), id: None, col_span, row_span }
}

fn area(x: u16, y: u16, width: u16, height: u16) -> Area {
    Area { x, y, width, height }
}

fn rect_at(rects: &[((usize, usize), Area)], cell: (usize, usize)) -> Area {
    rects.iter().find(|(c, _)| *c == cell).map(|(_, a)| *a).unwrap()
}

#[test]
fn occupancy_map_populated() {
    let config = make_config(2, 2, vec![panel(0, 0, "cpu"), panel(1, 1, "memory")]);
    let engine = LayoutEngine::from_config(&config).unwrap();
    assert_eq!(engine.instance_at(0, 0), Some("cpu"));
    assert_eq!(engine.instance_at(1, 1), Some("memory"));
    assert_eq!(engine.instance_at(0, 1), None);
    assert_eq!(engine.instance_at(1, 0), None);
}

#[test]
fn occupied_cells_sorted() {
    let config = make_config(2, 2, vec![panel(1, 1, "memory"), panel(0, 0, "cpu"), panel(0, 1, "network")]);
    let engine = LayoutEngine::from_config(&config).unwrap();
    assert_eq!(engine.occupied_cells(), vec![(0, 0), (0, 1), (1, 1)]);
}

#[test]
fn grid_dimensions() {
    let engine = LayoutEngine::from_config(&make_config(3, 4, vec![])).unwrap();
    assert_eq!(engine.grid_dimensions(), (3, 4));
}

#[test]
fn equal_split_2x2() {
    let config = make_config(
        2,
        2,
        vec![panel(0, 0, "cpu"), panel(0, 1, "memory"), panel(1, 0, "network"), panel(1, 1, "temps")],
    );
    let engine = LayoutEngine::from_config(&config).unwrap();
    let rects = engine.resolve_rects(area(0, 0, 100, 50));
    assert_eq!(rects.len(), 4);
    for (_, rect) in rects.iter() {
        assert!(rect.width > 0);
        assert!(rect.height > 0);
    }
    let tl = rect_at(&rects, (0, 0));
    assert_eq!(tl.x, 0);
    assert_eq!(tl.y, 0);
}

#[test]
fn header_footer_reduce_grid_area() {
    let mut config = make_config(1, 1, vec![panel(0, 0, "cpu")]);
    config.header = true;
    config.footer = true;
    let engine = LayoutEngine::from_config(&config).unwrap();
    let rects = engine.resolve_rects(area(0, 0, 80, 24));
    assert_eq!(rect_at(&rects, (0, 0)).height, 22);
}

#[test]
fn explicit_percentages() {
    let config = ProfileConfig {
        rows: 2,
        columns: 1,
        column_widths: None,
        row_heights: Some(vec!["70%".to_string(), "30%".to_string()]),
        header: false,
        footer: false,
        panels: vec![panel(0, 0, "cpu"), panel(1, 0, "memory")],
    };
    let engine = LayoutEngine::from_config(&config).unwrap();
    let rects = engine.resolve_rects(area(0, 0, 80, 100));
    assert_eq!(rect_at(&rects, (0, 0)).height, 70);
    assert_eq!(rect_at(&rects, (1, 0)).height, 30);
}

#[test]
fn split_chrome_header_and_footer() {
    let mut config = make_config(1, 1, vec![panel(0, 0, "cpu")]);
    config.header = true;
    config.footer = true;
    let engine = LayoutEngine::from_config(&config).unwrap();
    let (header, grid, footer) = engine.split_chrome(area(0, 0, 80, 24));
    assert!(header.is_some());
    assert_eq!(header.unwrap().height, 1);
    assert!(footer.is_some());
    assert_eq!(footer.unwrap().height, 1);
    assert_eq!(grid.height, 22);
}

#[test]
fn spanning_occupancy_fills_all_cells() {
    let config = make_config(2, 3, vec![spanning_panel(0, 0, "cpu", 2, 2), panel(0, 2, "memory")]);
    let engine = LayoutEngine::from_config(&config).unwrap();
    assert_eq!(engine.instance_at(0, 0), Some("cpu"));
    assert_eq!(engine.instance_at(0, 1), Some("cpu"));
    assert_eq!(engine.instance_at(1, 0), Some("cpu"));
    assert_eq!(engine.instance_at(1, 1), Some("cpu"));
    assert_eq!(engine.instance_at(0, 2), Some("memory"));
    assert_eq!(engine.instance_at(1, 2), None);
}

#[test]
fn occupied_cells_returns_anchors_only() {
    let config = make_config(2, 3, vec![spanning_panel(0, 0, "cpu", 2, 2), panel(0, 2, "memory")]);
    let engine = LayoutEngine::from_config(&config).unwrap();
    assert_eq!(engine.occupied_cells(), vec![(0, 0), (0, 2)]);
}

#[test]
fn anchor_for_returns_anchor_cell() {
    let config = make_config(2, 3, vec![spanning_panel(0, 0, "cpu", 2, 2), panel(0, 2, "memory")]);
    let engine = LayoutEngine::from_config(&config).unwrap();
    assert_eq!(engine.anchor_for(0, 0), Some((0, 0)));
    assert_eq!(engine.anchor_for(1, 1), Some((0, 0)));
    assert_eq!(engine.anchor_for(0, 2), Some((0, 2)));
    assert_eq!(engine.anchor_for(1, 2), None);
}

#[test]
fn resolve_rects_merges_spanning_cells() {
    let config = make_config(
        2,
        2,
        vec![spanning_panel(0, 0, "cpu", 1, 2), panel(1, 0, "memory"), panel(1, 1, "network")],
    );
    let engine = LayoutEngine::from_config(&config).unwrap();
    let rects = engine.resolve_rects(area(0, 0, 100, 50));
    assert_eq!(rects.len(), 3);
    let cpu_rect = rect_at(&rects, (0, 0));
    let mem_rect = rect_at(&rects, (1, 0));
    assert_eq!(cpu_rect.width, 100);
    assert!(cpu_rect.width > mem_rect.width);
}

#[test]
fn resolve_rects_2x2_span() {
    let config = make_config(2, 2, vec![spanning_panel(0, 0, "cpu", 2, 2)]);
    let engine = LayoutEngine::from_config(&config).unwrap();
    let rects = engine.resolve_rects(area(0, 0, 100, 50));
    assert_eq!(rects.len(), 1);
    assert_eq!(rect_at(&rects, (0, 0)), area(0, 0, 100, 50));
}

// -- further cases --

#[test]
fn invalid_percentage_is_an_error() {
    let mut config = make_config(1, 2, vec![]);
    config.column_widths = Some(vec!["50%".into(), "half".into()]);
    match LayoutEngine::from_config(&config) {
        Err(e) => assert_eq!(e, LayoutError::InvalidPercentage { value: "half".to_string() }),
        Ok(_) => panic!("expected an error"),
    }
}

#[test]
fn constraints_without_sizes_split_equally() {
    let c = resolve_constraints(3, &None).unwrap();
    assert_eq!(c.len(), 3);
    assert_eq!(resolve_constraints(2, &Some(vec!["25%".into(), " 75 % ".into()])).ok(), None);
    assert_eq!(resolve_constraints(2, &Some(vec!["25%".into(), "75%".into()])).unwrap(), vec![25, 75]);
}

#[test]
fn later_panel_wins_a_shared_cell() {
    let config = make_config(1, 2, vec![spanning_panel(0, 0, "cpu", 1, 2), panel(0, 1, "memory")]);
    let engine = LayoutEngine::from_config(&config).unwrap();
    assert_eq!(engine.instance_at(0, 0), Some("cpu"));
    assert_eq!(engine.instance_at(0, 1), Some("memory"));
    assert_eq!(engine.anchor_for(0, 1), Some((0, 1)));
}

#[test]
fn cell_rects_tile_the_grid() {
    let engine = LayoutEngine::from_config(&make_config(2, 3, vec![])).unwrap();
    let grid = engine.resolve_all_rects(area(0, 0, 90, 40));
    assert_eq!(grid.len(), 2);
    assert_eq!(grid[0].len(), 3);
    let widths: u16 = grid[0].iter().map(|a| a.width).sum();
    let heights: u16 = grid.iter().map(|row| row[0].height).sum();
    assert_eq!(widths, 90);
    assert_eq!(heights, 40);
    assert_eq!(grid[1][2].x + grid[1][2].width, 90);
}

#[test]
fn no_chrome_keeps_whole_area() {
    let engine = LayoutEngine::from_config(&make_config(1, 1, vec![])).unwrap();
    let (h, grid, f) = engine.split_chrome(area(2, 3, 40, 10));
    assert!(h.is_none() && f.is_none());
    assert_eq!(grid, area(2, 3, 40, 10));
    assert!(!engine.has_header() && !engine.has_footer());
}

#[test]
fn chrome_from_parts_picks_header_grid_footer() {
    let parts = vec![area(0, 0, 10, 1), area(0, 1, 10, 8), area(0, 9, 10, 1)];
    assert_eq!(chrome_from_parts(true, true, area(0, 0, 10, 10), &parts), (Some(parts[0]), parts[1], Some(parts[2])));
    let two = vec![area(0, 0, 10, 9), area(0, 9, 10, 1)];
    assert_eq!(chrome_from_parts(false, true, area(0, 0, 10, 10), &two), (None, two[0], Some(two[1])));
    assert_eq!(chrome_from_parts(false, false, area(1, 2, 3, 4), &vec![]), (None, area(1, 2, 3, 4), None));
}

#[test]
fn panel_rects_bound_the_spanned_cells() {
    let config = make_config(2, 2, vec![spanning_panel(0, 0, "cpu", 2, 1), panel(0, 1, "memory")]);
    let engine = LayoutEngine::from_config(&config).unwrap();
    let cells = vec![
        vec![area(0, 0, 5, 3), area(5, 0, 7, 3)],
        vec![area(0, 3, 5, 4), area(5, 3, 7, 4)],
    ];
    let rects = engine.panel_rects(&cells);
    assert_eq!(rect_at(&rects, (0, 0)), area(0, 0, 5, 7));
    assert_eq!(rect_at(&rects, (0, 1)), area(5, 0, 7, 3));
}

#[test]
fn row_cells_keeps_the_first_parts() {
    let parts = vec![area(0, 0, 3, 2), area(3, 0, 4, 2), area(7, 0, 5, 2)];
    assert_eq!(row_cells(&parts, 2), vec![area(0, 0, 3, 2), area(3, 0, 4, 2)]);
    assert!(row_cells(&parts, 0).is_empty());
}
