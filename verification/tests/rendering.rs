use unsegen_pager::digits;
use unsegen_pager::line_segments;
use unsegen_pager::wrap_rows;
use unsegen_pager::BoolMod;
use unsegen_pager::LineIndex;
use unsegen_pager::LineNumberDecorator;
use unsegen_pager::NoDecorator;
use unsegen_pager::Pager;
use unsegen_pager::PagerContent;
use unsegen_pager::Rgb;
use unsegen_pager::RenderPlan;
use unsegen_pager::StyleMod;

fn loaded(n: usize, text: &str) -> Pager<String, NoDecorator<String>> {
    let mut p: Pager<String> = Pager::new();
    p.load(PagerContent::from_lines((0..n).map(|_| text.to_string()).collect()));
    p
}

fn plan_of(p: &Pager<String, NoDecorator<String>>, w: usize, h: usize) -> RenderPlan {
    p.render_plan(w, h).expect("row accounting fits")
}

#[test]
fn wrap_rows_is_ceiling_of_bytes_over_width() {
    assert_eq!(wrap_rows(0, 7), 1);
    assert_eq!(wrap_rows(1, 7), 1);
    assert_eq!(wrap_rows(7, 7), 1);
    assert_eq!(wrap_rows(8, 7), 2);
    assert_eq!(wrap_rows(14, 7), 2);
    assert_eq!(wrap_rows(15, 7), 3);
    assert_eq!(wrap_rows(5, 1), 5);
}

#[test]
fn centering_midway_puts_current_line_at_half_height() {
    let mut p = loaded(1000, "x");
    p.go_to_line(LineIndex::new(500)).unwrap();
    let plan = plan_of(&p, 80, 20);
    let cur = plan.lines.iter().find(|l| l.is_current).unwrap();
    assert_eq!(cur.row_start, 10);
    assert_eq!(cur.row_end, 11);
}

#[test]
fn centering_at_start_pins_window_to_top() {
    let mut p = loaded(1000, "x");
    p.go_to_line(LineIndex::new(0)).unwrap();
    let plan = plan_of(&p, 80, 20);
    assert_eq!(plan.hidden_rows, 0);
    let first = &plan.lines[0];
    assert_eq!(first.index, 0);
    assert!(first.is_current);
    assert_eq!(first.row_start, 0);
}

#[test]
fn centering_at_end_fills_down_to_last_row() {
    let mut p = loaded(1000, "x");
    p.go_to_line(LineIndex::new(999)).unwrap();
    let plan = plan_of(&p, 80, 20);
    let cur = plan.lines.iter().find(|l| l.is_current).unwrap();
    assert_eq!(cur.row_start, 19);
    assert_eq!(cur.row_end, 20);
    let last = plan.lines.last().unwrap();
    assert_eq!(last.index, 999);
}

#[test]
fn candidate_window_spans_the_context_radius() {
    let mut p = loaded(1000, "x");
    p.go_to_line(LineIndex::new(500)).unwrap();
    let plan = plan_of(&p, 80, 20);
    // radius = max(height, 20) = 20
    assert_eq!(plan.lines.first().unwrap().index, 480);
    assert_eq!(plan.lines.last().unwrap().index, 519);
    assert_eq!(plan.lines.len(), 40);
}

#[test]
fn wrapped_lines_occupy_several_rows_in_the_plan() {
    let mut p = loaded(100, "0123456789");
    p.go_to_line(LineIndex::new(50)).unwrap();
    let plan = plan_of(&p, 4, 10);
    // content column is the full 4 cells wide; 10 bytes wrap to 3 rows
    assert_eq!(plan.content_width, 4);
    for l in plan.lines.iter() {
        assert_eq!(l.rows, 3);
    }
    let cur = plan.lines.iter().find(|l| l.is_current).unwrap();
    // ideal centering: height / 2
    assert_eq!(cur.row_start, 5);
}

#[test]
fn empty_store_and_degenerate_surfaces_render_nothing() {
    let p0: Pager<String> = Pager::new();
    assert_eq!(p0.render_plan(80, 20).unwrap().lines.len(), 0);
    let p1 = loaded(0, "x");
    assert_eq!(p1.render_plan(80, 20).unwrap().lines.len(), 0);
    let p2 = loaded(5, "x");
    assert_eq!(p2.render_plan(0, 20).unwrap().lines.len(), 0);
    assert_eq!(p2.render_plan(80, 0).unwrap().lines.len(), 0);
}

#[test]
fn reload_with_empty_store_draws_nothing_without_an_error() {
    let mut p = loaded(10, "x");
    p.go_to_line(LineIndex::new(9)).unwrap();
    p.load(PagerContent::from_lines(Vec::new()));
    assert_eq!(p.render_plan(80, 20).unwrap().lines.len(), 0);
}

#[test]
fn row_spans_stay_clipped_to_the_surface() {
    let mut p = loaded(200, "yyyyyyyyyyyyyyyyyyyy");
    p.go_to_line(LineIndex::new(100)).unwrap();
    let plan = plan_of(&p, 10, 6);
    for l in plan.lines.iter() {
        assert!(l.row_start <= l.row_end);
        assert!(l.row_end <= 6);
    }
}

#[test]
fn decoration_column_width_is_uniform_and_from_the_whole_window() {
    let mut p: Pager<String, LineNumberDecorator<String>> = Pager::new();
    let content = PagerContent::from_lines((0..500).map(|i| format!("{}", i)).collect())
        .with_decorator(LineNumberDecorator::default());
    p.load(content);
    p.go_to_line(LineIndex::new(490)).unwrap();
    let plan = p.render_plan(30, 10).unwrap();
    // the window's last line number is 500: three digits plus two padding cells
    assert_eq!(plan.deco_width, 5);
    assert_eq!(plan.content_width, 25);
}

#[test]
fn decoration_width_follows_the_one_based_line_number() {
    let mut p: Pager<String, LineNumberDecorator<String>> = Pager::new();
    let content = PagerContent::from_lines((0..10).map(|i| format!("{}", i)).collect())
        .with_decorator(LineNumberDecorator::default());
    p.load(content);
    let plan = p.render_plan(30, 10).unwrap();
    // the last line's number is 10 (index 9): two digits plus two padding cells
    assert_eq!(plan.deco_width, 4);
}

#[test]
fn decoration_demand_is_clipped_before_the_content_floor() {
    let mut p: Pager<String, LineNumberDecorator<String>> = Pager::new();
    let content = PagerContent::from_lines((0..5).map(|i| format!("{}", i)).collect())
        .with_decorator(LineNumberDecorator::default());
    p.load(content);
    // the demand is 3 (the number 5 plus padding) but the surface is only 2 wide
    let plan = p.render_plan(2, 10).unwrap();
    assert_eq!(plan.deco_width, 1);
    assert_eq!(plan.content_width, 1);
}

#[test]
fn digit_counts() {
    assert_eq!(digits(0), 1);
    assert_eq!(digits(9), 1);
    assert_eq!(digits(10), 2);
    assert_eq!(digits(99), 2);
    assert_eq!(digits(12345), 5);
}

fn style_a() -> StyleMod {
    let mut s = StyleMod::new();
    s.fg = Some(Rgb { r: 1, g: 2, b: 3 });
    s
}

fn style_b() -> StyleMod {
    let mut s = StyleMod::new();
    s.fg = Some(Rgb { r: 9, g: 9, b: 9 });
    s.bold = BoolMod::True;
    s
}

#[test]
fn segments_split_a_line_at_its_style_changes() {
    // overlay [(0, styleA), (5, styleB)] over "hello world" (11 bytes)
    let changes = vec![(0usize, style_a()), (5usize, style_b())];
    let segs = line_segments(&changes, 11, false);
    assert_eq!(segs.len(), 3);
    assert_eq!((segs[0].start, segs[0].end), (0, 0));
    assert_eq!((segs[1].start, segs[1].end), (0, 5));
    assert_eq!((segs[2].start, segs[2].end), (5, 11));
    assert_eq!(segs[1].style.fg, Some(Rgb { r: 1, g: 2, b: 3 }));
    assert_eq!(segs[2].style.fg, Some(Rgb { r: 9, g: 9, b: 9 }));
    assert_eq!(segs[2].style.bold, BoolMod::True);
    assert_eq!(segs[1].style.invert, BoolMod::Keep);
}

#[test]
fn active_line_layers_invert_and_bold_without_discarding_highlights() {
    let changes = vec![(0usize, style_a()), (5usize, style_b())];
    let segs = line_segments(&changes, 11, true);
    // highlight colors survive; inversion toggles; bold is forced on
    assert_eq!(segs[1].style.fg, Some(Rgb { r: 1, g: 2, b: 3 }));
    assert_eq!(segs[1].style.invert, BoolMod::Toggle);
    assert_eq!(segs[1].style.bold, BoolMod::True);
    assert_eq!(segs[2].style.fg, Some(Rgb { r: 9, g: 9, b: 9 }));
    assert_eq!(segs[2].style.invert, BoolMod::Toggle);
}

#[test]
fn segments_of_a_plain_line_cover_it_with_the_base_style() {
    let changes: Vec<(usize, StyleMod)> = Vec::new();
    let segs = line_segments(&changes, 7, false);
    assert_eq!(segs.len(), 1);
    assert_eq!((segs[0].start, segs[0].end), (0, 7));
    assert_eq!(segs[0].style, StyleMod::new());
}
