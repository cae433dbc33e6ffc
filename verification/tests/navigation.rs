use unsegen_pager::LineIndex;
use unsegen_pager::NoDecorator;
use unsegen_pager::Pager;
use unsegen_pager::PagerContent;
use unsegen_pager::PagerError;

fn lines(n: usize) -> Vec<String> {
    (0..n).map(|i| format!("line {}", i)).collect()
}

fn loaded(n: usize) -> Pager<String, NoDecorator<String>> {
    let mut p: Pager<String> = Pager::new();
    p.load(PagerContent::from_lines(lines(n)));
    p
}

#[test]
fn go_to_line_in_bounds_succeeds() {
    let mut p = loaded(10);
    for i in 0..10 {
        assert!(p.go_to_line(LineIndex::new(i)).is_ok());
        assert_eq!(p.current_line_index().raw_value(), i);
    }
}

#[test]
fn go_to_line_out_of_bounds_fails_and_keeps_current() {
    let mut p = loaded(10);
    p.go_to_line(LineIndex::new(3)).unwrap();
    let r = p.go_to_line(LineIndex::new(10));
    match r {
        Err(PagerError::NoLineWithIndex(i)) => assert_eq!(i.raw_value(), 10),
        _ => panic!("expected NoLineWithIndex"),
    }
    assert_eq!(p.current_line_index().raw_value(), 3);
}

#[test]
fn go_to_line_without_content_fails() {
    let mut p: Pager<String> = Pager::new();
    assert!(matches!(
        p.go_to_line(LineIndex::new(0)),
        Err(PagerError::NoLineWithIndex(_))
    ));
}

#[test]
fn beginning_then_backwards_always_fails() {
    let mut p = loaded(5);
    p.go_to_line(LineIndex::new(4)).unwrap();
    let _ = p.scroll_to_beginning();
    assert!(p.scroll_backwards().is_err());
    assert_eq!(p.current_line_index().raw_value(), 0);
}

#[test]
fn end_then_forwards_always_fails() {
    let mut p = loaded(5);
    let _ = p.scroll_to_end();
    assert_eq!(p.current_line_index().raw_value(), 4);
    assert!(p.scroll_forwards().is_err());
}

#[test]
fn end_then_forwards_fails_on_empty_store_too() {
    let mut p: Pager<String> = Pager::new();
    p.load(PagerContent::from_lines(Vec::new()));
    assert!(p.scroll_to_end().is_err());
    assert!(p.scroll_forwards().is_err());
}

#[test]
fn scroll_steps_move_by_one() {
    let mut p = loaded(3);
    assert_eq!(p.current_line_index().raw_value(), 0);
    assert!(p.scroll_forwards().is_ok());
    assert_eq!(p.current_line_index().raw_value(), 1);
    assert!(p.scroll_backwards().is_ok());
    assert_eq!(p.current_line_index().raw_value(), 0);
}

#[test]
fn scroll_to_beginning_is_a_noop_signal_at_start() {
    let mut p = loaded(3);
    assert!(p.scroll_to_beginning().is_err());
    assert!(p.scroll_forwards().is_ok());
    assert!(p.scroll_to_beginning().is_ok());
}

#[test]
fn reload_clamps_current_to_last_line() {
    let mut p = loaded(10);
    p.go_to_line(LineIndex::new(9)).unwrap();
    p.load(PagerContent::from_lines(lines(4)));
    assert_eq!(p.current_line_index().raw_value(), 3);
}

#[test]
fn reload_keeps_current_when_still_valid() {
    let mut p = loaded(10);
    p.go_to_line(LineIndex::new(2)).unwrap();
    p.load(PagerContent::from_lines(lines(4)));
    assert_eq!(p.current_line_index().raw_value(), 2);
}

#[test]
fn current_line_returns_the_active_line() {
    let mut p = loaded(4);
    p.go_to_line(LineIndex::new(2)).unwrap();
    assert_eq!(p.current_line().unwrap().as_str(), "line 2");
    p.clear_content();
    assert!(p.current_line().is_none());
    assert!(p.content().is_none());
}

#[test]
fn go_to_line_if_finds_the_first_match() {
    let mut p = loaded(8);
    let r = p.go_to_line_if(|i: LineIndex, l: &String| i.raw_value() >= 3 && l.starts_with("line"));
    assert!(r.is_ok());
    assert_eq!(p.current_line_index().raw_value(), 3);
}

#[test]
fn go_to_line_if_without_match_keeps_current() {
    let mut p = loaded(8);
    p.go_to_line(LineIndex::new(5)).unwrap();
    let r = p.go_to_line_if(|_i: LineIndex, l: &String| l.is_empty());
    assert!(matches!(r, Err(PagerError::NoLineWithPredicate)));
    assert_eq!(p.current_line_index().raw_value(), 5);
}

#[test]
fn go_to_line_if_without_content_reports_no_content() {
    let mut p: Pager<String> = Pager::new();
    let r = p.go_to_line_if(|_i: LineIndex, _l: &String| true);
    assert!(matches!(r, Err(PagerError::NoContent)));
}

#[test]
fn set_decorator_through_content_mut() {
    let mut p = loaded(3);
    let c = p.content_mut().unwrap();
    c.set_decorator(NoDecorator::default());
    assert_eq!(p.current_line_index().raw_value(), 0);
}
