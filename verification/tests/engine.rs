use hx_diff::diff::{DiffEngine, DiffKind, DiffRegion};

#[test]
fn new_engine_is_closed() {
    let engine = DiffEngine::new(40);
    assert_eq!(engine.lines.len(), 0);
    assert_eq!(engine.regions.len(), 0);
    assert_eq!(engine.cursor, None);
    assert_eq!(engine.scroll_top, 0);
    assert_eq!(engine.viewport_lines, 40);
}

#[test]
fn identical_texts_have_no_regions_and_no_cursor() {
    let text = "alpha\nbeta\ngamma\n";
    let mut engine = DiffEngine::new(40);
    engine.open(text, text);
    assert_eq!(engine.regions.len(), 0);
    assert_eq!(engine.cursor, None);
    assert_eq!(engine.scroll_top, 0);
    assert_eq!(engine.lines.len(), 3);
    assert!(engine.lines.iter().all(|l| l.kind == DiffKind::Unchanged));
}

#[test]
fn two_lines_to_three_lines() {
    // the two-line file grows a third line: a single added region
    let left = "one\ntwo\n";
    let right = "one\ntwo\nthree\n";
    let mut engine = DiffEngine::new(40);
    engine.open(left, right);
    let kinds: Vec<DiffKind> = engine.lines.iter().map(|l| l.kind).collect();
    assert_eq!(
        kinds,
        vec![DiffKind::Unchanged, DiffKind::Unchanged, DiffKind::Added]
    );
    // the unchanged run before the change is contiguous, and
    // exactly one region spans the changed lines
    assert_eq!(
        engine.regions,
        vec![DiffRegion { start: 2, end: 3, kind: DiffKind::Added }]
    );
    assert_eq!(engine.cursor, Some(2));

    // a jump from an unset cursor selects the start of the region
    engine.cursor = None;
    engine.next_difference();
    assert_eq!(engine.cursor, Some(2));

    // with no further change, a second jump leaves the cursor alone
    engine.next_difference();
    assert_eq!(engine.cursor, Some(2));
}

#[test]
fn modified_line_yields_removed_then_added() {
    let mut engine = DiffEngine::new(40);
    engine.open("keep\nold\n", "keep\nnew\n");
    let kinds: Vec<DiffKind> = engine.lines.iter().map(|l| l.kind).collect();
    assert_eq!(
        kinds,
        vec![DiffKind::Unchanged, DiffKind::Removed, DiffKind::Added]
    );
    assert_eq!(
        engine.regions,
        vec![
            DiffRegion { start: 1, end: 2, kind: DiffKind::Removed },
            DiffRegion { start: 2, end: 3, kind: DiffKind::Added },
        ]
    );
    assert_eq!(engine.cursor, Some(1));
    assert_eq!(engine.lines[0].text, "keep");
    assert_eq!(engine.lines[1].text, "old");
    assert_eq!(engine.lines[2].text, "new");
}

#[test]
fn line_numbers_come_from_each_side() {
    let mut engine = DiffEngine::new(40);
    engine.open("keep\nold\n", "keep\nnew\n");
    assert_eq!(engine.lines[0].old_index, Some(0));
    assert_eq!(engine.lines[0].new_index, Some(0));
    assert_eq!(engine.lines[1].old_index, Some(1));
    assert_eq!(engine.lines[1].new_index, None);
    assert_eq!(engine.lines[2].old_index, None);
    assert_eq!(engine.lines[2].new_index, Some(1));
}

#[test]
fn trailing_blanks_are_trimmed_for_display() {
    let mut engine = DiffEngine::new(40);
    engine.open("padded   \n", "padded   \nmore\t\n");
    assert_eq!(engine.lines[0].text, "padded");
    assert_eq!(engine.lines[1].text, "more");
}

#[test]
fn jump_passes_through_unchanged_lines_only() {
    // two separate changes with unchanged context between them
    let mut engine = DiffEngine::new(40);
    engine.open("a\nb\nc\nd\n", "a\nB\nc\nD\n");
    let kinds: Vec<DiffKind> = engine.lines.iter().map(|l| l.kind).collect();
    assert_eq!(
        kinds,
        vec![
            DiffKind::Unchanged,
            DiffKind::Removed,
            DiffKind::Added,
            DiffKind::Unchanged,
            DiffKind::Removed,
            DiffKind::Added,
        ]
    );
    assert_eq!(engine.cursor, Some(1));
    // from inside the first change, the scan must first cross an
    // unchanged line, so it lands on the second change, not on the
    // added half of the first
    engine.next_difference();
    assert_eq!(engine.cursor, Some(4));
    // and back again
    engine.previous_difference();
    assert_eq!(engine.cursor, Some(2));
}

#[test]
fn jump_without_target_changes_nothing() {
    let mut engine = DiffEngine::new(40);
    engine.open("same\n", "same\n");
    engine.next_difference();
    assert_eq!(engine.cursor, None);
    assert_eq!(engine.scroll_top, 0);
    engine.previous_difference();
    assert_eq!(engine.cursor, None);
}

#[test]
fn opening_scrolls_to_the_first_change() {
    // forty unchanged lines, then one changed line
    let mut left = String::new();
    for i in 0..40 {
        left.push_str(&format!("line {}\n", i));
    }
    let mut right = left.clone();
    right.push_str("tail\n");
    let mut engine = DiffEngine::new(20);
    engine.open(&left, &right);
    assert_eq!(engine.cursor, Some(40));
    // threshold is a quarter of the viewport: the target sits below
    // the comfortable range from offset zero, so the viewport moves
    // to keep a five-line margin under it
    assert_eq!(engine.scroll_top, 35);
}

#[test]
fn small_moves_leave_the_viewport_alone() {
    let mut engine = DiffEngine::new(20);
    engine.open("a\nb\nc\nd\ne\nf\ng\nh\n", "a\nb\nc\nd\ne\nf\ng\nH\n");
    // the change at line seven is comfortably inside a twenty-line
    // viewport starting at the top
    assert_eq!(engine.cursor, Some(7));
    assert_eq!(engine.scroll_top, 0);
}

#[test]
fn viewport_can_be_resized() {
    let mut engine = DiffEngine::new(10);
    engine.set_viewport(50);
    assert_eq!(engine.viewport_lines, 50);
}
