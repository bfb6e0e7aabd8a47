use remerge::pty::{PtyFilter, PtyItem};

#[test]
fn plain_output_is_relayed_and_lines_handed_over() {
    let mut f = PtyFilter::new();
    let out = f.feed(b"hello\nworld");
    assert_eq!(out.forward, b"hello\nworld".to_vec());
    assert_eq!(out.items, vec![PtyItem::Line(b"hello\n".to_vec())]);
    let out = f.feed(b"!\n");
    assert_eq!(out.forward, b"!\n".to_vec());
    assert_eq!(out.items, vec![PtyItem::Line(b"world!\n".to_vec())]);
}

#[test]
fn control_line_is_taken_out_of_the_relay() {
    let mut f = PtyFilter::new();
    let out = f.feed(b"REMERGE_EVENT:{\"type\":\"x\"}\nnext\n");
    assert_eq!(out.forward, b"next\n".to_vec());
    assert_eq!(
        out.items,
        vec![
            PtyItem::Control(b"REMERGE_EVENT:{\"type\":\"x\"}\n".to_vec()),
            PtyItem::Line(b"next\n".to_vec()),
        ]
    );
}

#[test]
fn control_line_after_output_in_one_chunk() {
    let mut f = PtyFilter::new();
    let out = f.feed(b"a\nREMERGE_EVENT:1\nb\n");
    assert_eq!(out.forward, b"a\nb\n".to_vec());
    assert_eq!(
        out.items,
        vec![
            PtyItem::Line(b"a\n".to_vec()),
            PtyItem::Control(b"REMERGE_EVENT:1\n".to_vec()),
            PtyItem::Line(b"b\n".to_vec()),
        ]
    );
}

#[test]
fn prefix_split_across_chunks_is_held_then_resolved() {
    let mut f = PtyFilter::new();
    let out = f.feed(b"REM");
    assert!(out.forward.is_empty());
    assert!(out.items.is_empty());
    let out = f.feed(b"ERGE_EVENT:x\n");
    assert!(out.forward.is_empty());
    assert_eq!(out.items, vec![PtyItem::Control(b"REMERGE_EVENT:x\n".to_vec())]);

    let out = f.feed(b"REM");
    assert!(out.forward.is_empty());
    let out = f.feed(b"IND\n");
    assert_eq!(out.forward, b"REMIND\n".to_vec());
    assert_eq!(out.items, vec![PtyItem::Line(b"REMIND\n".to_vec())]);
}

#[test]
fn carriage_return_starts_a_new_line_without_handing_it_over() {
    let mut f = PtyFilter::new();
    let out = f.feed(b" 10%\r 20%\rREMERGE_EVENT:e\n");
    assert_eq!(out.forward, b" 10%\r 20%\r".to_vec());
    assert_eq!(out.items, vec![PtyItem::Control(b"REMERGE_EVENT:e\n".to_vec())]);
}

#[test]
fn empty_line_at_line_start_is_handed_over() {
    let mut f = PtyFilter::new();
    let out = f.feed(b"\n");
    assert_eq!(out.forward, b"\n".to_vec());
    assert_eq!(out.items, vec![PtyItem::Line(b"\n".to_vec())]);
}

#[test]
fn control_line_spanning_chunks() {
    let mut f = PtyFilter::new();
    let _ = f.feed(b"REMERGE_EVENT:par");
    let out = f.feed(b"tial\nafter\n");
    assert_eq!(out.forward, b"after\n".to_vec());
    assert_eq!(
        out.items,
        vec![
            PtyItem::Control(b"REMERGE_EVENT:partial\n".to_vec()),
            PtyItem::Line(b"after\n".to_vec()),
        ]
    );
}

#[test]
fn chunk_ending_inside_a_control_line_forwards_only_what_precedes_it() {
    let mut f = PtyFilter::new();
    let out = f.feed(b"ab\nREMERGE_EVENT:partial");
    assert_eq!(out.forward, b"ab\n".to_vec());
    assert_eq!(out.items, vec![PtyItem::Line(b"ab\n".to_vec())]);
    let out = f.feed(b" tail");
    assert!(out.forward.is_empty());
    let out = f.feed(b"\nnext\n");
    assert_eq!(out.forward, b"next\n".to_vec());
    assert_eq!(
        out.items,
        vec![
            PtyItem::Control(b"REMERGE_EVENT:partial tail\n".to_vec()),
            PtyItem::Line(b"next\n".to_vec()),
        ]
    );
}
