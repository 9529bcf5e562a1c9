use dsh_tui::deepseek_logo::{
    harness_rows, hollow, hollow_spans, whale_for_width, whale_pad, wordmark_caption, wordmark_plan, wordmark_rows,
    wordmark_small_rows, WordmarkPlan,
};

#[test]
fn whale_size_follows_the_width_breakpoints() {
    assert_eq!(whale_for_width(0).len(), 6);
    assert_eq!(whale_for_width(25).len(), 6);
    assert_eq!(whale_for_width(26).len(), 10);
    assert_eq!(whale_for_width(45).len(), 10);
    assert_eq!(whale_for_width(46).len(), 15);
    assert_eq!(whale_for_width(63).len(), 15);
    assert_eq!(whale_for_width(64).len(), 19);
    assert_eq!(whale_pad(80), (80 - 51) / 2);
    assert_eq!(whale_pad(10), 0);
}

#[test]
fn hollow_rows_split_into_edge_and_fill_runs() {
    assert_eq!(hollow("██ █"), "░░ ░");
    let spans = hollow_spans("█╗ ██║");
    assert_eq!(
        spans,
        vec![
            ("░".to_string(), false),
            ("╗".to_string(), true),
            (" ░░".to_string(), false),
            ("║".to_string(), true),
        ]
    );
    assert!(hollow_spans("").is_empty());
}

#[test]
fn wordmark_layout_follows_the_width() {
    assert_eq!(wordmark_plan(130), WordmarkPlan::Wide { pad: 3 });
    assert_eq!(wordmark_plan(80), WordmarkPlan::Art { small: false, pad: 8, caption_pad: 27 });
    assert_eq!(wordmark_plan(40), WordmarkPlan::Art { small: true, pad: 2, caption_pad: 13 });
    assert_eq!(wordmark_plan(20), WordmarkPlan::Text { pad: 2, harness: true });
    assert_eq!(wordmark_plan(10), WordmarkPlan::Text { pad: 1, harness: false });
    assert_eq!(wordmark_caption(true).chars().count(), 13);
    assert_eq!(wordmark_caption(false).chars().count(), 25);
    assert_eq!(wordmark_rows().len(), 6);
    assert_eq!(harness_rows().len(), 6);
    assert_eq!(wordmark_small_rows()[1], "|   \\| __| __| _ \\/ __| __| __| |/ /");
}
