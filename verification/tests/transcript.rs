use tedana_core::transcript::{Origin, Transcript};

#[test]
fn new_transcript_is_empty() {
    let transcript = Transcript::new();
    assert_eq!(transcript.len(), 0);
    assert!(!transcript.saw_marker());
    assert_eq!(transcript.render(), "");
    assert!(transcript.stream(Origin::Primary).is_empty());
    assert!(transcript.stream(Origin::Diagnostic).is_empty());
}

#[test]
fn primary_lines_keep_their_order() {
    let mut transcript = Transcript::new();
    let mut seen: Vec<(Origin, String, usize)> = Vec::new();
    for text in ["a", "b", "c"] {
        let index = transcript.record(Origin::Primary, text);
        seen.push((Origin::Primary, text.to_string(), index));
    }
    assert_eq!(
        seen,
        vec![
            (Origin::Primary, "a".to_string(), 0),
            (Origin::Primary, "b".to_string(), 1),
            (Origin::Primary, "c".to_string(), 2),
        ]
    );
    assert_eq!(transcript.stream(Origin::Primary), vec!["a", "b", "c"]);
    assert_eq!(transcript.len(), 3);
    for at in 0..3 {
        let line = transcript.line(at).unwrap();
        assert_eq!(line.origin, Origin::Primary);
        assert_eq!(line.index, at);
    }
    assert_eq!(transcript.line(0).unwrap().text, "a");
    assert_eq!(transcript.line(1).unwrap().text, "b");
    assert_eq!(transcript.line(2).unwrap().text, "c");
    assert!(transcript.line(3).is_none());
}

#[test]
fn each_stream_counts_its_own_lines() {
    let mut transcript = Transcript::new();
    assert_eq!(transcript.record(Origin::Primary, "out-a"), 0);
    assert_eq!(transcript.record(Origin::Diagnostic, "err-a"), 0);
    assert_eq!(transcript.record(Origin::Diagnostic, "err-b"), 1);
    assert_eq!(transcript.record(Origin::Primary, "out-b"), 1);
    assert_eq!(transcript.record(Origin::Diagnostic, "err-c"), 2);
    assert_eq!(transcript.stream(Origin::Primary), vec!["out-a", "out-b"]);
    assert_eq!(transcript.stream(Origin::Diagnostic), vec!["err-a", "err-b", "err-c"]);
    assert_eq!(transcript.line(3).unwrap().text, "out-b");
    assert_eq!(transcript.line(3).unwrap().index, 1);
    assert_eq!(transcript.line(4).unwrap().origin, Origin::Diagnostic);
    assert_eq!(transcript.line(4).unwrap().index, 2);
}

#[test]
fn marker_on_diagnostic_stream_is_noticed() {
    let mut transcript = Transcript::new();
    transcript.record(Origin::Diagnostic, "WARNING: slow");
    assert!(!transcript.saw_marker());
    transcript.record(Origin::Diagnostic, "2024 ERROR: could not load");
    assert!(transcript.saw_marker());
    transcript.record(Origin::Diagnostic, "fine again");
    assert!(transcript.saw_marker());
}

#[test]
fn marker_on_primary_stream_is_not() {
    let mut transcript = Transcript::new();
    transcript.record(Origin::Primary, "ERROR: only text");
    assert!(!transcript.saw_marker());
}

#[test]
fn marker_needs_its_colon_and_case() {
    let mut transcript = Transcript::new();
    transcript.record(Origin::Diagnostic, "ERROR without colon");
    transcript.record(Origin::Diagnostic, "error: lower case");
    transcript.record(Origin::Diagnostic, "ERROR :");
    assert!(!transcript.saw_marker());
    transcript.record(Origin::Diagnostic, "ERROR:");
    assert!(transcript.saw_marker());
}

#[test]
fn events_are_named_by_stream() {
    assert_eq!(Origin::Primary.event(), "progress-line");
    assert_eq!(Origin::Diagnostic.event(), "error-line");
}

#[test]
fn render_prefixes_diagnostic_lines() {
    let mut transcript = Transcript::new();
    transcript.record(Origin::Primary, "start");
    transcript.record(Origin::Diagnostic, "careful");
    transcript.record(Origin::Primary, "");
    transcript.record(Origin::Primary, "done");
    assert_eq!(transcript.render(), "start\n[stderr] careful\n\ndone\n");
}
