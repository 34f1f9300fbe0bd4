use docfit::document::{DocumentPage, Image};
use docfit::layout::{CompiledDocument, Frame};
use docfit::session::{RecomputeState, Snapshot};

fn snapshot(page_w: i64) -> Snapshot {
    let doc = CompiledDocument {
        pages: vec![Frame { width: page_w, height: 100, items: vec![] }],
    };
    let image = Image { data: Vec::new(), width: 0, height: 0 };
    let document = DocumentPage::new_followup(doc, 200, 200, image).unwrap();
    Snapshot { document, areas: Vec::new() }
}

#[test]
fn recompute_is_edge_triggered() {
    let mut st = RecomputeState::new();
    let first = st.observe_size(100, 200);
    assert!(first.is_some());
    // The same size again triggers nothing.
    assert!(st.observe_size(100, 200).is_none());
    assert!(st.observe_size(100, 200).is_none());
    // A different size triggers a new recompute with a fresh token.
    let second = st.observe_size(101, 200);
    assert!(second.is_some());
    assert_ne!(first.unwrap(), second.unwrap());
}

#[test]
fn stale_result_is_discarded() {
    let mut st = RecomputeState::new();
    let tok1 = st.observe_size(100, 100).unwrap();
    // A newer size change supersedes the in-flight recompute.
    let tok2 = st.observe_size(300, 300).unwrap();
    st.complete(tok1, Some(snapshot(50)));
    assert!(st.current().is_none());
    st.complete(tok2, Some(snapshot(60)));
    let shown = st.current().unwrap();
    assert_eq!(shown.document.page.width, 60);
}

#[test]
fn failed_attempt_retains_last_good_output() {
    let mut st = RecomputeState::new();
    let tok1 = st.observe_size(100, 100).unwrap();
    st.complete(tok1, Some(snapshot(50)));
    assert_eq!(st.current().unwrap().document.page.width, 50);
    // The next recompute fails; the previous output stays displayed.
    let tok2 = st.observe_size(120, 100).unwrap();
    st.complete(tok2, None);
    assert_eq!(st.current().unwrap().document.page.width, 50);
}

#[test]
fn nothing_displayed_before_first_success() {
    let mut st = RecomputeState::new();
    assert!(st.current().is_none());
    let tok = st.observe_size(10, 10).unwrap();
    st.complete(tok, None);
    assert!(st.current().is_none());
}
