use breadcrumbs::picker::{
    cap_empty_query_matches, segment_popover_handle, BreadcrumbPickerCore, StringMatch,
    StringMatchCandidate,
};

fn candidates(count: usize) -> Vec<StringMatchCandidate> {
    (0..count)
        .map(|index| StringMatchCandidate {
            id: index,
            string: format!("entry-{index}"),
        })
        .collect()
}

fn ids(matches: &[StringMatch]) -> Vec<usize> {
    matches
        .iter()
        .map(|entry_match| entry_match.candidate_id)
        .collect()
}

#[test]
fn test_cap_empty_query_matches_passes_through_under_the_cap() {
    let candidates = candidates(5);
    let matches = cap_empty_query_matches(&candidates, None, 10);
    assert_eq!(matches.len(), 5);
    assert_eq!(
        matches[3],
        StringMatch {
            candidate_id: 3,
            string: "entry-3".to_string(),
            positions: vec![],
        }
    );
}

#[test]
fn test_cap_empty_query_matches_caps_and_keeps_an_entry_past_the_cap() {
    let candidates = candidates(10);
    let matches = cap_empty_query_matches(&candidates, Some(9), 3);

    assert_eq!(ids(&matches), vec![0, 1, 9],);
}

#[test]
fn test_cap_empty_query_matches_without_a_kept_id_just_truncates() {
    let candidates = candidates(10);
    let matches = cap_empty_query_matches(&candidates, None, 3);

    assert_eq!(ids(&matches), vec![0, 1, 2],);
}

#[test]
fn test_cap_empty_query_matches_drops_only_the_boundary_entry() {
    let candidates = candidates(300);
    let matches = cap_empty_query_matches(&candidates, Some(250), 200);

    let mut expected: Vec<usize> = (0..199).collect();
    expected.push(250);
    assert_eq!(ids(&matches), expected,);
}

#[test]
fn capping_keeps_what_is_already_displayed_and_ignores_unknown_ids() {
    let candidates = candidates(10);
    assert_eq!(ids(&cap_empty_query_matches(&candidates, Some(2), 3)), vec![0, 1, 2]);
    assert_eq!(ids(&cap_empty_query_matches(&candidates, Some(77), 3)), vec![0, 1, 2]);
    assert_eq!(ids(&cap_empty_query_matches(&candidates, Some(3), 3)), vec![0, 1, 3]);
    assert_eq!(ids(&cap_empty_query_matches(&candidates, Some(9), 1)), vec![9]);
    assert_eq!(ids(&cap_empty_query_matches(&candidates, None, 0)), Vec::<usize>::new());
    assert_eq!(ids(&cap_empty_query_matches(&candidates, Some(9), 0)), vec![9]);
}

#[test]
fn a_fresh_filter_state_is_empty() {
    let core = BreadcrumbPickerCore::default();
    assert!(core.candidates.is_empty());
    assert!(core.matches.is_empty());
    assert!(core.query.is_empty());
    assert_eq!(core.selected_index, 0);
}

#[test]
fn only_the_active_segment_opens_through_the_shared_handle() {
    assert_eq!(segment_popover_handle(true, Some("shared"), "fresh"), "shared");
    assert_eq!(segment_popover_handle(true, None, "fresh"), "fresh");
    assert_eq!(segment_popover_handle(false, Some("shared"), "fresh"), "fresh");
}
