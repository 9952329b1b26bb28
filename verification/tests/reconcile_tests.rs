use danmaku::reconcile::{find_stale_track, stale_track_removal_id, SubtitleTrack};

fn track(kind: &str, lang: Option<&str>, title: Option<&str>, id: Option<&str>) -> SubtitleTrack {
    SubtitleTrack {
        kind: Some(kind.to_string()),
        lang: lang.map(|s| s.to_string()),
        title: title.map(|s| s.to_string()),
        id: id.map(|s| s.to_string()),
    }
}

fn stale(id: &str) -> SubtitleTrack {
    track("sub", Some("danmaku"), Some("xml"), Some(id))
}

#[test]
fn single_match_is_found() {
    let tracks = vec![
        track("video", None, None, Some("1")),
        track("audio", Some("jpn"), None, Some("1")),
        stale("2"),
        track("sub", Some("eng"), Some("full"), Some("3")),
    ];
    assert_eq!(find_stale_track(&tracks), Some(2));
    assert_eq!(stale_track_removal_id(&tracks), Some(2));
}

#[test]
fn no_match_yields_none() {
    let tracks = vec![
        track("video", None, None, Some("1")),
        track("sub", Some("danmaku"), Some("srt"), Some("2")),
        track("sub", Some("eng"), Some("xml"), Some("3")),
        track("audio", Some("danmaku"), Some("xml"), Some("4")),
    ];
    assert_eq!(find_stale_track(&tracks), None);
    assert_eq!(stale_track_removal_id(&tracks), None);
}

#[test]
fn empty_list_yields_none() {
    let tracks: Vec<SubtitleTrack> = Vec::new();
    assert_eq!(find_stale_track(&tracks), None);
    assert_eq!(stale_track_removal_id(&tracks), None);
}

#[test]
fn first_of_several_matches_wins() {
    let tracks = vec![track("video", None, None, None), stale("7"), stale("9")];
    assert_eq!(find_stale_track(&tracks), Some(1));
    assert_eq!(stale_track_removal_id(&tracks), Some(7));
}

#[test]
fn missing_fields_do_not_match() {
    let tracks = vec![SubtitleTrack { kind: None, lang: None, title: None, id: None }];
    assert_eq!(find_stale_track(&tracks), None);
}

#[test]
fn unparseable_id_yields_no_removal() {
    let tracks = vec![stale("x7"), stale("8")];
    // the first stale track wins even when its identifier cannot be parsed
    assert_eq!(find_stale_track(&tracks), Some(0));
    assert_eq!(stale_track_removal_id(&tracks), None);
    let tracks = vec![track("sub", Some("danmaku"), Some("xml"), None)];
    assert_eq!(stale_track_removal_id(&tracks), None);
}
