use soulless::organizer::{
    suggest, suggest_in, MoveSuggestion, OrganizerAction, OrganizerMessage, OrganizerState, UserDirs,
};

fn dirs() -> UserDirs {
    UserDirs {
        home: "/home/u".to_string(),
        downloads: Some("/home/u/Downloads".to_string()),
        pictures: None,
        videos: Some("/media/videos".to_string()),
        music: None,
        documents: None,
    }
}

#[test]
fn classifies_by_extension_then_name() {
    let d = dirs();
    let s = suggest_in("/home/u/Downloads/Photo.JPG", &d).unwrap();
    assert_eq!(s.from, "/home/u/Downloads/Photo.JPG");
    assert_eq!(s.to, "/home/u/Pictures/Photo.JPG");
    assert_eq!(s.reason, "Photo.JPG looks like it belongs in /home/u/Pictures");
    assert_eq!(suggest_in("/home/u/Downloads/clip.mkv", &d).unwrap().to, "/media/videos/clip.mkv");
    assert_eq!(suggest_in("/home/u/Downloads/a.csv", &d).unwrap().to, "/home/u/Documents/a.csv");
    assert_eq!(suggest_in("/home/u/Downloads/tool.AppImage", &d).unwrap().to, "/home/u/Applications/tool.AppImage");
    assert_eq!(suggest_in("/home/u/Downloads/my_resume.odp", &d).unwrap().to, "/home/u/Documents/my_resume.odp");
    assert_eq!(suggest_in("/home/u/Downloads/My_CV.docz", &d).unwrap().to, "/home/u/Documents/Career/My_CV.docz");
    assert_eq!(suggest_in("/home/u/Downloads/Tax-2024.xyz", &d).unwrap().to, "/home/u/Documents/Finance/Tax-2024.xyz");
    assert_eq!(
        suggest_in("/home/u/Downloads/screen1.bin", &d).unwrap().to,
        "/home/u/Pictures/Screenshots/screen1.bin"
    );
}

#[test]
fn leaves_some_files_alone() {
    let d = dirs();
    assert!(suggest_in("/home/u/Downloads/stuff.zip", &d).is_none());
    assert!(suggest_in("/home/u/Downloads/resume.zip", &d).is_none());
    assert!(suggest_in("/home/u/Downloads/noext", &d).is_none());
    assert!(suggest_in("/home/u/Desktop/photo.png", &d).is_none());
    assert!(suggest_in("/home/u/Downloads/notes.xyz", &d).is_none());
    assert!(suggest_in("/home/u/Downloadsx/photo.png", &d).is_none());
}

fn sugg(n: &str) -> MoveSuggestion {
    MoveSuggestion { from: format!("/d/{}", n), to: format!("/t/{}", n), reason: n.to_string() }
}

#[test]
fn pending_queue_approve_and_dismiss() {
    let mut s = OrganizerState::new();
    s.push(Some(sugg("a")));
    s.push(None);
    s.push(Some(sugg("b")));
    s.push(Some(sugg("c")));
    assert_eq!(s.pending.len(), 3);
    s.dismiss(7);
    assert_eq!(s.pending.len(), 3);
    match s.update(OrganizerMessage::ApproveSuggestion(1), None) {
        OrganizerAction::Move(m) => assert_eq!(m.from, "/d/b"),
        OrganizerAction::Nothing => panic!("expected a move"),
    }
    assert!(matches!(s.update(OrganizerMessage::ApproveSuggestion(5), None), OrganizerAction::Nothing));
    assert!(matches!(s.update(OrganizerMessage::DismissSuggestion(0), None), OrganizerAction::Nothing));
    assert_eq!(s.pending.len(), 1);
    assert_eq!(s.pending[0].suggestion.reason, "c");
    assert!(s.approve(0).is_some());
    assert!(s.approve(0).is_none());
}

#[test]
fn detected_files_queue_their_suggestion() {
    let d = dirs();
    let mut s = OrganizerState::new();
    s.update(OrganizerMessage::FileDetected("/home/u/Downloads/clip.mkv".to_string()), Some(&d));
    assert_eq!(s.pending.len(), 1);
    assert_eq!(s.pending[0].suggestion.from, "/home/u/Downloads/clip.mkv");
    assert_eq!(s.pending[0].suggestion.to, "/media/videos/clip.mkv");
    // No rule, or no home folder: nothing is queued.
    s.update(OrganizerMessage::FileDetected("/home/u/Downloads/a.zip".to_string()), Some(&d));
    s.update(OrganizerMessage::FileDetected("/home/u/Downloads/clip.mkv".to_string()), None);
    assert_eq!(s.pending.len(), 1);
    assert!(suggest("/home/u/Downloads/clip.mkv", None).is_none());
    assert_eq!(suggest("/home/u/Downloads/clip.mkv", Some(&d)).unwrap().to, "/media/videos/clip.mkv");
}

#[test]
fn placing_a_file_from_its_path_answers() {
    let d = dirs();
    let s = soulless::organizer::place_file("/home/u/Downloads/Photo.JPG", "Photo.JPG", "photo.jpg", "jpg", true, &d).unwrap();
    assert_eq!(s.to, "/home/u/Pictures/Photo.JPG");
    assert_eq!(s.reason, "Photo.JPG looks like it belongs in /home/u/Pictures");
    assert!(soulless::organizer::place_file("/x/Photo.JPG", "Photo.JPG", "photo.jpg", "jpg", false, &d).is_none());
    assert!(soulless::organizer::place_file("/home/u/Downloads/a.zip", "a.zip", "a.zip", "zip", true, &d).is_none());
    let t = soulless::organizer::place_file("/home/u/Downloads/tax.xyz", "tax.xyz", "tax.xyz", "xyz", true, &d).unwrap();
    assert_eq!(t.to, "/home/u/Documents/Finance/tax.xyz");
}
