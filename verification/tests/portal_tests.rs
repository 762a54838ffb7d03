use lightkeeper::portal::{
    desktop_chooser_outcome, file_chooser_outcome, open_file_outcome, portal_request_path, portal_sender_id, PortalOutcome,
};

#[test]
fn sender_id_from_unique_name() {
    assert_eq!(portal_sender_id(":1.42"), "1_42");
    assert_eq!(portal_sender_id("::a.b.c"), "a_b_c");
    assert_eq!(portal_sender_id("x:1.2"), "x:1_2");
    assert_eq!(portal_request_path("1_42", "lk7"), "/org/freedesktop/portal/desktop/request/1_42/lk7");
}

#[test]
fn file_chooser_answers() {
    match file_chooser_outcome(0, "t1", &vec![String::from("file:///home/u/a.txt"), String::from("file:///b")]) {
        PortalOutcome::FileChosen { token, path } => {
            assert_eq!(token, "t1");
            assert_eq!(path, "/home/u/a.txt");
        }
        _ => panic!("expected a chosen file"),
    }
    match file_chooser_outcome(2, "t1", &Vec::new()) {
        PortalOutcome::Failed(message) => assert_eq!(message, "Unknown error occurred while choosing file"),
        _ => panic!("expected an error"),
    }
    assert!(matches!(file_chooser_outcome(1, "t1", &Vec::new()), PortalOutcome::Nothing));
}

#[test]
fn open_file_answers() {
    match open_file_outcome(0, "t2") {
        PortalOutcome::FileOpened { token } => assert_eq!(token, "t2"),
        _ => panic!("expected an opened file"),
    }
    match open_file_outcome(2, "t2") {
        PortalOutcome::Failed(message) => assert_eq!(message, "Unknown error occurred while opening file"),
        _ => panic!("expected an error"),
    }
    assert!(matches!(open_file_outcome(1, "t2"), PortalOutcome::Nothing));
}

#[test]
fn desktop_portal_chooser_ignores_errors() {
    match desktop_chooser_outcome(0, "t2", &vec![String::from("file:///etc/hosts")]) {
        PortalOutcome::FileChosen { token, path } => {
            assert_eq!(token, "t2");
            assert_eq!(path, "/etc/hosts");
        },
        _ => panic!("a chosen file was expected"),
    }
    assert!(matches!(desktop_chooser_outcome(2, "t2", &Vec::new()), PortalOutcome::Nothing));
    assert!(matches!(desktop_chooser_outcome(1, "t2", &Vec::new()), PortalOutcome::Nothing));
}
