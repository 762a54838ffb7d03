use lightkeeper::enums::{CoreTransportPreference, Criticality, EditMode, HostStatus};

#[test]
fn criticality_levels_round_trip() {
    for level in 0u8..=7 {
        let c = Criticality::try_from(level).unwrap();
        assert_eq!(c.level(), level);
    }
    assert!(Criticality::try_from(8).is_err());
    assert_eq!(Criticality::try_from(5).unwrap(), Criticality::Warning);
    assert_eq!(Criticality::Critical.to_text(), "Critical");
    assert_eq!(Criticality::default_value(), Criticality::NoData);
}

#[test]
fn criticality_severity() {
    assert!(Criticality::Error.is_more_severe_than(&Criticality::Warning));
    assert!(!Criticality::Normal.is_more_severe_than(&Criticality::Normal));
    assert!(Criticality::NoData.is_more_severe_than(&Criticality::Info));
}

#[test]
fn edit_mode_parsing() {
    assert_eq!(EditMode::from_str("Vim"), Ok(EditMode::Vim));
    assert_eq!(EditMode::from_str("EMACS"), Ok(EditMode::Emacs));
    assert_eq!(EditMode::from_lowercase("regular"), Ok(EditMode::Regular));
    assert!(EditMode::from_str("nano").is_err());
    assert_eq!(EditMode::Vim.to_text(), "vim");
    assert_eq!(EditMode::default_value(), EditMode::Regular);
}

#[test]
fn host_status_parsing() {
    assert_eq!(HostStatus::from_str("UP"), HostStatus::Up);
    assert_eq!(HostStatus::try_parse("Down"), Some(HostStatus::Down));
    assert_eq!(HostStatus::try_parse("sideways"), None);
    assert_eq!(HostStatus::from_lowercase("Pending"), None);
    assert_eq!(HostStatus::Pending.to_text(), "pending");
    assert_eq!(HostStatus::default_value(), HostStatus::Pending);
}

#[test]
fn transport_preference() {
    assert_eq!(CoreTransportPreference::from_str("OpenSSH_Stream_Local"), Ok(CoreTransportPreference::OpensshStreamLocal));
    assert!(CoreTransportPreference::from_str("tcp").is_err());
    assert_eq!(CoreTransportPreference::default_value().to_text(), "openssh_stream_local");
}
