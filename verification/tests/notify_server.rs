use zeshicast::notify_server::{notify_call, NotifyCall};

#[test]
fn notification_server_answers_each_method() {
    assert!(matches!(notify_call("Notify"), NotifyCall::Notify));
    assert!(matches!(notify_call("CloseNotification"), NotifyCall::CloseNotification { reason: 3 }));
    match notify_call("GetCapabilities") {
        NotifyCall::Capabilities(caps) => assert_eq!(caps, vec!["body", "persistence", "icon-static"]),
        _ => panic!("capabilities expected"),
    }
    match notify_call("GetServerInformation") {
        NotifyCall::ServerInformation { name, vendor, spec_version } => {
            assert_eq!(name, "zeshicast");
            assert_eq!(vendor, "zeshi");
            assert_eq!(spec_version, "1.2");
        }
        _ => panic!("server information expected"),
    }
    match notify_call("Frobnicate") {
        NotifyCall::Unknown { error, message } => {
            assert_eq!(error, "org.freedesktop.DBus.Error.UnknownMethod");
            assert_eq!(message, "Unknown method Frobnicate");
        }
        _ => panic!("error expected"),
    }
}
