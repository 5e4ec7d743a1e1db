//! The answers of the built-in notification server
//! (`org.freedesktop.Notifications`) to the methods it is called with.
use vstd::prelude::*;

use crate::text::{chars_of, extend_all, seq_eq, string_of};

verus! {

/// What the server does for a method call.
pub enum NotifyCall {
    /// Store the notification and answer with its id.
    Notify,
    /// Close the notification, answer nothing, and signal that it closed
    /// for this reason.
    CloseNotification { reason: u32 },
    /// Answer with the capabilities.
    Capabilities(Vec<String>),
    /// Answer with the server's name, vendor and specification version.
    ServerInformation { name: String, vendor: String, spec_version: String },
    /// Answer with this D-Bus error name and message.
    Unknown { error: String, message: String },
}

/// The views of a list of strings.
pub open spec fn text_views(v: Seq<String>) -> Seq<Seq<char>> {
    Seq::new(v.len(), |i: int| v[i]@)
}

/// Whether `s` is `word`.
fn is(s: &Vec<char>, word: &str) -> (r: bool)
    ensures
        r == (s@ == word@),
{
    seq_eq(s, &chars_of(word))
}

/// The server's answer to a call of `method`.
pub fn notify_call(method: &str) -> (r: NotifyCall)
    ensures
        method@ == "Notify"@ ==> r is Notify,
        method@ == "CloseNotification"@ ==> (r matches NotifyCall::CloseNotification { reason }
            && reason == 3),
        method@ == "GetCapabilities"@ ==> (r matches NotifyCall::Capabilities(caps) && text_views(
            caps@,
        ) == seq!["body"@, "persistence"@, "icon-static"@]),
        method@ == "GetServerInformation"@ ==> (r matches NotifyCall::ServerInformation {
            name,
            vendor,
            spec_version,
        } && name@ == "zeshicast"@ && vendor@ == "zeshi"@ && spec_version@ == "1.2"@),
        method@ != "Notify"@ && method@ != "CloseNotification"@ && method@ != "GetCapabilities"@
            && method@ != "GetServerInformation"@ ==> (r matches NotifyCall::Unknown {
            error,
            message,
        } && error@ == "org.freedesktop.DBus.Error.UnknownMethod"@ && message@ == "Unknown method "@
            + method@),
{
    proof {
        reveal_strlit("Notify");
        reveal_strlit("CloseNotification");
        reveal_strlit("GetCapabilities");
        reveal_strlit("GetServerInformation");
        assert("Notify"@.len() == 6);
        assert("CloseNotification"@.len() == 17);
        assert("GetCapabilities"@.len() == 15);
        assert("GetServerInformation"@.len() == 20);
    }
    let m = chars_of(method);
    if is(&m, "Notify") {
        NotifyCall::Notify
    } else if is(&m, "CloseNotification") {
        NotifyCall::CloseNotification { reason: 3 }
    } else if is(&m, "GetCapabilities") {
        let caps = vec!["body".to_owned(), "persistence".to_owned(), "icon-static".to_owned()];
        assert(text_views(caps@) =~= seq!["body"@, "persistence"@, "icon-static"@]);
        NotifyCall::Capabilities(caps)
    } else if is(&m, "GetServerInformation") {
        NotifyCall::ServerInformation {
            name: "zeshicast".to_owned(),
            vendor: "zeshi".to_owned(),
            spec_version: "1.2".to_owned(),
        }
    } else {
        let mut message = chars_of("Unknown method ");
        extend_all(&mut message, &m);
        NotifyCall::Unknown {
            error: "org.freedesktop.DBus.Error.UnknownMethod".to_owned(),
            message: string_of(&message),
        }
    }
}

} // verus!
