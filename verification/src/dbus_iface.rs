//! The notification service on the session bus: which calls it answers, and how.

use vstd::prelude::*;

use crate::text::concat2;
use crate::text::concat3;
use crate::text::decimal_string;
use crate::text::str_eq;

verus! {

/// The name of the service on the bus.
pub const BUS_NAME: &'static str = "org.freedesktop.Notifications";

/// The path of its object.
pub const OBJECT_PATH: &'static str = "/org/freedesktop/Notifications";

/// The name of its interface.
pub const INTERFACE: &'static str = "org.freedesktop.Notifications";

/// What a message on the bus says of itself.
#[derive(Debug)]
pub struct CallHeader {
    /// Whether it is a method call.
    pub is_call: bool,
    pub object: Option<String>,
    pub interface: Option<String>,
    pub member: Option<String>,
}

/// What a message asks for.
#[derive(Clone, Copy, Debug, PartialEq, Eq, Structural)]
pub enum Route {
    /// It gets no answer.
    Ignore,
    GetCapabilities,
    GetServerInformation,
    Notify,
    CloseNotification,
    Introspect,
    UnknownMethod,
    /// The object does not exist; the answer is [`unknown_object`].
    UnknownObject,
}

/// Whether a call may be for an interface: it names it, or none.
pub open spec fn for_interface(h: CallHeader, name: Seq<char>) -> bool {
    match h.interface {
        Some(i) => i@ == name,
        None => true,
    }
}

/// What a message asks for.
pub open spec fn routed(h: CallHeader) -> Route {
    if !h.is_call || h.object is None {
        Route::Ignore
    } else if (h.object->0)@ != OBJECT_PATH@ {
        Route::UnknownObject
    } else if h.member is None {
        Route::Ignore
    } else {
        let m = (h.member->0)@;
        let ours = for_interface(h, INTERFACE@);
        if ours && m == "GetCapabilities"@ {
            Route::GetCapabilities
        } else if ours && m == "GetServerInformation"@ {
            Route::GetServerInformation
        } else if ours && m == "Notify"@ {
            Route::Notify
        } else if ours && m == "CloseNotification"@ {
            Route::CloseNotification
        } else if for_interface(h, "org.freedesktop.DBus.Introspectable"@) && m == "Introspect"@ {
            Route::Introspect
        } else {
            Route::UnknownMethod
        }
    }
}

fn names_or_none(i: &Option<String>, name: &str) -> (r: bool)
    ensures
        r == (match *i {
            Some(s) => s@ == name@,
            None => true,
        }),
{
    match i {
        Some(s) => str_eq(s.as_str(), name),
        None => true,
    }
}

/// What a message asks for.
pub fn dispatch(h: &CallHeader) -> (r: Route)
    ensures
        r == routed(*h),
{
    if !h.is_call {
        return Route::Ignore;
    }
    let object = match &h.object {
        Some(o) => o,
        None => return Route::Ignore,
    };
    if !str_eq(object.as_str(), OBJECT_PATH) {
        return Route::UnknownObject;
    }
    let member = match &h.member {
        Some(m) => m.as_str(),
        None => return Route::Ignore,
    };
    let ours = names_or_none(&h.interface, INTERFACE);
    if ours && str_eq(member, "GetCapabilities") {
        Route::GetCapabilities
    } else if ours && str_eq(member, "GetServerInformation") {
        Route::GetServerInformation
    } else if ours && str_eq(member, "Notify") {
        Route::Notify
    } else if ours && str_eq(member, "CloseNotification") {
        Route::CloseNotification
    } else if names_or_none(&h.interface, "org.freedesktop.DBus.Introspectable") && str_eq(
        member,
        "Introspect",
    ) {
        Route::Introspect
    } else {
        Route::UnknownMethod
    }
}

/// An answer to a call.
#[derive(Debug)]
#[allow(inconsistent_fields)]
pub enum Reply {
    Empty,
    Capabilities(Vec<String>),
    ServerInformation { name: String, vendor: String, version: String, spec_version: String },
    /// The number of a notification.
    Id(u32),
    Error { name: String, message: String },
}

/// The signal that a notification is closed.
#[derive(Clone, Copy, Debug, PartialEq, Eq, Structural)]
pub struct ClosedSignal {
    pub id: u32,
    pub reason: CloseReason,
}

/// Why a notification is closed.
#[derive(Clone, Copy, Debug, PartialEq, Eq, Structural)]
pub enum CloseReason {
    ClosedByCall,
    Other,
}

/// What comes of a call: the answer, and the signals that everybody gets.
#[derive(Debug)]
pub struct DispatchOutcome {
    pub reply: Option<Reply>,
    pub signals: Vec<ClosedSignal>,
}

impl DispatchOutcome {
    fn reply_only(reply: Reply) -> (r: Self)
        ensures
            r.reply == Some(reply),
            r.signals@.len() == 0,
    {
        DispatchOutcome { reply: Some(reply), signals: Vec::new() }
    }
}

/// Whether an outcome is an error and nothing else.
pub open spec fn only_error(o: DispatchOutcome, name: Seq<char>, message: Seq<char>) -> bool {
    &&& o.signals@.len() == 0
    &&& match o.reply {
        Some(Reply::Error { name: n, message: m }) => n@ == name && m@ == message,
        _ => false,
    }
}

/// The answer to a call whose arguments could not be read.
pub fn invalid_args(message: &str) -> (r: DispatchOutcome)
    ensures
        only_error(r, "org.freedesktop.DBus.Error.InvalidArgs"@, message@),
{
    DispatchOutcome::reply_only(
        Reply::Error {
            name: "org.freedesktop.DBus.Error.InvalidArgs".to_string(),
            message: message.to_string(),
        },
    )
}

/// The answer to a call for an object that does not exist.
pub fn unknown_object(path: &str) -> (r: DispatchOutcome)
    ensures
        only_error(r, "org.freedesktop.DBus.Error.UnknownObject"@, "no object at "@ + path@),
{
    DispatchOutcome::reply_only(
        Reply::Error {
            name: "org.freedesktop.DBus.Error.UnknownObject".to_string(),
            message: concat2("no object at ", path),
        },
    )
}

/// What the service can do.
pub fn get_capabilities() -> (r: DispatchOutcome)
    ensures
        r.signals@.len() == 0,
        match r.reply {
            Some(Reply::Capabilities(v)) => crate::text::views(v@) == seq![
                "body"@,
                "persistence"@,
            ],
            _ => false,
        },
{
    let mut v: Vec<String> = Vec::new();
    v.push("body".to_string());
    v.push("persistence".to_string());
    assert(crate::text::views(v@) =~= seq!["body"@, "persistence"@]);
    DispatchOutcome::reply_only(Reply::Capabilities(v))
}

/// What the service is called.
pub fn get_server_information(name: &str, version: &str) -> (r: DispatchOutcome)
    ensures
        r.signals@.len() == 0,
        match r.reply {
            Some(Reply::ServerInformation { name: n, vendor, version: v, spec_version }) => n@
                == name@ && vendor@ == "shoestring"@ && v@ == version@ && spec_version@ == "1.2"@,
            _ => false,
        },
{
    DispatchOutcome::reply_only(
        Reply::ServerInformation {
            name: name.to_string(),
            vendor: "shoestring".to_string(),
            version: version.to_string(),
            spec_version: "1.2".to_string(),
        },
    )
}

/// The answer to a notification: its number, or why it was refused.
pub fn notify(id: Result<u32, String>) -> (r: DispatchOutcome)
    ensures
        match id {
            Ok(n) => r.reply == Some(Reply::Id(n)) && r.signals@.len() == 0,
            Err(e) => only_error(r, "org.freedesktop.DBus.Error.InvalidArgs"@, e@),
        },
{
    match id {
        Ok(n) => DispatchOutcome::reply_only(Reply::Id(n)),
        Err(e) => invalid_args(e.as_str()),
    }
}

/// The signal that a notification is closed.
pub fn notification_closed_signal(id: u32, reason: CloseReason) -> (r: ClosedSignal)
    ensures
        r == (ClosedSignal { id, reason }),
{
    ClosedSignal { id, reason }
}

/// Whether the bus has given the service its name, by the bus's answer.
pub fn acquired(code: u32) -> (r: Result<(), String>)
    ensures
        match r {
            Ok(_) => code == 1 || code == 4,
            Err(e) => code != 1 && code != 4 && e@
                == "could not acquire org.freedesktop.Notifications: RequestName returned "@
                + crate::text::decimal(code as nat)
                + " (1=primary, 2=in-queue, 3=exists, 4=already-owner)"@,
        },
{
    if code == 1 || code == 4 {
        return Ok(());
    }
    let n = decimal_string(code as u64);
    Err(
        concat3(
            "could not acquire org.freedesktop.Notifications: RequestName returned ",
            n.as_str(),
            " (1=primary, 2=in-queue, 3=exists, 4=already-owner)",
        ),
    )
}

/// The first arguments of a notification.
#[derive(Debug)]
pub struct NotifyHead {
    pub app_name: String,
    pub replaces_id: u32,
    pub app_icon: String,
    pub summary: String,
    pub body: String,
}

/// The hints of a notification that are read; absent where they are missing or of
/// another type.
#[derive(Debug)]
pub struct NotifyHints {
    pub urgency: Option<u8>,
    pub image_path: Option<String>,
}

/// How urgent a notification is.
#[derive(Clone, Copy, Debug, PartialEq, Eq, Structural)]
pub enum Urgency {
    Normal,
    /// By the sender's own number.
    Level(u8),
}

/// A notification.
#[derive(Debug)]
pub struct NotifyArgs {
    pub app_name: String,
    pub replaces_id: u32,
    pub app_icon: String,
    pub summary: String,
    pub body: String,
    pub urgency: Urgency,
    pub image_path: Option<String>,
    pub expire_timeout: i32,
}

/// What was read of a call, in the order of its arguments.
#[derive(Debug)]
pub struct NotifyParts {
    pub head: Result<NotifyHead, String>,
    pub actions: Result<(), String>,
    pub hints: Result<NotifyHints, String>,
    pub expire_timeout: Result<i32, String>,
}

/// Why a call is refused: the first argument that could not be read.
pub open spec fn parts_fault(p: NotifyParts) -> Option<Seq<char>> {
    match (p.head, p.actions, p.hints, p.expire_timeout) {
        (Err(e), _, _, _) => Some("first 5 args: "@ + e@),
        (Ok(_), Err(e), _, _) => Some("actions: "@ + e@),
        (Ok(_), Ok(_), Err(e), _) => Some("hints: "@ + e@),
        (Ok(_), Ok(_), Ok(_), Err(e)) => Some("expire_timeout: "@ + e@),
        _ => None,
    }
}

/// A notification, from what was read of the call. Without a hint the urgency is
/// the normal one.
pub fn parse_notify(p: NotifyParts) -> (r: Result<NotifyArgs, String>)
    ensures
        match r {
            Ok(a) => {
                &&& parts_fault(p) is None
                &&& a.app_name == (p.head->Ok_0).app_name
                &&& a.replaces_id == (p.head->Ok_0).replaces_id
                &&& a.app_icon == (p.head->Ok_0).app_icon
                &&& a.summary == (p.head->Ok_0).summary
                &&& a.body == (p.head->Ok_0).body
                &&& a.urgency == (match (p.hints->Ok_0).urgency {
                    Some(u) => Urgency::Level(u),
                    None => Urgency::Normal,
                })
                &&& a.image_path == (p.hints->Ok_0).image_path
                &&& a.expire_timeout == p.expire_timeout->Ok_0
            },
            Err(e) => parts_fault(p) == Some(e@),
        },
{
    let head = match p.head {
        Ok(h) => h,
        Err(e) => return Err(concat2("first 5 args: ", e.as_str())),
    };
    if let Err(e) = p.actions {
        return Err(concat2("actions: ", e.as_str()));
    }
    let hints = match p.hints {
        Ok(h) => h,
        Err(e) => return Err(concat2("hints: ", e.as_str())),
    };
    let expire_timeout = match p.expire_timeout {
        Ok(t) => t,
        Err(e) => return Err(concat2("expire_timeout: ", e.as_str())),
    };
    let urgency = match hints.urgency {
        Some(u) => Urgency::Level(u),
        None => Urgency::Normal,
    };
    Ok(
        NotifyArgs {
            app_name: head.app_name,
            replaces_id: head.replaces_id,
            app_icon: head.app_icon,
            summary: head.summary,
            body: head.body,
            urgency,
            image_path: hints.image_path,
            expire_timeout,
        },
    )
}

/// The answer to a call that closes a notification; `removed` tells whether it
/// was there. Where it was, everybody is told. An unknown number is no error.
pub fn close_notification(id: Result<u32, String>, removed: bool) -> (r: DispatchOutcome)
    ensures
        match id {
            Ok(n) => {
                &&& r.reply == Some(Reply::Empty)
                &&& r.signals@ == (if removed {
                    seq![ClosedSignal { id: n, reason: CloseReason::ClosedByCall }]
                } else {
                    Seq::empty()
                })
            },
            Err(e) => only_error(r, "org.freedesktop.DBus.Error.InvalidArgs"@, e@),
        },
{
    match id {
        Ok(n) => {
            let mut signals: Vec<ClosedSignal> = Vec::new();
            if removed {
                signals.push(notification_closed_signal(n, CloseReason::ClosedByCall));
            }
            DispatchOutcome { reply: Some(Reply::Empty), signals }
        },
        Err(e) => invalid_args(e.as_str()),
    }
}

/// Calls for the notification object are answered by their names, where they are meant
/// for its interface or for none in particular; a call for another object is told so, a
/// call that there is none of likewise, and anything that is not a call is let go.
pub proof fn law_calls_are_routed(h: CallHeader)
    ensures
        ({
            let r = routed(h);
            let here = h.object is Some && h.object->0@ == "/org/freedesktop/Notifications"@;
            let to = |m: Seq<char>| h.is_call && here && h.member is Some && h.member->0@ == m;
            let ours = h.interface is None || h.interface->0@ == "org.freedesktop.Notifications"@;
            let seen = h.interface is None || h.interface->0@
                == "org.freedesktop.DBus.Introspectable"@;
            &&& r is GetCapabilities <==> to("GetCapabilities"@) && ours
            &&& r is GetServerInformation <==> to("GetServerInformation"@) && ours
            &&& r is Notify <==> to("Notify"@) && ours
            &&& r is CloseNotification <==> to("CloseNotification"@) && ours
            &&& r is Introspect <==> to("Introspect"@) && seen
            &&& r is UnknownObject <==> h.is_call && h.object is Some && !here
            &&& r is Ignore <==> !h.is_call || h.object is None || here && h.member is None
        }),
{
    reveal_strlit("GetCapabilities");
    reveal_strlit("GetServerInformation");
    reveal_strlit("Notify");
    reveal_strlit("CloseNotification");
    reveal_strlit("Introspect");
    assert("GetCapabilities"@.len() == 15 && "GetServerInformation"@.len() == 20 && "Notify"@.len()
        == 6 && "CloseNotification"@.len() == 17 && "Introspect"@.len() == 10);
}

/// A notification is taken exactly where all its arguments could be read; else the
/// first that could not is told, with why.
pub proof fn law_first_bad_argument(p: NotifyParts)
    ensures
        parts_fault(p) is None <==> p.head is Ok && p.actions is Ok && p.hints is Ok
            && p.expire_timeout is Ok,
        p.head matches Err(e) ==> parts_fault(p) == Some("first 5 args: "@ + e@),
        p.head is Ok ==> (p.actions matches Err(e) ==> parts_fault(p) == Some("actions: "@ + e@)),
        p.head is Ok && p.actions is Ok ==> (p.hints matches Err(e) ==> parts_fault(p) == Some(
            "hints: "@ + e@,
        )),
        p.head is Ok && p.actions is Ok && p.hints is Ok ==> (p.expire_timeout matches Err(e)
            ==> parts_fault(p) == Some("expire_timeout: "@ + e@)),
{
}

/// An answer that is an error carries its name and its message, and nobody else is told
/// of anything.
pub proof fn law_error_alone(o: DispatchOutcome, name: Seq<char>, message: Seq<char>)
    requires
        only_error(o, name, message),
    ensures
        o.signals@.len() == 0,
        o.reply is Some && o.reply->0 is Error,
        o.reply matches Some(Reply::Error { name: n, message: m }) ==> n@ == name && m@ == message,
{
}

} // verus!
