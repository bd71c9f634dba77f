use pockethle::dispatch::{CallArgs, DispatchOutcome, Handler, WinCeDispatcher};
use pockethle::ws2::{
    accept, answer, bind, connect, gethostname, htons, listen, recv, send, socket, wsa_get_last_error,
    wsa_startup, Ws2Fn, INVALID_SOCKET, SOCKET_ERROR, WSAENETDOWN,
};

fn args(r0: u32, r1: u32) -> CallArgs {
    CallArgs { r0, r1, r2: 0, r3: 0 }
}

#[test]
fn htons_swaps_bytes() {
    assert_eq!(htons(&args(0x1234, 0)).outcome, DispatchOutcome::ReturnedR0(0x3412));
    assert_eq!(htons(&args(0x0050, 0)).outcome, DispatchOutcome::ReturnedR0(0x5000));
    // Only the low half-word is a `u_short`.
    assert_eq!(htons(&args(0xABCD_0050, 0)).outcome, DispatchOutcome::ReturnedR0(0x5000));
}

#[test]
fn socket_reports_invalid_socket_with_wsaenetdown() {
    let a = args(2, 1);
    assert_eq!(socket(&a).outcome, DispatchOutcome::ReturnedR0(INVALID_SOCKET));
    assert_eq!(wsa_get_last_error(&a).outcome, DispatchOutcome::ReturnedR0(WSAENETDOWN));
}

#[test]
fn connect_and_friends_fail_rather_than_looking_like_success() {
    let a = args(0, 0);
    assert_eq!(connect(&a).outcome, DispatchOutcome::ReturnedR0(SOCKET_ERROR));
    assert_eq!(bind(&a).outcome, DispatchOutcome::ReturnedR0(SOCKET_ERROR));
    assert_eq!(listen(&a).outcome, DispatchOutcome::ReturnedR0(SOCKET_ERROR));
    assert_eq!(send(&a).outcome, DispatchOutcome::ReturnedR0(SOCKET_ERROR));
    assert_eq!(recv(&a).outcome, DispatchOutcome::ReturnedR0(SOCKET_ERROR));
    assert_eq!(accept(&a).outcome, DispatchOutcome::ReturnedR0(INVALID_SOCKET));
}

#[test]
fn wsa_startup_writes_version_and_succeeds() {
    let r = wsa_startup(&args(0x0202, 0x5000_0000));
    assert_eq!(r.outcome, DispatchOutcome::ReturnedR0(0));
    let w = r.write.expect("writes wVersion/wHighVersion");
    assert_eq!(w.addr, 0x5000_0000);
    assert_eq!(w.bytes, vec![0x02, 0x02, 0x02, 0x02]);
}

#[test]
fn wsa_startup_tolerates_a_null_out_param() {
    let r = wsa_startup(&args(0x0202, 0));
    assert_eq!(r.outcome, DispatchOutcome::ReturnedR0(0));
    assert!(r.write.is_none());
}

#[test]
fn gethostname_succeeds_when_the_buffer_has_room() {
    let r = gethostname(&args(0x5000_0000, 32));
    assert_eq!(r.outcome, DispatchOutcome::ReturnedR0(0));
    let w = r.write.unwrap();
    assert_eq!(w.addr, 0x5000_0000);
    assert_eq!(&w.bytes, b"WM6DEVICE\0");
}

#[test]
fn gethostname_fails_cleanly_when_the_buffer_is_too_small() {
    let r = gethostname(&args(0x5000_0000, 2));
    assert_eq!(r.outcome, DispatchOutcome::ReturnedR0(SOCKET_ERROR));
    assert!(r.write.is_none());
    assert!(gethostname(&args(0, 64)).write.is_none());
    assert_eq!(gethostname(&args(0x5000_0000, 10)).outcome, DispatchOutcome::ReturnedR0(0));
}

#[test]
fn every_ws2_import_asphalt4_needs_reaches_a_handler() {
    let d = WinCeDispatcher::new();
    let registered: std::collections::HashSet<(String, String)> =
        d.registered().into_iter().collect();
    for name in [
        "send",
        "WSALookupServiceEnd",
        "gethostname",
        "select",
        "WSAGetLastError",
        "WSALookupServiceNextW",
        "getsockname",
        "WSACleanup",
        "bind",
        "WSALookupServiceBeginW",
        "WSASetServiceW",
        "__WSAFDIsSet",
        "closesocket",
        "listen",
        "accept",
        "connect",
        "WSAStartup",
        "htons",
        "recv",
        "socket",
        "gethostbyname",
    ] {
        assert!(
            registered.contains(&("ws2.dll".to_string(), name.to_string())),
            "ws2.dll!{name} has no registered handler"
        );
    }
}

#[test]
fn lookup_routes_an_import_to_its_handler_and_later_registrations_win() {
    let mut d = WinCeDispatcher::new();
    assert_eq!(d.lookup("ws2.dll", "socket"), Some(Handler::Ws2(Ws2Fn::Socket)));
    assert_eq!(d.lookup("ws2.dll", "nosuch"), None);
    assert_eq!(d.lookup("coredll.dll", "socket"), None);
    d.register_handler("ws2.dll", "socket", Handler::Ws2(Ws2Fn::Htons));
    assert_eq!(d.lookup("ws2.dll", "socket"), Some(Handler::Ws2(Ws2Fn::Htons)));
    let all = d.registered();
    assert_eq!(
        all.iter().filter(|(dll, name)| dll == "ws2.dll" && name == "socket").count() >= 1,
        true
    );
}

#[test]
fn answer_dispatches_each_export_to_its_routine() {
    assert_eq!(answer(Ws2Fn::Socket, &args(0, 0)).outcome, DispatchOutcome::ReturnedR0(INVALID_SOCKET));
    assert_eq!(answer(Ws2Fn::Select, &args(0, 0)).outcome, DispatchOutcome::ReturnedR0(0));
    assert_eq!(answer(Ws2Fn::Htons, &args(0x1234, 0)).outcome, DispatchOutcome::ReturnedR0(0x3412));
    assert!(answer(Ws2Fn::WsaStartup, &args(0, 8)).write.is_some());
}
