//! Windows Sockets 2 (`ws2.dll`).
//!
//! No real network I/O is proxied out of the guest — there is no host
//! socket behind any of this. What matters is *how* a game finds that
//! out. Answering an unimplemented call with a synthesized `0` looks,
//! from the guest's side, like WinSock came up (`WSAStartup`), handed
//! out a socket (`socket`) and connected (`connect`), right up until
//! `recv` reports the peer closing a connection that was never open —
//! and a game such as Asphalt 4 then reconnects forever.
//!
//! So every call answers honestly: `socket()` returns `INVALID_SOCKET`
//! and `WSAGetLastError()` reports `WSAENETDOWN`, exactly as a device
//! with no active data connection would. `htons` is the one function
//! with no networking behind it at all — a 16-bit byte swap — so it is
//! answered for real.
use vstd::prelude::*;

use crate::dispatch::{
    returned, table_view, with_entries, CallArgs, DispatchOutcome, GuestWrite, Handler, Reply,
    WinCeDispatcher,
};

verus! {

/// `(SOCKET)(~0)`. Also the bit pattern of `SOCKET_ERROR` (`-1`) — the
/// two constants are numerically identical, only the name differs by
/// call site.
pub const INVALID_SOCKET: u32 = 0xffff_ffff;

pub const SOCKET_ERROR: u32 = 0xffff_ffff;

/// "A socket operation encountered a dead network." The one error code
/// every function here agrees on.
pub const WSAENETDOWN: u32 = 10050;

/// The `ws2.dll` exports answered here.
#[derive(Debug, Clone, Copy, PartialEq, Eq, Structural)]
pub enum Ws2Fn {
    WsaStartup,
    WsaCleanup,
    WsaGetLastError,
    Socket,
    Closesocket,
    Connect,
    Bind,
    Listen,
    Accept,
    Send,
    Recv,
    Select,
    WsaFdIsSet,
    Getsockname,
    Gethostname,
    Gethostbyname,
    Htons,
    WsaLookupServiceBeginW,
    WsaLookupServiceNextW,
    WsaLookupServiceEnd,
    WsaSetServiceW,
}

/// Every export and the routine that answers it, in registration order.
pub open spec fn entries() -> Seq<(Seq<char>, Handler)> {
    seq![
        ("WSAStartup"@, Handler::Ws2(Ws2Fn::WsaStartup)),
        ("WSACleanup"@, Handler::Ws2(Ws2Fn::WsaCleanup)),
        ("WSAGetLastError"@, Handler::Ws2(Ws2Fn::WsaGetLastError)),
        ("socket"@, Handler::Ws2(Ws2Fn::Socket)),
        ("closesocket"@, Handler::Ws2(Ws2Fn::Closesocket)),
        ("connect"@, Handler::Ws2(Ws2Fn::Connect)),
        ("bind"@, Handler::Ws2(Ws2Fn::Bind)),
        ("listen"@, Handler::Ws2(Ws2Fn::Listen)),
        ("accept"@, Handler::Ws2(Ws2Fn::Accept)),
        ("send"@, Handler::Ws2(Ws2Fn::Send)),
        ("recv"@, Handler::Ws2(Ws2Fn::Recv)),
        ("select"@, Handler::Ws2(Ws2Fn::Select)),
        ("__WSAFDIsSet"@, Handler::Ws2(Ws2Fn::WsaFdIsSet)),
        ("getsockname"@, Handler::Ws2(Ws2Fn::Getsockname)),
        ("gethostname"@, Handler::Ws2(Ws2Fn::Gethostname)),
        ("gethostbyname"@, Handler::Ws2(Ws2Fn::Gethostbyname)),
        ("htons"@, Handler::Ws2(Ws2Fn::Htons)),
        ("WSALookupServiceBeginW"@, Handler::Ws2(Ws2Fn::WsaLookupServiceBeginW)),
        ("WSALookupServiceNextW"@, Handler::Ws2(Ws2Fn::WsaLookupServiceNextW)),
        ("WSALookupServiceEnd"@, Handler::Ws2(Ws2Fn::WsaLookupServiceEnd)),
        ("WSASetServiceW"@, Handler::Ws2(Ws2Fn::WsaSetServiceW)),
    ]
}

/// Register every `ws2.dll` export with its handler.
pub fn register(d: &mut WinCeDispatcher)
    ensures
        final(d)@ == with_entries(old(d)@, "ws2.dll"@, entries()),
{
    let mut t: Vec<(&str, Handler)> = Vec::new();
    t.push(("WSAStartup", Handler::Ws2(Ws2Fn::WsaStartup)));
    t.push(("WSACleanup", Handler::Ws2(Ws2Fn::WsaCleanup)));
    t.push(("WSAGetLastError", Handler::Ws2(Ws2Fn::WsaGetLastError)));
    t.push(("socket", Handler::Ws2(Ws2Fn::Socket)));
    t.push(("closesocket", Handler::Ws2(Ws2Fn::Closesocket)));
    t.push(("connect", Handler::Ws2(Ws2Fn::Connect)));
    t.push(("bind", Handler::Ws2(Ws2Fn::Bind)));
    t.push(("listen", Handler::Ws2(Ws2Fn::Listen)));
    t.push(("accept", Handler::Ws2(Ws2Fn::Accept)));
    t.push(("send", Handler::Ws2(Ws2Fn::Send)));
    t.push(("recv", Handler::Ws2(Ws2Fn::Recv)));
    t.push(("select", Handler::Ws2(Ws2Fn::Select)));
    t.push(("__WSAFDIsSet", Handler::Ws2(Ws2Fn::WsaFdIsSet)));
    t.push(("getsockname", Handler::Ws2(Ws2Fn::Getsockname)));
    t.push(("gethostname", Handler::Ws2(Ws2Fn::Gethostname)));
    t.push(("gethostbyname", Handler::Ws2(Ws2Fn::Gethostbyname)));
    t.push(("htons", Handler::Ws2(Ws2Fn::Htons)));
    t.push(("WSALookupServiceBeginW", Handler::Ws2(Ws2Fn::WsaLookupServiceBeginW)));
    t.push(("WSALookupServiceNextW", Handler::Ws2(Ws2Fn::WsaLookupServiceNextW)));
    t.push(("WSALookupServiceEnd", Handler::Ws2(Ws2Fn::WsaLookupServiceEnd)));
    t.push(("WSASetServiceW", Handler::Ws2(Ws2Fn::WsaSetServiceW)));
    assert(table_view(t@) =~= entries());
    d.register_all("ws2.dll", &t);
}

/// `int WSAStartup(WORD wVersionRequested, LPWSADATA lpWSAData)`.
///
/// This one call is allowed to succeed — a device brings WinSock up fine
/// with no data connection. Only `wVersion` / `wHighVersion` (the first
/// two `WORD`s, both 2.2) are written; the rest of `WSADATA` varies in
/// size across SDK versions and is left alone. A null `lpWSAData` is
/// skipped rather than faulted on.
pub fn wsa_startup(args: &CallArgs) -> (r: Reply)
    ensures
        r.outcome == DispatchOutcome::ReturnedR0(0),
        args.r1 == 0 ==> r.write is None,
        args.r1 != 0 ==> (r.write matches Some(w) && w.addr == args.r1 && w.bytes@ == seq![2u8, 2u8, 2u8, 2u8]),
{
    let lp_wsa_data = args.r1;
    if lp_wsa_data != 0 {
        let mut bytes: Vec<u8> = Vec::new();
        bytes.push(0x02);
        bytes.push(0x02);
        bytes.push(0x02);
        bytes.push(0x02);
        assert(bytes@ =~= seq![2u8, 2u8, 2u8, 2u8]);
        return Reply { outcome: DispatchOutcome::ReturnedR0(0), write: Some(GuestWrite { addr: lp_wsa_data, bytes }) };
    }
    returned(0)
}

/// `int WSACleanup()`.
pub fn wsa_cleanup(args: &CallArgs) -> (r: Reply)
    ensures
        r.outcome == DispatchOutcome::ReturnedR0(0),
        r.write is None,
{
    returned(0)
}

/// `int WSAGetLastError()`: always `WSAENETDOWN`, so a game sees one
/// consistent story whichever call it asks about.
pub fn wsa_get_last_error(args: &CallArgs) -> (r: Reply)
    ensures
        r.outcome == DispatchOutcome::ReturnedR0(WSAENETDOWN),
        r.write is None,
{
    returned(WSAENETDOWN)
}

/// `SOCKET socket(int af, int type, int protocol)`: no socket.
pub fn socket(args: &CallArgs) -> (r: Reply)
    ensures
        r.outcome == DispatchOutcome::ReturnedR0(INVALID_SOCKET),
        r.write is None,
{
    returned(INVALID_SOCKET)
}

/// `int closesocket(SOCKET)`: closing a handle is always safe to report
/// as done, including one nothing here handed out.
pub fn closesocket(args: &CallArgs) -> (r: Reply)
    ensures
        r.outcome == DispatchOutcome::ReturnedR0(0),
        r.write is None,
{
    returned(0)
}

/// `int connect(..)`: a clean failure, not a success-shaped `0`.
pub fn connect(args: &CallArgs) -> (r: Reply)
    ensures
        r.outcome == DispatchOutcome::ReturnedR0(SOCKET_ERROR),
        r.write is None,
{
    returned(SOCKET_ERROR)
}

/// `int bind(..)`.
pub fn bind(args: &CallArgs) -> (r: Reply)
    ensures
        r.outcome == DispatchOutcome::ReturnedR0(SOCKET_ERROR),
        r.write is None,
{
    returned(SOCKET_ERROR)
}

/// `int listen(..)`.
pub fn listen(args: &CallArgs) -> (r: Reply)
    ensures
        r.outcome == DispatchOutcome::ReturnedR0(SOCKET_ERROR),
        r.write is None,
{
    returned(SOCKET_ERROR)
}

/// `SOCKET accept(..)`.
pub fn accept(args: &CallArgs) -> (r: Reply)
    ensures
        r.outcome == DispatchOutcome::ReturnedR0(INVALID_SOCKET),
        r.write is None,
{
    returned(INVALID_SOCKET)
}

/// `int send(..)`.
pub fn send(args: &CallArgs) -> (r: Reply)
    ensures
        r.outcome == DispatchOutcome::ReturnedR0(SOCKET_ERROR),
        r.write is None,
{
    returned(SOCKET_ERROR)
}

/// `int recv(..)`.
pub fn recv(args: &CallArgs) -> (r: Reply)
    ensures
        r.outcome == DispatchOutcome::ReturnedR0(SOCKET_ERROR),
        r.write is None,
{
    returned(SOCKET_ERROR)
}

/// `int select(..)`: `0` here is WinSock's "the timeout elapsed and no
/// descriptor became ready", the honest answer since no descriptor here
/// can ever become ready.
pub fn select(args: &CallArgs) -> (r: Reply)
    ensures
        r.outcome == DispatchOutcome::ReturnedR0(0),
        r.write is None,
{
    returned(0)
}

/// `int __WSAFDIsSet(SOCKET, fd_set*)`: never set.
pub fn wsa_fd_is_set(args: &CallArgs) -> (r: Reply)
    ensures
        r.outcome == DispatchOutcome::ReturnedR0(0),
        r.write is None,
{
    returned(0)
}

/// `int getsockname(..)`.
pub fn getsockname(args: &CallArgs) -> (r: Reply)
    ensures
        r.outcome == DispatchOutcome::ReturnedR0(SOCKET_ERROR),
        r.write is None,
{
    returned(SOCKET_ERROR)
}

/// The host name handed out: `WM6DEVICE` and its NUL.
pub open spec fn placeholder_name() -> Seq<u8> {
    seq![0x57u8, 0x4Du8, 0x36u8, 0x44u8, 0x45u8, 0x56u8, 0x49u8, 0x43u8, 0x45u8, 0x00u8]
}

/// `int gethostname(char* name, int namelen)`.
///
/// The device's own name does not depend on connectivity, so this
/// succeeds with a short placeholder when the caller's buffer has room
/// for it, and fails cleanly rather than truncating when it does not.
pub fn gethostname(args: &CallArgs) -> (r: Reply)
    ensures
        (args.r0 == 0 || args.r1 < 10) ==> r.outcome == DispatchOutcome::ReturnedR0(SOCKET_ERROR) && r.write is None,
        !(args.r0 == 0 || args.r1 < 10) ==> r.outcome == DispatchOutcome::ReturnedR0(0),
        !(args.r0 == 0 || args.r1 < 10) ==> (r.write matches Some(w) && w.addr == args.r0 && w.bytes@ == placeholder_name()),
{
    let name = args.r0;
    let namelen = args.r1;
    if name == 0 || namelen < 10 {
        return returned(SOCKET_ERROR);
    }
    let mut bytes: Vec<u8> = Vec::new();
    bytes.push(0x57);
    bytes.push(0x4D);
    bytes.push(0x36);
    bytes.push(0x44);
    bytes.push(0x45);
    bytes.push(0x56);
    bytes.push(0x49);
    bytes.push(0x43);
    bytes.push(0x45);
    bytes.push(0x00);
    assert(bytes@ =~= placeholder_name());
    Reply { outcome: DispatchOutcome::ReturnedR0(0), write: Some(GuestWrite { addr: name, bytes }) }
}

/// `struct hostent* gethostbyname(const char*)`: `NULL`, which is both
/// "not implemented" and a correctly reported lookup failure.
pub fn gethostbyname(args: &CallArgs) -> (r: Reply)
    ensures
        r.outcome == DispatchOutcome::ReturnedR0(0),
        r.write is None,
{
    returned(0)
}

/// `v` with its two bytes swapped.
pub open spec fn swap16(v: u16) -> u16 {
    (((v & 0xff) << 8u16) | (v >> 8u16)) as u16
}

/// `u_short htons(u_short hostshort)`: pure byte-order arithmetic, the
/// one function here answered for real. The guest is little-endian and
/// network order is big-endian, so the low half-word's two bytes trade
/// places.
pub fn htons(args: &CallArgs) -> (r: Reply)
    ensures
        r.write is None,
        r.outcome == DispatchOutcome::ReturnedR0(swap16((args.r0 & 0xffff) as u16) as u32),
{
    let a = args.r0;
    let host = (a & 0xffff) as u16;
    let network = ((host & 0xff) << 8u16) | (host >> 8u16);
    returned(network as u32)
}

/// `WSALookupServiceBeginW`.
pub fn wsa_lookup_service_begin_w(args: &CallArgs) -> (r: Reply)
    ensures
        r.outcome == DispatchOutcome::ReturnedR0(SOCKET_ERROR),
        r.write is None,
{
    returned(SOCKET_ERROR)
}

/// `WSALookupServiceNextW`.
pub fn wsa_lookup_service_next_w(args: &CallArgs) -> (r: Reply)
    ensures
        r.outcome == DispatchOutcome::ReturnedR0(SOCKET_ERROR),
        r.write is None,
{
    returned(SOCKET_ERROR)
}

/// `WSALookupServiceEnd`: ending a lookup that never began is harmless.
pub fn wsa_lookup_service_end(args: &CallArgs) -> (r: Reply)
    ensures
        r.outcome == DispatchOutcome::ReturnedR0(0),
        r.write is None,
{
    returned(0)
}

/// `WSASetServiceW`.
pub fn wsa_set_service_w(args: &CallArgs) -> (r: Reply)
    ensures
        r.outcome == DispatchOutcome::ReturnedR0(SOCKET_ERROR),
        r.write is None,
{
    returned(SOCKET_ERROR)
}

/// Answer a call to the `ws2.dll` export `f`.
pub fn answer(f: Ws2Fn, args: &CallArgs) -> (r: Reply)
    ensures
        f == Ws2Fn::Socket || f == Ws2Fn::Accept ==> r.outcome == DispatchOutcome::ReturnedR0(INVALID_SOCKET),
        f == Ws2Fn::WsaGetLastError ==> r.outcome == DispatchOutcome::ReturnedR0(WSAENETDOWN),
        f == Ws2Fn::Connect || f == Ws2Fn::Bind || f == Ws2Fn::Listen || f == Ws2Fn::Send || f == Ws2Fn::Recv
            || f == Ws2Fn::Getsockname || f == Ws2Fn::WsaLookupServiceBeginW || f == Ws2Fn::WsaLookupServiceNextW
            || f == Ws2Fn::WsaSetServiceW ==> r.outcome == DispatchOutcome::ReturnedR0(SOCKET_ERROR),
        f == Ws2Fn::WsaStartup || f == Ws2Fn::WsaCleanup || f == Ws2Fn::Closesocket || f == Ws2Fn::Select
            || f == Ws2Fn::WsaFdIsSet || f == Ws2Fn::Gethostbyname || f == Ws2Fn::WsaLookupServiceEnd
            ==> r.outcome == DispatchOutcome::ReturnedR0(0),
        f != Ws2Fn::WsaStartup && f != Ws2Fn::Gethostname ==> r.write is None,
{
    match f {
        Ws2Fn::WsaStartup => wsa_startup(args),
        Ws2Fn::WsaCleanup => wsa_cleanup(args),
        Ws2Fn::WsaGetLastError => wsa_get_last_error(args),
        Ws2Fn::Socket => socket(args),
        Ws2Fn::Closesocket => closesocket(args),
        Ws2Fn::Connect => connect(args),
        Ws2Fn::Bind => bind(args),
        Ws2Fn::Listen => listen(args),
        Ws2Fn::Accept => accept(args),
        Ws2Fn::Send => send(args),
        Ws2Fn::Recv => recv(args),
        Ws2Fn::Select => select(args),
        Ws2Fn::WsaFdIsSet => wsa_fd_is_set(args),
        Ws2Fn::Getsockname => getsockname(args),
        Ws2Fn::Gethostname => gethostname(args),
        Ws2Fn::Gethostbyname => gethostbyname(args),
        Ws2Fn::Htons => htons(args),
        Ws2Fn::WsaLookupServiceBeginW => wsa_lookup_service_begin_w(args),
        Ws2Fn::WsaLookupServiceNextW => wsa_lookup_service_next_w(args),
        Ws2Fn::WsaLookupServiceEnd => wsa_lookup_service_end(args),
        Ws2Fn::WsaSetServiceW => wsa_set_service_w(args),
    }
}

/// `htons` puts the high byte of the low half-word first: for a
/// guest value `v`, the answer is its low byte times 256 plus its
/// second byte, and the upper half-word plays no part.
pub proof fn lemma_htons_swaps_the_low_bytes(v: u32)
    ensures
        swap16((v & 0xffff) as u16) as u32 == (v % 256) * 256 + (v / 256) % 256,
{
    let h = (v & 0xffff) as u16;
    assert(h == v % 65536 && (((h & 0xff) << 8u16) | (h >> 8u16)) as u16 == (h % 256) * 256 + h
        / 256) by (bit_vector)
        requires
            h == (v & 0xffff) as u16,
    ;
    assert((v % 65536) % 256 == v % 256 && (v % 65536) / 256 == (v / 256) % 256) by (nonlinear_arith);
}

} // verus!
