//! The import dispatcher: which handler answers a call into a system
//! DLL, by DLL and export name.
//!
//! A handler here is a name for the routine that answers the call; the
//! routines themselves compute on the call's arguments and the emulated
//! state and hand back what the guest sees — the value in `r0` and any
//! bytes to write into its memory.
use vstd::prelude::*;

use crate::hss::{self, HssFn};
use crate::ws2::{self, Ws2Fn};

verus! {

/// The routine that answers an import.
#[derive(Debug, Clone, Copy, PartialEq, Eq, Structural)]
pub enum Handler {
    Ws2(Ws2Fn),
    Hss(HssFn),
}

/// What a handler hands back to the guest.
#[derive(Debug, Clone, Copy, PartialEq, Eq, Structural)]
pub enum DispatchOutcome {
    /// Return to the caller with this value in `r0`.
    ReturnedR0(u32),
}

/// Bytes a handler writes into guest memory at `addr`.
pub struct GuestWrite {
    pub addr: u32,
    pub bytes: Vec<u8>,
}

/// A handler's whole answer: the outcome, and at most one write into
/// guest memory to make before returning.
pub struct Reply {
    pub outcome: DispatchOutcome,
    pub write: Option<GuestWrite>,
}

/// The first four arguments of a call, as the ARM calling convention
/// passes them in `r0`..`r3`.
#[derive(Debug, Clone, Copy, PartialEq, Eq, Structural)]
pub struct CallArgs {
    pub r0: u32,
    pub r1: u32,
    pub r2: u32,
    pub r3: u32,
}

/// A reply that only returns `v`.
pub fn returned(v: u32) -> (r: Reply)
    ensures
        r.outcome == DispatchOutcome::ReturnedR0(v),
        r.write is None,
{
    Reply { outcome: DispatchOutcome::ReturnedR0(v), write: None }
}

/// A DLL name and an export name.
pub type ImportKey = (Seq<char>, Seq<char>);

/// One registration.
pub struct Registration {
    pub dll: String,
    pub name: String,
    pub handler: Handler,
}

/// The registrations of a dispatcher, oldest first.
pub open spec fn regs_view(regs: Seq<Registration>) -> Seq<(ImportKey, Handler)> {
    regs.map_values(|r: Registration| ((r.dll@, r.name@), r.handler))
}

/// The handler each import resolves to: a later registration of the
/// same import replaces an earlier one.
pub open spec fn handler_map(regs: Seq<(ImportKey, Handler)>) -> Map<ImportKey, Handler>
    decreases regs.len(),
{
    if regs.len() == 0 {
        Map::empty()
    } else {
        handler_map(regs.drop_last()).insert(regs.last().0, regs.last().1)
    }
}

/// `m` with `dll!name` registered to each handler of `entries`, in
/// order.
pub open spec fn with_entries(m: Map<ImportKey, Handler>, dll: Seq<char>, entries: Seq<(Seq<char>, Handler)>) -> Map<
    ImportKey,
    Handler,
>
    decreases entries.len(),
{
    if entries.len() == 0 {
        m
    } else {
        with_entries(m, dll, entries.drop_last()).insert(
            (dll, entries.last().0),
            entries.last().1,
        )
    }
}

/// A table of export names and handlers, the names taken by their
/// characters.
pub open spec fn table_view(t: Seq<(&str, Handler)>) -> Seq<(Seq<char>, Handler)> {
    t.map_values(|e: (&str, Handler)| (e.0@, e.1))
}

/// Maps each import to the handler that answers it.
pub struct WinCeDispatcher {
    regs: Vec<Registration>,
}

impl View for WinCeDispatcher {
    type V = Map<ImportKey, Handler>;

    closed spec fn view(&self) -> Map<ImportKey, Handler> {
        handler_map(regs_view(self.regs@))
    }
}

proof fn lemma_last_match(regs: Seq<(ImportKey, Handler)>, k: ImportKey, j: int)
    requires
        0 <= j < regs.len(),
        regs[j].0 == k,
        forall|i: int| j < i < regs.len() ==> regs[i].0 != k,
    ensures
        handler_map(regs).dom().contains(k),
        handler_map(regs)[k] == regs[j].1,
    decreases regs.len(),
{
    if j < regs.len() - 1 {
        lemma_last_match(regs.drop_last(), k, j);
    }
}

proof fn lemma_no_match(regs: Seq<(ImportKey, Handler)>, k: ImportKey)
    requires
        forall|i: int| 0 <= i < regs.len() ==> regs[i].0 != k,
    ensures
        !handler_map(regs).dom().contains(k),
    decreases regs.len(),
{
    if regs.len() > 0 {
        lemma_no_match(regs.drop_last(), k);
    }
}

/// Do `a` and `b` hold the same characters?
fn same_text(a: &String, b: &str) -> (r: bool)
    ensures
        r == (a@ == b@),
{
    let owned = b.to_owned();
    *a == owned
}

impl WinCeDispatcher {
    /// A dispatcher with no handlers registered.
    pub fn empty() -> (d: Self)
        ensures
            d@ == Map::<ImportKey, Handler>::empty(),
    {
        WinCeDispatcher { regs: Vec::new() }
    }

    /// A dispatcher answering every import the modules here implement:
    /// `ws2.dll`, then `hss.dll`.
    pub fn new() -> (d: Self)
        ensures
            d@ == with_entries(
                with_entries(Map::empty(), "ws2.dll"@, ws2::entries()),
                "hss.dll"@,
                hss::entries(),
            ),
    {
        let mut d = WinCeDispatcher::empty();
        ws2::register(&mut d);
        hss::register(&mut d);
        d
    }

    /// Route `dll!name` to `handler`, replacing any earlier handler for
    /// that import.
    pub fn register_handler(&mut self, dll: &str, name: &str, handler: Handler)
        ensures
            final(self)@ == old(self)@.insert((dll@, name@), handler),
    {
        let r = Registration { dll: dll.to_owned(), name: name.to_owned(), handler };
        self.regs.push(r);
        proof {
            let rv = regs_view(self.regs@);
            assert(rv.drop_last() =~= regs_view(old(self).regs@));
        }
    }

    /// Route `dll!name` to its handler for every entry of `table`, in
    /// order.
    pub fn register_all(&mut self, dll: &str, table: &Vec<(&str, Handler)>)
        ensures
            final(self)@ == with_entries(old(self)@, dll@, table_view(table@)),
    {
        let mut i: usize = 0;
        while i < table.len()
            invariant
                i <= table@.len(),
                self@ == with_entries(old(self)@, dll@, table_view(table@).take(i as int)),
            decreases table@.len() - i,
        {
            let (name, handler) = table[i];
            self.register_handler(dll, name, handler);
            assert(table_view(table@).take(i + 1).drop_last() =~= table_view(table@).take(i as int));
            i = i + 1;
        }
        assert(table_view(table@).take(table@.len() as int) =~= table_view(table@));
    }

    /// The handler registered for `dll!name`, if any.
    pub fn lookup(&self, dll: &str, name: &str) -> (r: Option<Handler>)
        ensures
            r == if self@.dom().contains((dll@, name@)) {
                Some(self@[(dll@, name@)])
            } else {
                None
            },
    {
        let ghost rv = regs_view(self.regs@);
        let ghost k = (dll@, name@);
        let mut i = self.regs.len();
        while i > 0
            invariant
                i <= self.regs@.len(),
                rv == regs_view(self.regs@),
                k == (dll@, name@),
                forall|j: int| i <= j < rv.len() ==> rv[j].0 != k,
            decreases i,
        {
            let reg = &self.regs[i - 1];
            if same_text(&reg.dll, dll) && same_text(&reg.name, name) {
                proof {
                    lemma_last_match(rv, k, i - 1);
                }
                return Some(reg.handler);
            }
            i = i - 1;
        }
        proof {
            lemma_no_match(rv, k);
        }
        None
    }

    /// Every import with a handler, each once: the DLL name and the
    /// export name.
    pub fn registered(&self) -> (r: Vec<(String, String)>)
        ensures
            forall|k: ImportKey|
                self@.dom().contains(k) <==> exists|i: int|
                    0 <= i < r@.len() && (#[trigger] r@[i]).0@ == k.0 && r@[i].1@ == k.1,
    {
        let ghost rv = regs_view(self.regs@);
        let mut out: Vec<(String, String)> = Vec::new();
        let mut i: usize = 0;
        while i < self.regs.len()
            invariant
                i <= self.regs@.len(),
                rv == regs_view(self.regs@),
                out@.len() == i,
                forall|j: int| 0 <= j < i ==> (#[trigger] out@[j]).0@ == rv[j].0.0 && out@[j].1@ == rv[j].0.1,
            decreases self.regs@.len() - i,
        {
            let reg = &self.regs[i];
            let entry = (reg.dll.clone(), reg.name.clone());
            out.push(entry);
            i = i + 1;
        }
        proof {
            assert forall|k: ImportKey|
                self@.dom().contains(k) <==> exists|m: int|
                    0 <= m < out@.len() && (#[trigger] out@[m]).0@ == k.0 && out@[m].1@ == k.1 by {
                lemma_dom(rv, k);
                if self@.dom().contains(k) {
                    let j = choose|j: int| 0 <= j < rv.len() && #[trigger] rv[j].0 == k;
                    assert(out@[j].0@ == k.0 && out@[j].1@ == k.1);
                }
                if exists|m: int| 0 <= m < out@.len() && (#[trigger] out@[m]).0@ == k.0 && out@[m].1@ == k.1 {
                    let m = choose|m: int|
                        0 <= m < out@.len() && (#[trigger] out@[m]).0@ == k.0 && out@[m].1@ == k.1;
                    assert(rv[m].0 == k);
                }
            }
        }
        out
    }
}

proof fn lemma_dom(regs: Seq<(ImportKey, Handler)>, k: ImportKey)
    ensures
        handler_map(regs).dom().contains(k) <==> exists|j: int|
            0 <= j < regs.len() && #[trigger] regs[j].0 == k,
    decreases regs.len(),
{
    if regs.len() > 0 {
        lemma_dom(regs.drop_last(), k);
        if exists|j: int| 0 <= j < regs.drop_last().len() && #[trigger] regs.drop_last()[j].0 == k {
            let j = choose|j: int|
                0 <= j < regs.drop_last().len() && #[trigger] regs.drop_last()[j].0 == k;
            assert(regs[j].0 == k);
        }
        if exists|j: int| 0 <= j < regs.len() && #[trigger] regs[j].0 == k {
            let j = choose|j: int| 0 <= j < regs.len() && #[trigger] regs[j].0 == k;
            if j < regs.len() - 1 {
                assert(regs.drop_last()[j].0 == k);
            }
        }
    }
}

proof fn lemma_entries_registered(m: Map<ImportKey, Handler>, dll: Seq<char>, e: Seq<(Seq<char>, Handler)>, i: int)
    requires
        0 <= i < e.len(),
    ensures
        with_entries(m, dll, e).dom().contains((dll, e[i].0)),
    decreases e.len(),
{
    if i < e.len() - 1 {
        lemma_entries_registered(m, dll, e.drop_last(), i);
    }
}

proof fn lemma_entries_keep_other_dlls(m: Map<ImportKey, Handler>, dll: Seq<char>, e: Seq<(Seq<char>, Handler)>, k: ImportKey)
    requires
        k.0 != dll,
    ensures
        with_entries(m, dll, e).dom().contains(k) == m.dom().contains(k),
        m.dom().contains(k) ==> with_entries(m, dll, e)[k] == m[k],
    decreases e.len(),
{
    if e.len() > 0 {
        lemma_entries_keep_other_dlls(m, dll, e.drop_last(), k);
    }
}

proof fn lemma_entries_values(m: Map<ImportKey, Handler>, dll: Seq<char>, e: Seq<(Seq<char>, Handler)>, k: ImportKey)
    requires
        forall|j: int| 0 <= j < e.len() ==> (#[trigger] e[j]).1 is Ws2,
        k.0 == dll,
        !m.dom().contains(k),
        with_entries(m, dll, e).dom().contains(k),
    ensures
        with_entries(m, dll, e)[k] is Ws2,
    decreases e.len(),
{
    if e.len() > 0 {
        if k != (dll, e.last().0) {
            lemma_entries_values(m, dll, e.drop_last(), k);
        }
    }
}

/// Every `ws2.dll` export the dispatcher is built to answer reaches a
/// `ws2.dll` handler — none falls through to a default stub, whose
/// success-shaped `0` a game would mistake for a working network.
pub proof fn lemma_every_ws2_export_is_answered(i: int)
    requires
        0 <= i < ws2::entries().len(),
    ensures
        ({
            let d = with_entries(
                with_entries(Map::empty(), "ws2.dll"@, ws2::entries()),
                "hss.dll"@,
                hss::entries(),
            );
            let k = ("ws2.dll"@, ws2::entries()[i].0);
            &&& d.dom().contains(k)
            &&& d[k] is Ws2
        }),
{
    let e = ws2::entries();
    let m1 = with_entries(Map::empty(), "ws2.dll"@, e);
    let k = ("ws2.dll"@, e[i].0);
    lemma_entries_registered(Map::empty(), "ws2.dll"@, e, i);
    lemma_entries_values(Map::empty(), "ws2.dll"@, e, k);
    reveal_strlit("ws2.dll");
    reveal_strlit("hss.dll");
    assert("ws2.dll"@[0] != "hss.dll"@[0]);
    lemma_entries_keep_other_dlls(m1, "hss.dll"@, hss::entries(), k);
}

} // verus!
