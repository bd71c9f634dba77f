//! Ordinal → name resolution for system DLLs that export by ordinal.
//!
//! On Pocket PC 2002 / 2003 / Windows Mobile 5/6, `coredll.dll` and
//! `aygshell.dll` export every public function as both a name and an
//! ordinal, but the SDK link libraries strip the names by default, so
//! applications import by ordinal. To make logs readable an ordinal
//! table is kept per DLL, keyed by lower-case DLL name and ordinal. The
//! tables themselves are data, loaded by the front end.
use vstd::prelude::*;

use crate::text::{ascii_folded, ascii_lower};

verus! {

/// One DLL's table: ordinal and exported name.
pub type TableView = Seq<(u16, Seq<char>)>;

/// The ordinal tables, by lower-case DLL name.
pub struct OrdinalTables {
    tables: Vec<(String, Vec<(u16, String)>)>,
}

/// A table's entries, the names taken by their characters.
pub open spec fn entries_view(t: Seq<(u16, String)>) -> TableView {
    t.map_values(|e: (u16, String)| (e.0, e.1@))
}

impl View for OrdinalTables {
    type V = Seq<(Seq<char>, TableView)>;

    closed spec fn view(&self) -> Seq<(Seq<char>, TableView)> {
        self.tables@.map_values(|t: (String, Vec<(u16, String)>)| (t.0@, entries_view(t.1@)))
    }
}

/// Index of the first of the first `n` tables named `dll`.
pub open spec fn table_pos(ts: Seq<(Seq<char>, TableView)>, dll: Seq<char>, n: nat) -> Option<int>
    decreases n,
{
    if n == 0 {
        None
    } else {
        match table_pos(ts, dll, (n - 1) as nat) {
            Some(i) => Some(i),
            None => if ts[n - 1].0 == dll {
                Some(n - 1)
            } else {
                None
            },
        }
    }
}

/// Index of the first of the first `n` entries for `ordinal`.
pub open spec fn entry_pos(t: TableView, ordinal: u16, n: nat) -> Option<int>
    decreases n,
{
    if n == 0 {
        None
    } else {
        match entry_pos(t, ordinal, (n - 1) as nat) {
            Some(i) => Some(i),
            None => if t[n - 1].0 == ordinal {
                Some(n - 1)
            } else {
                None
            },
        }
    }
}

/// `bthutil.dll`, which has no known ordinal table: only two of its
/// ordinals have ever turned up in a game's imports, and they are named
/// descriptively rather than guessed at.
pub open spec fn bthutil_name(ordinal: u16) -> Option<Seq<char>> {
    if ordinal == 1 {
        Some("bthutil_ord_1_unidentified"@)
    } else if ordinal == 2 {
        Some("bthutil_ord_2_unidentified"@)
    } else {
        None
    }
}

/// The name of `ordinal` in the DLL named (in any case) `dll`.
pub open spec fn name_of(ts: Seq<(Seq<char>, TableView)>, dll: Seq<char>, ordinal: u16) -> Option<Seq<char>> {
    let key = ascii_folded(dll);
    if key == "bthutil.dll"@ {
        bthutil_name(ordinal)
    } else {
        match table_pos(ts, key, ts.len()) {
            None => None,
            Some(i) => match entry_pos(ts[i].1, ordinal, ts[i].1.len()) {
                None => None,
                Some(j) => Some(ts[i].1[j].1),
            },
        }
    }
}

/// How many ordinals the DLL named (in any case) `dll` has a name for.
pub open spec fn count_of(ts: Seq<(Seq<char>, TableView)>, dll: Seq<char>) -> nat {
    match table_pos(ts, ascii_folded(dll), ts.len()) {
        None => 0,
        Some(i) => ts[i].1.len(),
    }
}

/// `str::to_ascii_lowercase`: `s` with ASCII capitals folded to lower
/// case.
#[verifier::external_body]
fn to_ascii_lowercase(s: &str) -> (r: String)
    ensures
        r@ == ascii_folded(s@),
{
    s.to_ascii_lowercase()
}

proof fn lemma_table_pos(ts: Seq<(Seq<char>, TableView)>, dll: Seq<char>, n: nat)
    requires
        n <= ts.len(),
    ensures
        match table_pos(ts, dll, n) {
            Some(i) => 0 <= i < n && ts[i].0 == dll && forall|k: int| 0 <= k < i ==> ts[k].0 != dll,
            None => forall|k: int| 0 <= k < n ==> ts[k].0 != dll,
        },
    decreases n,
{
    if n > 0 {
        lemma_table_pos(ts, dll, (n - 1) as nat);
    }
}

proof fn lemma_entry_pos(t: TableView, ordinal: u16, n: nat)
    requires
        n <= t.len(),
    ensures
        match entry_pos(t, ordinal, n) {
            Some(i) => 0 <= i < n && t[i].0 == ordinal && forall|k: int| 0 <= k < i ==> t[k].0 != ordinal,
            None => forall|k: int| 0 <= k < n ==> t[k].0 != ordinal,
        },
    decreases n,
{
    if n > 0 {
        lemma_entry_pos(t, ordinal, (n - 1) as nat);
    }
}

impl OrdinalTables {
    /// No tables.
    pub fn new() -> (t: Self)
        ensures
            t@ == Seq::<(Seq<char>, TableView)>::empty(),
    {
        let t = OrdinalTables { tables: Vec::new() };
        assert(t@ =~= Seq::<(Seq<char>, TableView)>::empty());
        t
    }

    /// Add the table of `dll`, whose name is stored in lower case. An
    /// earlier table of the same DLL keeps precedence.
    pub fn add_table(&mut self, dll: &str, entries: Vec<(u16, String)>)
        ensures
            final(self)@ == old(self)@.push((ascii_folded(dll@), entries_view(entries@))),
    {
        let key = to_ascii_lowercase(dll);
        self.tables.push((key, entries));
        assert(self@ =~= old(self)@.push((ascii_folded(dll@), entries_view(entries@))));
    }

    fn table_index(&self, key: &String) -> (r: Option<usize>)
        ensures
            r is Some <==> table_pos(self@, key@, self@.len()) is Some,
            r matches Some(i) ==> table_pos(self@, key@, self@.len()) == Some(i as int) && i
                < self.tables@.len(),
    {
        let ghost ts = self@;
        proof {
            lemma_table_pos(ts, key@, ts.len());
        }
        let mut i: usize = 0;
        while i < self.tables.len()
            invariant
                i <= self.tables@.len(),
                ts == self@,
                ts.len() == self.tables@.len(),
                forall|k: int| 0 <= k < i ==> ts[k].0 != key@,
            decreases self.tables@.len() - i,
        {
            assert(ts[i as int].0 == self.tables@[i as int].0@);
            if self.tables[i].0 == *key {
                proof {
                    lemma_table_pos(ts, key@, ts.len());
                }
                return Some(i);
            }
            i = i + 1;
        }
        proof {
            lemma_table_pos(ts, key@, ts.len());
        }
        None
    }

    /// Look up the symbolic name for `ordinal` in `dll`. Returns `None`
    /// if the DLL or the ordinal is unknown.
    pub fn lookup(&self, dll: &str, ordinal: u16) -> (r: Option<String>)
        ensures
            match name_of(self@, dll@, ordinal) {
                Some(n) => r matches Some(s) && s@ == n,
                None => r is None,
            },
    {
        let key = to_ascii_lowercase(dll);
        let bthutil = "bthutil.dll".to_owned();
        if key == bthutil {
            proof {
                reveal_strlit("bthutil_ord_1_unidentified");
                reveal_strlit("bthutil_ord_2_unidentified");
            }
            return if ordinal == 1 {
                Some("bthutil_ord_1_unidentified".to_owned())
            } else if ordinal == 2 {
                Some("bthutil_ord_2_unidentified".to_owned())
            } else {
                None
            };
        }
        let i = match self.table_index(&key) {
            Some(i) => i,
            None => return None,
        };
        let table = &self.tables[i].1;
        let ghost tv = self@[i as int].1;
        assert(tv == entries_view(table@));
        proof {
            lemma_entry_pos(tv, ordinal, tv.len());
        }
        let mut j: usize = 0;
        while j < table.len()
            invariant
                j <= table@.len(),
                tv == entries_view(table@),
                tv == self@[i as int].1,
                table_pos(self@, ascii_folded(dll@), self@.len()) == Some(i as int),
                ascii_folded(dll@) != "bthutil.dll"@,
                forall|k: int| 0 <= k < j ==> tv[k].0 != ordinal,
            decreases table@.len() - j,
        {
            assert(tv[j as int] == (table@[j as int].0, table@[j as int].1@));
            if table[j].0 == ordinal {
                proof {
                    lemma_entry_pos(tv, ordinal, tv.len());
                }
                return Some(table[j].1.clone());
            }
            j = j + 1;
        }
        proof {
            lemma_entry_pos(tv, ordinal, tv.len());
        }
        None
    }

    /// Number of ordinal entries for `dll`.
    pub fn entry_count(&self, dll: &str) -> (r: usize)
        ensures
            r == count_of(self@, dll@),
    {
        let key = to_ascii_lowercase(dll);
        match self.table_index(&key) {
            Some(i) => {
                assert(self@[i as int].1.len() == self.tables@[i as int].1@.len());
                self.tables[i].1.len()
            },
            None => 0,
        }
    }
}

/// Folding to lower case twice is folding once.
proof fn lemma_fold_twice(s: Seq<char>)
    ensures
        ascii_folded(ascii_folded(s)) == ascii_folded(s),
{
    assert forall|i: int| 0 <= i < s.len() implies ascii_lower(ascii_lower(s[i])) == ascii_lower(
        s[i],
    ) by {
        let c = s[i];
        if 'A' <= c && c <= 'Z' {
            assert(((c as u32) + 32) as char == ascii_lower(c));
        }
    }
    assert(ascii_folded(ascii_folded(s)) =~= ascii_folded(s));
}

/// A DLL's name is matched without regard to ASCII case: a lookup or
/// a count under any spelling gives what the lower-case spelling gives.
pub proof fn lemma_dll_names_ignore_case(ts: Seq<(Seq<char>, TableView)>, dll: Seq<char>, ordinal: u16)
    ensures
        name_of(ts, dll, ordinal) == name_of(ts, ascii_folded(dll), ordinal),
        count_of(ts, dll) == count_of(ts, ascii_folded(dll)),
{
    lemma_fold_twice(dll);
}

/// A table added for a DLL not yet known answers for that DLL: an
/// ordinal it lists is named by its first entry for that ordinal, and
/// the DLL counts every entry. A table added for a DLL already known
/// changes nothing: the earlier one keeps precedence.
pub proof fn lemma_added_tables_answer(
    ts: Seq<(Seq<char>, TableView)>,
    dll: Seq<char>,
    entries: TableView,
    ordinal: u16,
    k: int,
)
    requires
        ascii_folded(dll) != "bthutil.dll"@,
    ensures
        ({
            let key = ascii_folded(dll);
            let us = ts.push((key, entries));
            &&& table_pos(ts, key, ts.len()) is None ==> count_of(us, dll) == entries.len()
            &&& (table_pos(ts, key, ts.len()) is None && 0 <= k < entries.len()
                && entries[k].0 == ordinal && forall|j: int| 0 <= j < k ==> entries[j].0 != ordinal)
                ==> name_of(us, dll, ordinal) == Some(entries[k].1)
            &&& table_pos(ts, key, ts.len()) is Some ==> (name_of(us, dll, ordinal) == name_of(
                ts,
                dll,
                ordinal,
            ) && count_of(us, dll) == count_of(ts, dll))
        }),
{
    let key = ascii_folded(dll);
    let us = ts.push((key, entries));
    lemma_table_pos(ts, key, ts.len());
    lemma_table_pos(us, key, us.len());
    assert(us[ts.len() as int] == (key, entries));
    if table_pos(ts, key, ts.len()) is None {
        assert(table_pos(us, key, us.len()) == Some(ts.len() as int));
        if 0 <= k < entries.len() && entries[k].0 == ordinal && forall|j: int|
            0 <= j < k ==> entries[j].0 != ordinal {
            lemma_entry_pos(entries, ordinal, entries.len());
            match entry_pos(entries, ordinal, entries.len()) {
                Some(j) => {
                    assert(j == k);
                },
                None => {
                    assert(entries[k].0 != ordinal);
                },
            }
        }
    } else {
        let i = table_pos(ts, key, ts.len())->0;
        assert(table_pos(us, key, us.len()) == Some(i)) by {
            assert(us.len() == ts.len() + 1);
            assert(table_pos(us, key, ts.len()) == table_pos(ts, key, ts.len())) by {
                lemma_table_pos_prefix(ts, us, key, ts.len());
            }
        }
        assert(us[i] == ts[i]);
    }
}

/// The first `n` tables decide where a DLL's first table stands among
/// them, whatever follows.
proof fn lemma_table_pos_prefix(
    ts: Seq<(Seq<char>, TableView)>,
    us: Seq<(Seq<char>, TableView)>,
    dll: Seq<char>,
    n: nat,
)
    requires
        n <= ts.len(),
        n <= us.len(),
        forall|i: int| 0 <= i < n ==> us[i] == ts[i],
    ensures
        table_pos(us, dll, n) == table_pos(ts, dll, n),
    decreases n,
{
    if n > 0 {
        lemma_table_pos_prefix(ts, us, dll, (n - 1) as nat);
    }
}

} // verus!
