//! The bank directory (one table of bank records per country) and the
//! blacklist of IBANs.
use vstd::prelude::*;
use crate::country::{BankData, Country};
use crate::text::same_text;

verus! {

/// The first record of a table that carries the given bank code.
pub open spec fn lookup(table: Seq<BankData>, code: Seq<char>) -> Option<BankData>
    decreases table.len(),
{
    if table.len() == 0 {
        None
    } else if table[0].code@ == code {
        Some(table[0])
    } else {
        lookup(table.skip(1), code)
    }
}

/// One table of bank records per supported country.
pub struct BankDirectory {
    at: Vec<BankData>,
    be: Vec<BankData>,
    de: Vec<BankData>,
    nl: Vec<BankData>,
}

impl BankDirectory {
    pub closed spec fn table(&self, country: Country) -> Seq<BankData> {
        match country {
            Country::At => self.at@,
            Country::Be => self.be@,
            Country::De => self.de@,
            Country::Nl => self.nl@,
        }
    }

    /// A directory with every table empty.
    pub fn new() -> (r: Self)
        ensures
            forall|c: Country| #[trigger] r.table(c) == Seq::<BankData>::empty(),
    {
        let r = BankDirectory { at: Vec::new(), be: Vec::new(), de: Vec::new(), nl: Vec::new() };
        proof {
            assert forall|c: Country| #[trigger] r.table(c) == Seq::<BankData>::empty() by {
                assert(r.table(c) =~= Seq::<BankData>::empty());
            }
        }
        r
    }

    /// The records of one country's table, in the order they were stored.
    pub fn records(&self, country: Country) -> (r: &Vec<BankData>)
        ensures
            r@ == self.table(country),
    {
        match country {
            Country::At => &self.at,
            Country::Be => &self.be,
            Country::De => &self.de,
            Country::Nl => &self.nl,
        }
    }

    /// Replaces one country's table as a whole with the given records; the
    /// other tables stay as they were.
    pub fn replace_all(&mut self, country: Country, records: Vec<BankData>)
        ensures
            final(self).table(country) == records@,
            forall|c: Country| c != country ==> #[trigger] final(self).table(c) == old(self).table(c),
    {
        match country {
            Country::At => self.at = records,
            Country::Be => self.be = records,
            Country::De => self.de = records,
            Country::Nl => self.nl = records,
        }
    }

    /// The first record of the country's table with this bank code.
    pub fn get_bank_data(&self, country: Country, bank_code: &str) -> (r: Option<BankData>)
        ensures
            r == lookup(self.table(country), bank_code@),
    {
        let table = self.records(country);
        let mut i: usize = 0;
        proof {
            assert(table@.skip(0) =~= table@);
        }
        while i < table.len()
            invariant
                table@ == self.table(country),
                0 <= i <= table.len(),
                lookup(table@, bank_code@) == lookup(table@.skip(i as int), bank_code@),
            decreases table.len() - i,
        {
            let rec = &table[i];
            proof {
                let rest = table@.skip(i as int);
                assert(rest[0] == table@[i as int]);
                assert(rest.skip(1) =~= table@.skip(i + 1));
            }
            if same_text(rec.code.as_str(), bank_code) {
                return Some(rec.clone());
            }
            i += 1;
        }
        proof {
            assert(table@.skip(i as int).len() == 0);
        }
        None
    }
}

/// The codes that a lookup finds are exactly those of the stored records:
/// each record's code leads to a record with that code, and a code that no
/// record carries is not found.
pub proof fn lemma_lookup_finds_stored_codes(table: Seq<BankData>, code: Seq<char>)
    ensures
        lookup(table, code) is Some <==> exists|i: int|
            0 <= i < table.len() && (#[trigger] table[i]).code@ == code,
        lookup(table, code) is Some ==> table.contains(lookup(table, code)->0) && lookup(
            table,
            code,
        )->0.code@ == code,
    decreases table.len(),
{
    if table.len() > 0 {
        let rest = table.skip(1);
        lemma_lookup_finds_stored_codes(rest, code);
        if table[0].code@ != code {
            if exists|i: int| 0 <= i < table.len() && (#[trigger] table[i]).code@ == code {
                let i = choose|i: int| 0 <= i < table.len() && (#[trigger] table[i]).code@ == code;
                assert(rest[i - 1] == table[i]);
            }
            if lookup(rest, code) is Some {
                let k = choose|k: int| 0 <= k < rest.len() && rest[k] == lookup(rest, code)->0;
                assert(table[k + 1] == rest[k]);
                assert(exists|i: int| 0 <= i < table.len() && (#[trigger] table[i]).code@ == code) by {
                    let j = choose|j: int| 0 <= j < rest.len() && (#[trigger] rest[j]).code@ == code;
                    assert(table[j + 1] == rest[j]);
                }
            }
        } else {
            assert(table[0] == table[0]);
            assert(table.contains(table[0]));
        }
    }
}

/// Two IBANs of a country whose bank codes agree lead to the same record,
/// whatever their account numbers.
pub proof fn lemma_same_bank_code_same_record(
    dir: BankDirectory,
    country: Country,
    iban_a: Seq<char>,
    iban_b: Seq<char>,
)
    requires
        country.spec_bank_code(iban_a) == country.spec_bank_code(iban_b),
    ensures
        lookup(dir.table(country), country.spec_bank_code(iban_a)) == lookup(
            dir.table(country),
            country.spec_bank_code(iban_b),
        ),
{
}

/// The two operations on the blacklist.
#[derive(Clone, Copy, Debug, PartialEq, Eq, Structural)]
pub enum BlacklistOp {
    Add,
    Remove,
}

impl BlacklistOp {
    /// The value the blacklist records for the IBAN.
    pub open spec fn blocks(self) -> bool {
        self == BlacklistOp::Add
    }

    pub fn is_add(&self) -> (r: bool)
        ensures
            r == self.blocks(),
    {
        match self {
            BlacklistOp::Add => true,
            BlacklistOp::Remove => false,
        }
    }
}

pub const UNKNOWN_OPERATION: &'static str = "Failure: Operation not recognized. Use ADD or REMOVE";

/// The operation an operation name stands for: "add", "Add" or "ADD", and
/// "remove", "Remove" or "REMOVE".
pub open spec fn op_of(op: Seq<char>) -> Option<BlacklistOp> {
    if op == "add"@ || op == "Add"@ || op == "ADD"@ {
        Some(BlacklistOp::Add)
    } else if op == "remove"@ || op == "Remove"@ || op == "REMOVE"@ {
        Some(BlacklistOp::Remove)
    } else {
        None
    }
}

pub fn parse_op(op: &str) -> (r: Option<BlacklistOp>)
    ensures
        r == op_of(op@),
{
    if same_text(op, "add") || same_text(op, "Add") || same_text(op, "ADD") {
        Some(BlacklistOp::Add)
    } else if same_text(op, "remove") || same_text(op, "Remove") || same_text(op, "REMOVE") {
        Some(BlacklistOp::Remove)
    } else {
        None
    }
}

/// One IBAN's entry: whether it is currently blocked.
#[derive(Debug)]
pub struct BlacklistEntry {
    pub iban: String,
    pub blacklisted: bool,
}

/// The blacklist: at most one entry per IBAN, compared by exact text. An
/// IBAN without an entry is not blocked.
pub struct Blacklist {
    entries: Vec<BlacklistEntry>,
    contents: Ghost<Map<Seq<char>, bool>>,
}

/// Whether the blacklist contents block the IBAN.
pub open spec fn blocked_in(m: Map<Seq<char>, bool>, iban: Seq<char>) -> bool {
    m.contains_key(iban) && m[iban]
}

impl View for Blacklist {
    type V = Map<Seq<char>, bool>;

    closed spec fn view(&self) -> Map<Seq<char>, bool> {
        self.contents@
    }
}

impl Blacklist {
    pub closed spec fn wf(&self) -> bool {
        &&& forall|i: int, j: int|
            0 <= i < j < self.entries@.len() ==> (#[trigger] self.entries@[i]).iban@
                != (#[trigger] self.entries@[j]).iban@
        &&& forall|i: int|
            0 <= i < self.entries@.len() ==> self.contents@.contains_key(
                (#[trigger] self.entries@[i]).iban@,
            ) && self.contents@[self.entries@[i].iban@] == self.entries@[i].blacklisted
        &&& forall|k: Seq<char>|
            #[trigger] self.contents@.contains_key(k) ==> exists|i: int|
                0 <= i < self.entries@.len() && (#[trigger] self.entries@[i]).iban@ == k
    }

    /// An empty blacklist.
    pub fn new() -> (r: Self)
        ensures
            r.wf(),
            r@ == Map::<Seq<char>, bool>::empty(),
    {
        Blacklist { entries: Vec::new(), contents: Ghost(Map::empty()) }
    }

    fn find(&self, iban: &str) -> (r: Option<usize>)
        requires
            self.wf(),
        ensures
            match r {
                Some(i) => i < self.entries@.len() && self.entries@[i as int].iban@ == iban@,
                None => !self@.contains_key(iban@),
            },
    {
        let mut i: usize = 0;
        while i < self.entries.len()
            invariant
                self.wf(),
                0 <= i <= self.entries@.len(),
                forall|j: int| 0 <= j < i ==> (#[trigger] self.entries@[j]).iban@ != iban@,
            decreases self.entries.len() - i,
        {
            if same_text(self.entries[i].iban.as_str(), iban) {
                return Some(i);
            }
            i += 1;
        }
        None
    }

    /// Whether the IBAN is currently blocked.
    pub fn is_blacklisted(&self, iban: &str) -> (r: bool)
        requires
            self.wf(),
        ensures
            r == blocked_in(self@, iban@),
    {
        match self.find(iban) {
            Some(i) => self.entries[i].blacklisted,
            None => false,
        }
    }

    /// Records whether the IBAN is blocked, replacing an earlier entry for it.
    pub fn set_blacklisted(&mut self, iban: &str, blocked: bool)
        requires
            old(self).wf(),
        ensures
            final(self).wf(),
            final(self)@ == old(self)@.insert(iban@, blocked),
    {
        let ghost before = self.entries@;
        match self.find(iban) {
            Some(i) => {
                let entry = BlacklistEntry { iban: String::from_str(iban), blacklisted: blocked };
                self.entries.set(i, entry);
                self.contents = Ghost(self.contents@.insert(iban@, blocked));
                proof {
                    assert forall|k: Seq<char>| #[trigger]
                        self.contents@.contains_key(k) implies exists|j: int|
                        0 <= j < self.entries@.len() && (#[trigger] self.entries@[j]).iban@
                            == k by {
                        if k != iban@ {
                            let j = choose|j: int|
                                0 <= j < before.len() && (#[trigger] before[j]).iban@ == k;
                            assert(self.entries@[j] == before[j]);
                        } else {
                            assert(self.entries@[i as int].iban@ == k);
                        }
                    }
                }
            },
            None => {
                let entry = BlacklistEntry { iban: String::from_str(iban), blacklisted: blocked };
                self.entries.push(entry);
                self.contents = Ghost(self.contents@.insert(iban@, blocked));
                proof {
                    let n = before.len() as int;
                    assert(self.entries@[n].iban@ == iban@);
                    assert forall|k: Seq<char>| #[trigger]
                        self.contents@.contains_key(k) implies exists|j: int|
                        0 <= j < self.entries@.len() && (#[trigger] self.entries@[j]).iban@
                            == k by {
                        if k != iban@ {
                            let j = choose|j: int|
                                0 <= j < before.len() && (#[trigger] before[j]).iban@ == k;
                            assert(self.entries@[j] == before[j]);
                        }
                    }
                }
            },
        }
    }
}

/// Applies a blacklist operation named by text ("add" or "remove", in the
/// spellings that `op_of` lists) to the IBAN. An unknown operation changes
/// nothing and is reported.
pub fn blacklist(list: &mut Blacklist, iban: &str, op: &str) -> (r: Result<(), String>)
    requires
        old(list).wf(),
    ensures
        final(list).wf(),
        match op_of(op@) {
            Some(o) => r is Ok && final(list)@ == old(list)@.insert(iban@, o.blocks()),
            None => r == Err::<(), String>(r->Err_0) && r->Err_0@ == UNKNOWN_OPERATION@
                && final(list)@ == old(list)@,
        },
{
    match parse_op(op) {
        Some(o) => {
            list.set_blacklisted(iban, o.is_add());
            Ok(())
        },
        None => Err(String::from_str(UNKNOWN_OPERATION)),
    }
}

/// Whether the IBAN is blocked; an IBAN the blacklist does not mention is not.
pub fn is_blacklisted(list: &Blacklist, iban: &str) -> (r: bool)
    requires
        list.wf(),
    ensures
        r == blocked_in(list@, iban@),
{
    list.is_blacklisted(iban)
}

/// Adding an IBAN twice leaves the blacklist as adding it once does, and so
/// does removing it twice; removing it after adding it leaves it unblocked.
pub proof fn lemma_blacklist_idempotent(m: Map<Seq<char>, bool>, iban: Seq<char>, op: BlacklistOp)
    ensures
        m.insert(iban, op.blocks()).insert(iban, op.blocks()) == m.insert(iban, op.blocks()),
        !blocked_in(
            m.insert(iban, BlacklistOp::Add.blocks()).insert(iban, BlacklistOp::Remove.blocks()),
            iban,
        ),
{
    assert(m.insert(iban, op.blocks()).insert(iban, op.blocks()) =~= m.insert(iban, op.blocks()));
}

/// The outcome of an operation on the store, as reported to a client.
#[derive(Debug)]
pub struct DbResponse {
    pub success: bool,
    pub message: String,
}

} // verus!
