//! The records that the processor keeps: clients' accounts, the deposits and withdrawals that
//! ran, and which of them are under dispute or have had their dispute settled.
use crate::amount::serialize_amount;
use crate::client::{new_client_view, Client, ClientView};
use crate::report::{
    ids_below, report_header, report_row, report_rows, rows_text, same_field_counts,
    u16_to_string, write_csv, csv_plain_text, lemma_report_plain, ReportError,
};
use crate::transaction::Transaction;
use std::collections::{BTreeMap, HashMap, HashSet};
use vstd::prelude::*;

verus! {

broadcast use vstd::std_specs::hash::group_hash_axioms;

/// The mathematical content of [`BankingRecords`].
pub struct RecordsView {
    pub clients: Map<u16, ClientView>,
    pub transactions: Map<u32, Transaction>,
    pub disputed: Set<u32>,
    pub resolved: Set<u32>,
}

impl RecordsView {
    /// Each account is filed under its client's id and is well formed; each transaction is
    /// filed under its id; a transaction under dispute or settled is a known one, and none is
    /// both.
    pub open spec fn wf(self) -> bool {
        &&& forall|k: u16| #[trigger]
            self.clients.contains_key(k) ==> self.clients[k].client == k && self.clients[k].wf()
        &&& forall|k: u32| #[trigger]
            self.transactions.contains_key(k) ==> self.transactions[k].tx == k
                && self.transactions[k].amount@.wf()
        &&& forall|k: u32| #[trigger]
            self.disputed.contains(k) ==> self.transactions.contains_key(k) && !self.resolved.contains(k)
        &&& forall|k: u32| #[trigger] self.resolved.contains(k) ==> self.transactions.contains_key(k)
    }

    /// The account of the client: the one on file, else a new one.
    pub open spec fn client_or_new(self, client_id: u16) -> ClientView {
        if self.clients.contains_key(client_id) {
            self.clients[client_id]
        } else {
            new_client_view(client_id)
        }
    }
}

pub open spec fn empty_records() -> RecordsView {
    RecordsView {
        clients: Map::empty(),
        transactions: Map::empty(),
        disputed: Set::empty(),
        resolved: Set::empty(),
    }
}

pub struct BankingRecords {
    clients: BTreeMap<u16, Client>,
    transactions: HashMap<u32, Transaction>,
    disputed: HashSet<u32>,
    resolved: HashSet<u32>,
}

impl View for BankingRecords {
    type V = RecordsView;

    closed spec fn view(&self) -> RecordsView {
        RecordsView {
            clients: self.clients@.map_values(|c: Client| c@),
            transactions: self.transactions@,
            disputed: self.disputed@,
            resolved: self.resolved@,
        }
    }
}

/// The report row of an account.
fn report_row_of(c: &Client) -> (r: Vec<String>)
    ensures
        r@.map_values(|s: String| s@) == report_row(c@),
{
    let mut row: Vec<String> = Vec::new();
    row.push(u16_to_string(c.client_id()));
    row.push(serialize_amount(c.available()));
    row.push(serialize_amount(c.held()));
    row.push(serialize_amount(c.total()));
    if c.is_locked() {
        row.push("true".to_string());
    } else {
        row.push("false".to_string());
    }
    assert(row@.map_values(|s: String| s@) =~= report_row(c@));
    row
}

/// The report's header row.
fn report_header_row() -> (r: Vec<String>)
    ensures
        r@.map_values(|s: String| s@) == report_header(),
{
    let mut row: Vec<String> = Vec::new();
    row.push("client".to_string());
    row.push("available".to_string());
    row.push("held".to_string());
    row.push("total".to_string());
    row.push("locked".to_string());
    assert(row@.map_values(|s: String| s@) =~= report_header());
    row
}

impl BankingRecords {
    /// The accounts as CSV text: a header row and one row per client, in the order of the
    /// client ids, each amount rounded to four digits after the point; nothing at all where
    /// there is no account.
    pub fn clients_to_csv(&self) -> (r: Result<String, ReportError>)
        ensures
            r matches Ok(s) && s@ == csv_plain_text(report_rows(self@)),
    {
        let mut rows: Vec<Vec<String>> = Vec::new();
        let mut id: u32 = 0;
        while id < 65536
            invariant
                id <= 65536,
                rows_text(rows@) == ids_below(self@, id as nat).map_values(
                    |k: u16| report_row(self@.clients[k]),
                ),
            decreases 65536 - id,
        {
            let key = id as u16;
            let ghost before = rows@;
            match self.clients.get(&key) {
                Some(c) => {
                    assert(self@.clients.contains_key(key));
                    let row = report_row_of(c);
                    rows.push(row);
                    assert(rows_text(rows@) =~= rows_text(before).push(report_row(c@)));
                },
                None => {},
            }
            assert(ids_below(self@, (id + 1) as nat).map_values(
                |k: u16| report_row(self@.clients[k]),
            ) =~= rows_text(rows@));
            id = id + 1;
        }
        let table = if rows.len() == 0 {
            rows
        } else {
            let mut t: Vec<Vec<String>> = Vec::new();
            t.push(report_header_row());
            let ghost tail = rows@;
            t.append(&mut rows);
            assert(rows_text(t@) =~= seq![report_header()] + rows_text(tail));
            t
        };
        assert(rows_text(table@) =~= report_rows(self@));
        assert forall|i: int| 0 <= i < table@.len() implies #[trigger] table@[i]@.len() == 5 by {
            assert(rows_text(table@)[i] == table@[i]@.map_values(|s: String| s@));
            assert(rows_text(table@)[i].len() == 5);
        }
        assert(same_field_counts(table@));
        proof {
            lemma_report_plain(self@);
        }
        match write_csv(&table) {
            Ok(s) => Ok(s),
            Err(_) => Err(ReportError::Write),
        }
    }

    /// Empty records.
    pub fn new() -> (r: BankingRecords)
        ensures
            r@ == empty_records(),
            r@.wf(),
    {
        let r = BankingRecords {
            clients: BTreeMap::new(),
            transactions: HashMap::new(),
            disputed: HashSet::new(),
            resolved: HashSet::new(),
        };
        assert(r@.clients =~= Map::empty());
        r
    }

    /// The transaction with this id, where one ran.
    pub fn get_transaction(&self, tx_id: u32) -> (r: Option<&Transaction>)
        ensures
            r == (if self@.transactions.contains_key(tx_id) {
                Some(&self@.transactions[tx_id])
            } else {
                None
            }),
    {
        self.transactions.get(&tx_id)
    }

    /// Marks a transaction as disputed, where it is a known one whose dispute is not settled.
    pub fn dispute(&mut self, tx_id: u32)
        requires
            old(self)@.wf(),
        ensures
            final(self)@.wf(),
            final(self)@ == (RecordsView {
                disputed: if old(self)@.transactions.contains_key(tx_id) && !old(
                    self,
                )@.resolved.contains(tx_id) {
                    old(self)@.disputed.insert(tx_id)
                } else {
                    old(self)@.disputed
                },
                ..old(self)@
            }),
    {
        if self.transactions.contains_key(&tx_id) && !self.resolved.contains(&tx_id) {
            self.disputed.insert(tx_id);
        }
    }

    pub fn is_disputed(&self, tx_id: u32) -> (r: bool)
        ensures
            r == self@.disputed.contains(tx_id),
    {
        self.disputed.contains(&tx_id)
    }

    /// Settles the dispute of a transaction: where it is under dispute, it no longer is, and
    /// it is marked as settled.
    pub fn resolve(&mut self, tx_id: u32)
        requires
            old(self)@.wf(),
        ensures
            final(self)@.wf(),
            final(self)@ == (RecordsView {
                disputed: old(self)@.disputed.remove(tx_id),
                resolved: if old(self)@.disputed.contains(tx_id) {
                    old(self)@.resolved.insert(tx_id)
                } else {
                    old(self)@.resolved
                },
                ..old(self)@
            }),
    {
        if self.disputed.remove(&tx_id) {
            self.resolved.insert(tx_id);
        }
    }

    pub fn is_resolved(&self, tx_id: u32) -> (r: bool)
        ensures
            r == self@.resolved.contains(tx_id),
    {
        self.resolved.contains(&tx_id)
    }

    /// Files a transaction under its id, replacing any filed there before.
    pub fn set_transaction(&mut self, transaction: Transaction)
        requires
            old(self)@.wf(),
        ensures
            final(self)@.wf(),
            final(self)@ == (RecordsView {
                transactions: old(self)@.transactions.insert(transaction.tx, transaction),
                ..old(self)@
            }),
    {
        transaction.amount.check_wf();
        self.transactions.insert(transaction.tx, transaction);
    }

    /// The client's account, opened (with zero funds) where the client has none yet.
    pub fn get_client(&mut self, client_id: u16) -> (r: &Client)
        requires
            old(self)@.wf(),
        ensures
            final(self)@.wf(),
            final(self)@ == (RecordsView {
                clients: old(self)@.clients.insert(client_id, old(self)@.client_or_new(client_id)),
                ..old(self)@
            }),
            r@ == old(self)@.client_or_new(client_id),
    {
        if !self.clients.contains_key(&client_id) {
            let c = Client::new(client_id);
            self.clients.insert(client_id, c);
            assert(self@.clients =~= old(self)@.clients.insert(client_id, c@));
        } else {
            assert(self@.clients =~= old(self)@.clients.insert(
                client_id,
                old(self)@.clients[client_id],
            ));
        }
        self.clients.get(&client_id).unwrap()
    }

    /// The client's account, where the client has one.
    pub fn client(&self, client_id: u16) -> (r: Option<&Client>)
        ensures
            match r {
                Some(c) => self@.clients.contains_key(client_id) && c@ == self@.clients[client_id],
                None => !self@.clients.contains_key(client_id),
            },
    {
        self.clients.get(&client_id)
    }

    /// Files an account under its client's id, replacing any filed there before.
    pub fn set_client(&mut self, client: Client)
        requires
            old(self)@.wf(),
            client@.wf(),
        ensures
            final(self)@.wf(),
            final(self)@ == (RecordsView {
                clients: old(self)@.clients.insert(client@.client, client@),
                ..old(self)@
            }),
    {
        let id = client.client_id();
        self.clients.insert(id, client);
        assert(self@.clients =~= old(self)@.clients.insert(id, client@));
    }
}

} // verus!
