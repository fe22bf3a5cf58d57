//! The account report: one CSV row per client, in the order of the client ids, after a
//! header row.
use crate::amount::{decimal_text, digit_char, nat_digits, round_spec, AmountModel, AMOUNT_DP};
use crate::bankrecords::RecordsView;
use crate::client::ClientView;
use vstd::prelude::*;

verus! {

/// The text that `csv::Writer` produces for the given records (each a sequence of fields),
/// with its default settings.
pub uninterp spec fn csv_encoding(rows: Seq<Seq<Seq<char>>>) -> Seq<char>;


/// Why the report could not be written.
#[derive(Clone, Copy, Debug, PartialEq, Eq, Structural)]
pub enum ReportError {
    Write,
}

/// The ids below `n` that have an account, in increasing order.
pub open spec fn ids_below(v: RecordsView, n: nat) -> Seq<u16>
    decreases n,
{
    if n == 0 {
        Seq::empty()
    } else {
        let earlier = ids_below(v, (n - 1) as nat);
        if v.clients.contains_key((n - 1) as u16) {
            earlier.push((n - 1) as u16)
        } else {
            earlier
        }
    }
}

/// All the ids that have an account, in increasing order.
pub open spec fn client_ids(v: RecordsView) -> Seq<u16> {
    ids_below(v, 65536)
}

/// An amount in the report: rounded to four digits after the point.
pub open spec fn amount_text(a: AmountModel) -> Seq<char> {
    let r = round_spec(a, AMOUNT_DP as nat);
    decimal_text(r.mantissa, r.scale)
}

pub open spec fn bool_text(b: bool) -> Seq<char> {
    if b {
        "true"@
    } else {
        "false"@
    }
}

pub open spec fn report_header() -> Seq<Seq<char>> {
    seq!["client"@, "available"@, "held"@, "total"@, "locked"@]
}

pub open spec fn report_row(c: ClientView) -> Seq<Seq<char>> {
    seq![
        nat_digits(c.client as nat),
        amount_text(c.available),
        amount_text(c.held),
        amount_text(c.total),
        bool_text(c.locked),
    ]
}

/// The report's rows: none where there is no account, else the header and one row per
/// account in the order of the ids.
pub open spec fn report_rows(v: RecordsView) -> Seq<Seq<Seq<char>>> {
    let ids = client_ids(v);
    if ids.len() == 0 {
        Seq::empty()
    } else {
        seq![report_header()] + ids.map_values(|k: u16| report_row(v.clients[k]))
    }
}

/// The fields of rows of strings.
pub open spec fn rows_text(rows: Seq<Vec<String>>) -> Seq<Seq<Seq<char>>> {
    rows.map_values(|r: Vec<String>| r@.map_values(|s: String| s@))
}

/// The digits of a number are plain characters, and there is at least one.
pub proof fn lemma_digits_plain(n: nat)
    ensures
        nat_digits(n).len() >= 1,
        forall|i: int| 0 <= i < nat_digits(n).len() ==> 48 <= #[trigger] nat_digits(n)[i] as int <= 57,
    decreases n,
{
    if n >= 10 {
        lemma_digits_plain(n / 10);
        assert(n % 10 < 10);
    }
}

/// The text of a decimal holds only digits, `-` and `.`, and is not empty.
pub proof fn lemma_decimal_text_plain(m: int, s: nat)
    ensures
        decimal_text(m, s).len() >= 1,
        plain_field(decimal_text(m, s)),
{
    let mag: nat = if m < 0 {
        (-m) as nat
    } else {
        m as nat
    };
    if mag != 0 {
        lemma_digits_plain(mag);
    }
    let t = decimal_text(m, s);
    assert forall|i: int| 0 <= i < t.len() implies plain_char(#[trigger] t[i]) by {
        let d = if mag == 0 {
            Seq::<char>::empty()
        } else {
            nat_digits(mag)
        };
        assert(forall|k: int| 0 <= k < d.len() ==> 48 <= #[trigger] d[k] as int <= 57);
        let padded = if d.len() < s {
            Seq::new((s - d.len()) as nat, |i: int| '0') + d
        } else {
            d
        };
        assert(forall|k: int| 0 <= k < padded.len() ==> 48 <= #[trigger] padded[k] as int <= 57);
    }
}

/// The ids below `n` with an account, in strictly increasing order, and all of them.
pub proof fn lemma_ids_below(v: RecordsView, n: nat)
    requires
        n <= 65536,
    ensures
        forall|i: int|
            0 <= i < ids_below(v, n).len() ==> (#[trigger] ids_below(v, n)[i] as nat) < n
                && v.clients.contains_key(ids_below(v, n)[i]),
        forall|i: int, j: int|
            0 <= i < j < ids_below(v, n).len() ==> #[trigger] ids_below(v, n)[i]
                < #[trigger] ids_below(v, n)[j],
        forall|k: u16| (k as nat) < n && #[trigger] v.clients.contains_key(k) ==> ids_below(
            v,
            n,
        ).contains(k),
    decreases n,
{
    if n > 0 {
        let m = (n - 1) as nat;
        lemma_ids_below(v, m);
        let e = ids_below(v, m);
        let s = ids_below(v, n);
        assert forall|k: u16| (k as nat) < n && #[trigger] v.clients.contains_key(k) implies s.contains(
            k,
        ) by {
            if (k as nat) < m {
                let i = choose|i: int| 0 <= i < e.len() && e[i] == k;
                assert(s[i] == k);
            } else {
                assert(k == m as u16);
                assert(s[s.len() - 1] == k);
            }
        }
    }
}

/// The report lists every client with an account once, in increasing order of id, under a
/// header naming the columns `client`, `available`, `held`, `total`, `locked`; each row holds,
/// in that order, the client's id, the text of its available, held and total funds, and
/// whether it is locked.
pub proof fn law_report_columns(v: RecordsView)
    requires
        v.wf(),
    ensures
        forall|i: int|
            0 <= i < client_ids(v).len() ==> v.clients.contains_key(#[trigger] client_ids(v)[i]),
        forall|i: int, j: int|
            0 <= i < j < client_ids(v).len() ==> #[trigger] client_ids(v)[i]
                < #[trigger] client_ids(v)[j],
        forall|k: u16| #[trigger] v.clients.contains_key(k) ==> client_ids(v).contains(k),
        report_rows(v).len() == if client_ids(v).len() == 0 {
            0
        } else {
            client_ids(v).len() + 1
        },
        client_ids(v).len() > 0 ==> report_rows(v)[0] == seq![
            "client"@,
            "available"@,
            "held"@,
            "total"@,
            "locked"@,
        ],
        forall|i: int|
            0 <= i < client_ids(v).len() ==> {
                let row = #[trigger] report_rows(v)[i + 1];
                let c = v.clients[client_ids(v)[i]];
                &&& row.len() == 5
                &&& row[0] == nat_digits(client_ids(v)[i] as nat)
                &&& row[1] == amount_text(c.available)
                &&& row[2] == amount_text(c.held)
                &&& row[3] == amount_text(c.total)
                &&& row[4] == bool_text(c.locked)
            },
{
    lemma_ids_below(v, 65536);
    let ids = client_ids(v);
    assert forall|k: u16| #[trigger] v.clients.contains_key(k) implies ids.contains(k) by {
        assert((k as nat) < 65536);
    }
    assert forall|i: int| 0 <= i < ids.len() implies {
        let row = #[trigger] report_rows(v)[i + 1];
        let c = v.clients[ids[i]];
        &&& row.len() == 5
        &&& row[0] == nat_digits(ids[i] as nat)
        &&& row[1] == amount_text(c.available)
        &&& row[2] == amount_text(c.held)
        &&& row[3] == amount_text(c.total)
        &&& row[4] == bool_text(c.locked)
    } by {
        assert(report_rows(v)[i + 1] == report_row(v.clients[ids[i]]));
        assert(v.clients.contains_key(ids[i]));
    }
}

/// The report's rows are plain: no field needs quoting and every record starts with text.
pub proof fn lemma_report_plain(v: RecordsView)
    ensures
        plain_rows(report_rows(v)),
{
    reveal_strlit("client");
    reveal_strlit("available");
    reveal_strlit("held");
    reveal_strlit("total");
    reveal_strlit("locked");
    reveal_strlit("true");
    reveal_strlit("false");
    let rows = report_rows(v);
    let ids = client_ids(v);
    assert forall|r: int| 0 <= r < rows.len() implies (#[trigger] rows[r]).len() >= 1
        && rows[r][0].len() >= 1 && forall|j: int|
        0 <= j < rows[r].len() ==> plain_field(#[trigger] rows[r][j]) by {
        if r == 0 {
            assert(rows[r] == report_header());
            assert(plain_field("client"@));
            assert(plain_field("available"@));
            assert(plain_field("held"@));
            assert(plain_field("total"@));
            assert(plain_field("locked"@));
        } else {
            let c = v.clients[ids[r - 1]];
            assert(rows[r] == report_row(c));
            lemma_digits_plain(c.client as nat);
            let a = round_spec(c.available, AMOUNT_DP as nat);
            let h = round_spec(c.held, AMOUNT_DP as nat);
            let t = round_spec(c.total, AMOUNT_DP as nat);
            lemma_decimal_text_plain(a.mantissa, a.scale);
            lemma_decimal_text_plain(h.mantissa, h.scale);
            lemma_decimal_text_plain(t.mantissa, t.scale);
            assert(plain_field(nat_digits(c.client as nat)));
            assert(plain_field("true"@));
            assert(plain_field("false"@));
            assert(plain_field(bool_text(c.locked)));
        }
    }
}

#[verifier::external_type_specification]
#[verifier::external_body]
pub struct ExCsvError(csv::Error);

/// A character that the CSV writer never quotes: not the delimiter `,`, the quote `"`,
/// `\r` or `\n`.
pub open spec fn plain_char(c: char) -> bool {
    c as int != 44 && c as int != 34 && c as int != 13 && c as int != 10
}

pub open spec fn plain_field(f: Seq<char>) -> bool {
    forall|i: int| 0 <= i < f.len() ==> plain_char(#[trigger] f[i])
}

/// Every record has a first field that is not empty, and no field holds a character that
/// the CSV writer quotes.
pub open spec fn plain_rows(rows: Seq<Seq<Seq<char>>>) -> bool {
    forall|r: int|
        0 <= r < rows.len() ==> (#[trigger] rows[r]).len() >= 1 && rows[r][0].len() >= 1
            && forall|j: int| 0 <= j < rows[r].len() ==> plain_field(#[trigger] rows[r][j])
}

/// The fields of a record joined by `,`.
pub open spec fn csv_record_text(fields: Seq<Seq<char>>) -> Seq<char>
    decreases fields.len(),
{
    if fields.len() == 0 {
        Seq::empty()
    } else if fields.len() == 1 {
        fields[0]
    } else {
        csv_record_text(fields.drop_last()) + seq![','] + fields.last()
    }
}

/// The records, each followed by `\n`.
pub open spec fn csv_plain_text(rows: Seq<Seq<Seq<char>>>) -> Seq<char>
    decreases rows.len(),
{
    if rows.len() == 0 {
        Seq::empty()
    } else {
        csv_plain_text(rows.drop_last()) + csv_record_text(rows.last()) + seq!['\n']
    }
}

/// All rows have the same number of fields.
pub open spec fn same_field_counts(rows: Seq<Vec<String>>) -> bool {
    forall|i: int, j: int|
        0 <= i < rows.len() && 0 <= j < rows.len() ==> #[trigger] rows[i]@.len()
            == #[trigger] rows[j]@.len()
}

/// Writes the rows with a `csv::Writer` (default settings) into memory, through
/// `Writer::write_record` and `Writer::into_inner`; the text it gives is named
/// [`csv_encoding`]. An error of `into_inner` is passed on as the `csv::Error` it holds.
/// In the source, writing fails only where a record's field count differs from the first
/// record's (`UnequalLengths`, the writer not being flexible by default) or where the
/// underlying writer fails, and writing into a `Vec<u8>` does not fail: so where all rows
/// have the same number of fields the call succeeds. With the default settings (delimiter
/// `,`, terminator `\n`, quoting where necessary), a field with none of `,`, `"`, `\r`,
/// `\n` is written as it is, the fields of a record are joined by `,`, and each record
/// that has some text is followed by `\n` (`csv_core::Writer::field`, `delimiter`,
/// `terminator`).
#[verifier::external_body]
pub(crate) fn write_csv(rows: &Vec<Vec<String>>) -> (r: Result<String, csv::Error>)
    ensures
        r matches Ok(s) ==> s@ == csv_encoding(rows_text(rows@)),
        same_field_counts(rows@) ==> r is Ok,
        r matches Ok(s) ==> (plain_rows(rows_text(rows@)) ==> s@ == csv_plain_text(
            rows_text(rows@),
        )),
{
    let mut writer = csv::Writer::from_writer(Vec::new());
    for row in rows.iter() {
        writer.write_record(row)?;
    }
    let bytes = match writer.into_inner() {
        Ok(b) => b,
        Err(e) => return Err(csv::Error::from(e.into_error())),
    };
    Ok(String::from_utf8_lossy(&bytes).into_owned())
}

/// Calls `u16::to_string`, which gives the decimal digits of `n` without leading zeros.
#[verifier::external_body]
pub(crate) fn u16_to_string(n: u16) -> (r: String)
    ensures
        r@ == nat_digits(n as nat),
{
    n.to_string()
}

} // verus!
