//! The logical contents of an upload ledger as one byte string, whose digest
//! tells whether two ledgers hold the same.

use vstd::prelude::*;

use crate::digest;
use crate::message;

verus! {

broadcast use vstd::string::group_string_axioms;

/// A value as SQLite stores it. A real number is given by its bits.
#[derive(Debug, PartialEq, Eq)]
pub enum SqlValue {
    Null,
    Integer(i64),
    Real(u64),
    Text(Vec<u8>),
    Blob(Vec<u8>),
}

/// What a stored value is.
pub ghost enum SqlView {
    Null,
    Integer(int),
    Real(int),
    Text(Seq<u8>),
    Blob(Seq<u8>),
}

impl View for SqlValue {
    type V = SqlView;

    open spec fn view(&self) -> SqlView {
        match self {
            SqlValue::Null => SqlView::Null,
            SqlValue::Integer(value) => SqlView::Integer(*value as int),
            SqlValue::Real(bits) => SqlView::Real(*bits as int),
            SqlValue::Text(bytes) => SqlView::Text(bytes@),
            SqlValue::Blob(bytes) => SqlView::Blob(bytes@),
        }
    }
}

/// The number of different eight-byte numbers.
pub open spec fn word_count() -> int {
    0x1_0000_0000_0000_0000
}

/// Whether a stored value has a length and a magnitude that fit in eight bytes.
pub open spec fn storable(value: SqlView) -> bool {
    match value {
        SqlView::Null => true,
        SqlView::Integer(value) => i64::MIN <= value <= i64::MAX,
        SqlView::Real(bits) => 0 <= bits < word_count(),
        SqlView::Text(bytes) => bytes.len() < word_count(),
        SqlView::Blob(bytes) => bytes.len() < word_count(),
    }
}

pub open spec fn row_storable(row: Seq<SqlView>) -> bool {
    forall|i: int| 0 <= i < row.len() ==> storable(#[trigger] row[i])
}

/// Whether every row has so many storable columns.
pub open spec fn rows_storable(rows: Seq<Seq<SqlView>>, columns: nat) -> bool {
    forall|i: int|
        0 <= i < rows.len() ==> (#[trigger] rows[i]).len() == columns && row_storable(rows[i])
}

/// The last bytes of a number, the most significant first.
pub open spec fn big_endian(value: int, count: nat) -> Seq<u8>
    decreases count,
{
    if count == 0 {
        Seq::empty()
    } else {
        big_endian(value / 256, (count - 1) as nat).push((value % 256) as u8)
    }
}

/// A number in eight bytes, the most significant first.
pub open spec fn word(value: int) -> Seq<u8> {
    big_endian(value, 8)
}

/// A signed number as the unsigned one with the same bits.
pub open spec fn two_complement(value: int) -> int {
    if value >= 0 {
        value
    } else {
        value + word_count()
    }
}

pub open spec fn encoded_value(value: SqlView) -> Seq<u8> {
    match value {
        SqlView::Null => seq![0u8],
        SqlView::Integer(value) => seq![1u8] + word(two_complement(value)),
        SqlView::Real(bits) => seq![2u8] + word(bits),
        SqlView::Text(bytes) => seq![3u8] + word(bytes.len() as int) + bytes,
        SqlView::Blob(bytes) => seq![4u8] + word(bytes.len() as int) + bytes,
    }
}

pub open spec fn encoded_columns(row: Seq<SqlView>) -> Seq<u8>
    decreases row.len(),
{
    if row.len() == 0 {
        Seq::empty()
    } else {
        encoded_value(row[0]) + encoded_columns(row.skip(1))
    }
}

pub open spec fn encoded_rows(rows: Seq<Seq<SqlView>>) -> Seq<u8>
    decreases rows.len(),
{
    if rows.len() == 0 {
        Seq::empty()
    } else {
        seq![0xffu8] + encoded_columns(rows[0]) + encoded_rows(rows.skip(1))
    }
}

/// A query and the rows that it returned.
pub open spec fn encoded_query(sql: Seq<char>, rows: Seq<Seq<SqlView>>) -> Seq<u8> {
    let bytes = vstd::utf8::encode_utf8(sql);
    word(bytes.len() as int) + bytes + encoded_rows(rows)
}

/// The query that reads the metadata of a ledger.
pub const METADATA_QUERY: &'static str = r#"
        SELECT singleton, schema_signature, ledger_id, ledger_revision,
               capture_root, destination, authorization_sha256,
               pending_count, in_progress_count, retrying_count,
               completed_count, permanently_failed_count,
               last_success_at_ms, last_failure_at_ms, last_error
        FROM upload_metadata ORDER BY singleton
        "#;

/// The query that reads the jobs of a ledger.
pub const JOBS_QUERY: &'static str = r#"
        SELECT id, artifact_path, filename, idempotency_key, file_size, sha256,
               delivery_binding_sha256, state, attempt_count, next_attempt_at_ms,
               last_http_status, last_error, created_at_ms, updated_at_ms,
               completed_at_ms, last_failure_at_ms, job_revision, requeue_count,
               last_requeued_at_ms
        FROM upload_jobs ORDER BY id
        "#;

/// The query that reads the captures that are older than a ledger.
pub const PREACTIVATION_QUERY: &'static str =
    "SELECT artifact_path FROM upload_preactivation_artifacts ORDER BY artifact_path";

pub const METADATA_COLUMNS: usize = 15;

pub const JOBS_COLUMNS: usize = 19;

pub const PREACTIVATION_COLUMNS: usize = 1;

/// The rows of a ledger, as the three queries return them.
#[derive(Debug)]
pub struct LedgerRows {
    pub metadata: Vec<Vec<SqlValue>>,
    pub jobs: Vec<Vec<SqlValue>>,
    pub preactivation: Vec<Vec<SqlValue>>,
}

pub open spec fn row_view(row: Vec<SqlValue>) -> Seq<SqlView> {
    row@.map_values(|value: SqlValue| value@)
}

pub open spec fn rows_view(rows: Seq<Vec<SqlValue>>) -> Seq<Seq<SqlView>> {
    rows.map_values(|row: Vec<SqlValue>| row_view(row))
}

/// The logical contents of a ledger.
pub ghost struct LedgerContents {
    pub metadata: Seq<Seq<SqlView>>,
    pub jobs: Seq<Seq<SqlView>>,
    pub preactivation: Seq<Seq<SqlView>>,
}

impl LedgerContents {
    pub open spec fn storable(self) -> bool {
        &&& rows_storable(self.metadata, METADATA_COLUMNS as nat)
        &&& rows_storable(self.jobs, JOBS_COLUMNS as nat)
        &&& rows_storable(self.preactivation, PREACTIVATION_COLUMNS as nat)
    }

    pub open spec fn encoded(self) -> Seq<u8> {
        encoded_query(METADATA_QUERY@, self.metadata) + encoded_query(JOBS_QUERY@, self.jobs)
            + encoded_query(PREACTIVATION_QUERY@, self.preactivation)
    }
}

impl View for LedgerRows {
    type V = LedgerContents;

    open spec fn view(&self) -> LedgerContents {
        LedgerContents {
            metadata: rows_view(self.metadata@),
            jobs: rows_view(self.jobs@),
            preactivation: rows_view(self.preactivation@),
        }
    }
}

/// A number in eight bytes, digit by digit of base 256.
proof fn lemma_word_digits(value: int)
    requires
        0 <= value < word_count(),
    ensures
        word(value) == seq![
            (value / 0x100_0000_0000_0000 % 256) as u8,
            (value / 0x1_0000_0000_0000 % 256) as u8,
            (value / 0x100_0000_0000 % 256) as u8,
            (value / 0x1_0000_0000 % 256) as u8,
            (value / 0x100_0000 % 256) as u8,
            (value / 0x1_0000 % 256) as u8,
            (value / 0x100 % 256) as u8,
            (value % 256) as u8,
        ],
{
    let v1 = value / 256;
    let v2 = v1 / 256;
    let v3 = v2 / 256;
    let v4 = v3 / 256;
    let v5 = v4 / 256;
    let v6 = v5 / 256;
    let v7 = v6 / 256;
    assert(v2 == value / 0x1_0000);
    assert(v3 == value / 0x100_0000);
    assert(v4 == value / 0x1_0000_0000);
    assert(v5 == value / 0x100_0000_0000);
    assert(v6 == value / 0x1_0000_0000_0000);
    assert(v7 == value / 0x100_0000_0000_0000);
    let b0 = big_endian(v7 / 256, 0);
    let b1 = big_endian(v7, 1);
    let b2 = big_endian(v6, 2);
    let b3 = big_endian(v5, 3);
    let b4 = big_endian(v4, 4);
    let b5 = big_endian(v3, 5);
    let b6 = big_endian(v2, 6);
    let b7 = big_endian(v1, 7);
    let b8 = big_endian(value, 8);
    assert(b1 == b0.push((v7 % 256) as u8));
    assert(b2 == b1.push((v6 % 256) as u8));
    assert(b3 == b2.push((v5 % 256) as u8));
    assert(b4 == b3.push((v4 % 256) as u8));
    assert(b5 == b4.push((v3 % 256) as u8));
    assert(b6 == b5.push((v2 % 256) as u8));
    assert(b7 == b6.push((v1 % 256) as u8));
    assert(b8 == b7.push((value % 256) as u8));
    assert(b8 =~= seq![
        (v7 % 256) as u8,
        (v6 % 256) as u8,
        (v5 % 256) as u8,
        (v4 % 256) as u8,
        (v3 % 256) as u8,
        (v2 % 256) as u8,
        (v1 % 256) as u8,
        (value % 256) as u8,
    ]);
}

pub(crate) fn push_word(out: &mut Vec<u8>, value: u64)
    ensures
        final(out)@ == old(out)@ + word(value as int),
{
    proof {
        lemma_word_digits(value as int);
    }
    out.push((value / 0x100_0000_0000_0000 % 256) as u8);
    out.push((value / 0x1_0000_0000_0000 % 256) as u8);
    out.push((value / 0x100_0000_0000 % 256) as u8);
    out.push((value / 0x1_0000_0000 % 256) as u8);
    out.push((value / 0x100_0000 % 256) as u8);
    out.push((value / 0x1_0000 % 256) as u8);
    out.push((value / 0x100 % 256) as u8);
    out.push((value % 256) as u8);
    assert(out@ =~= old(out)@ + word(value as int));
}

fn bits_of(value: i64) -> (r: u64)
    ensures
        r == two_complement(value as int),
{
    if value >= 0 {
        value as u64
    } else {
        (value as i128 + 0x1_0000_0000_0000_0000) as u64
    }
}

fn push_value(out: &mut Vec<u8>, value: &SqlValue)
    ensures
        final(out)@ == old(out)@ + encoded_value(value@),
{
    match value {
        SqlValue::Null => out.push(0),
        SqlValue::Integer(value) => {
            out.push(1);
            push_word(out, bits_of(*value));
        },
        SqlValue::Real(bits) => {
            out.push(2);
            push_word(out, *bits);
        },
        SqlValue::Text(bytes) => {
            out.push(3);
            push_word(out, bytes.len() as u64);
            out.extend_from_slice(bytes.as_slice());
        },
        SqlValue::Blob(bytes) => {
            out.push(4);
            push_word(out, bytes.len() as u64);
            out.extend_from_slice(bytes.as_slice());
        },
    }
    assert(out@ =~= old(out)@ + encoded_value(value@));
}

proof fn lemma_columns_push(row: Seq<SqlView>, value: SqlView)
    ensures
        encoded_columns(row.push(value)) == encoded_columns(row) + encoded_value(value),
    decreases row.len(),
{
    if row.len() == 0 {
        assert(row.push(value).skip(1) =~= Seq::<SqlView>::empty());
        assert(encoded_columns(Seq::<SqlView>::empty()) =~= Seq::<u8>::empty());
        assert(encoded_columns(row.push(value)) =~= encoded_value(value));
        assert(encoded_columns(row) =~= Seq::<u8>::empty());
    } else {
        assert(row.push(value).skip(1) =~= row.skip(1).push(value));
        lemma_columns_push(row.skip(1), value);
        assert(encoded_columns(row.push(value)) =~= encoded_columns(row) + encoded_value(value));
    }
}

proof fn lemma_rows_push(rows: Seq<Seq<SqlView>>, row: Seq<SqlView>)
    ensures
        encoded_rows(rows.push(row)) == encoded_rows(rows) + seq![0xffu8] + encoded_columns(row),
    decreases rows.len(),
{
    if rows.len() == 0 {
        assert(rows.push(row).skip(1) =~= Seq::<Seq<SqlView>>::empty());
        assert(encoded_rows(Seq::<Seq<SqlView>>::empty()) =~= Seq::<u8>::empty());
        assert(encoded_rows(rows) =~= Seq::<u8>::empty());
        assert(encoded_rows(rows.push(row)) =~= encoded_rows(rows) + seq![0xffu8]
            + encoded_columns(row));
    } else {
        assert(rows.push(row).skip(1) =~= rows.skip(1).push(row));
        lemma_rows_push(rows.skip(1), row);
        assert(encoded_rows(rows.push(row)) =~= encoded_rows(rows) + seq![0xffu8]
            + encoded_columns(row));
    }
}

fn push_columns(out: &mut Vec<u8>, row: &Vec<SqlValue>)
    ensures
        final(out)@ == old(out)@ + encoded_columns(row_view(*row)),
{
    let ghost start = out@;
    let mut i: usize = 0;
    while i < row.len()
        invariant
            i <= row.len(),
            out@ == start + encoded_columns(row_view(*row).take(i as int)),
        decreases row.len() - i,
    {
        push_value(out, &row[i]);
        proof {
            let view = row_view(*row);
            lemma_columns_push(view.take(i as int), view[i as int]);
            assert(view.take(i + 1) =~= view.take(i as int).push(view[i as int]));
            assert(out@ =~= start + encoded_columns(view.take(i + 1)));
        }
        i = i + 1;
    }
    assert(row_view(*row).take(i as int) =~= row_view(*row));
}

fn push_query(out: &mut Vec<u8>, sql: &str, rows: &Vec<Vec<SqlValue>>)
    ensures
        final(out)@ == old(out)@ + encoded_query(sql@, rows_view(rows@)),
{
    let ghost start = out@;
    let bytes = sql.as_bytes();
    push_word(out, bytes.len() as u64);
    out.extend_from_slice(bytes);
    let ghost header = word(bytes@.len() as int) + bytes@;
    assert(out@ =~= start + header);
    let mut i: usize = 0;
    while i < rows.len()
        invariant
            i <= rows.len(),
            out@ == start + header + encoded_rows(rows_view(rows@).take(i as int)),
        decreases rows.len() - i,
    {
        out.push(0xff);
        push_columns(out, &rows[i]);
        proof {
            let view = rows_view(rows@);
            lemma_rows_push(view.take(i as int), view[i as int]);
            assert(view.take(i + 1) =~= view.take(i as int).push(view[i as int]));
            assert(out@ =~= start + header + encoded_rows(view.take(i + 1)));
        }
        i = i + 1;
    }
    assert(rows_view(rows@).take(i as int) =~= rows_view(rows@));
    assert(out@ =~= start + encoded_query(sql@, rows_view(rows@)));
}

/// The logical contents of a ledger as bytes.
pub fn ledger_content(rows: &LedgerRows) -> (r: Vec<u8>)
    ensures
        r@ == rows@.encoded(),
{
    let mut out: Vec<u8> = Vec::new();
    push_query(&mut out, METADATA_QUERY, &rows.metadata);
    push_query(&mut out, JOBS_QUERY, &rows.jobs);
    push_query(&mut out, PREACTIVATION_QUERY, &rows.preactivation);
    assert(out@ =~= rows@.encoded());
    out
}

/// The digest of the logical contents of a ledger.
pub fn ledger_content_digest(rows: &LedgerRows) -> (r: [u8; 32])
    ensures
        r@ == digest::sha256_digest(rows@.encoded()),
{
    let content = ledger_content(rows);
    digest::sha256(content.as_slice())
}

proof fn lemma_big_endian(a: int, b: int, count: nat)
    requires
        0 <= a < vstd::arithmetic::power::pow(256, count),
        0 <= b < vstd::arithmetic::power::pow(256, count),
    ensures
        big_endian(a, count).len() == count,
        big_endian(a, count) == big_endian(b, count) ==> a == b,
    decreases count,
{
    reveal_with_fuel(vstd::arithmetic::power::pow, 2);
    if count > 0 {
        let less = (count - 1) as nat;
        assert(a / 256 < vstd::arithmetic::power::pow(256, less)) by (nonlinear_arith)
            requires
                0 <= a < 256 * vstd::arithmetic::power::pow(256, less),
        ;
        assert(b / 256 < vstd::arithmetic::power::pow(256, less)) by (nonlinear_arith)
            requires
                0 <= b < 256 * vstd::arithmetic::power::pow(256, less),
        ;
        lemma_big_endian(a / 256, b / 256, less);
        lemma_big_endian(b / 256, a / 256, less);
        if big_endian(a, count) == big_endian(b, count) {
            assert(big_endian(a, count).drop_last() =~= big_endian(a / 256, less));
            assert(big_endian(b, count).drop_last() =~= big_endian(b / 256, less));
            assert(big_endian(a, count).last() == (a % 256) as u8);
            assert(big_endian(b, count).last() == (b % 256) as u8);
        }
    }
}

proof fn lemma_word(a: int, b: int)
    requires
        0 <= a < word_count(),
        0 <= b < word_count(),
    ensures
        word(a).len() == 8,
        word(a) == word(b) ==> a == b,
{
    assert(vstd::arithmetic::power::pow(256, 8) == word_count()) by {
        reveal_with_fuel(vstd::arithmetic::power::pow, 9);
    }
    lemma_big_endian(a, b, 8);
}

/// A word that begins two byte strings is the same in both.
proof fn lemma_word_prefix(a: int, b: int, x: Seq<u8>, y: Seq<u8>)
    requires
        0 <= a < word_count(),
        0 <= b < word_count(),
        word(a) + x == word(b) + y,
    ensures
        a == b,
        x == y,
{
    lemma_word(a, b);
    lemma_word(b, a);
    assert((word(a) + x).take(8) =~= word(a));
    assert((word(b) + y).take(8) =~= word(b));
    assert((word(a) + x).skip(8) =~= x);
    assert((word(b) + y).skip(8) =~= y);
}

pub proof fn lemma_block_prefix(a: Seq<u8>, b: Seq<u8>, x: Seq<u8>, y: Seq<u8>)
    requires
        a.len() < word_count(),
        b.len() < word_count(),
        word(a.len() as int) + a + x == word(b.len() as int) + b + y,
    ensures
        a == b,
        x == y,
{
    assert(word(a.len() as int) + a + x =~= word(a.len() as int) + (a + x));
    assert(word(b.len() as int) + b + y =~= word(b.len() as int) + (b + y));
    lemma_word_prefix(a.len() as int, b.len() as int, a + x, b + y);
    assert((a + x).take(a.len() as int) =~= a);
    assert((b + y).take(b.len() as int) =~= b);
    assert((a + x).skip(a.len() as int) =~= x);
    assert((b + y).skip(b.len() as int) =~= y);
}

/// An encoded value shows where it ends.
proof fn lemma_value_prefix(a: SqlView, b: SqlView, x: Seq<u8>, y: Seq<u8>)
    requires
        storable(a),
        storable(b),
        encoded_value(a) + x == encoded_value(b) + y,
    ensures
        a == b,
        x == y,
{
    let left = encoded_value(a) + x;
    let right = encoded_value(b) + y;
    assert(left[0] == encoded_value(a)[0]);
    assert(right[0] == encoded_value(b)[0]);
    match (a, b) {
        (SqlView::Null, SqlView::Null) => {
            assert(left.skip(1) =~= x);
            assert(right.skip(1) =~= y);
        },
        (SqlView::Integer(i), SqlView::Integer(j)) => {
            assert(left.skip(1) =~= word(two_complement(i)) + x);
            assert(right.skip(1) =~= word(two_complement(j)) + y);
            lemma_word_prefix(two_complement(i), two_complement(j), x, y);
        },
        (SqlView::Real(i), SqlView::Real(j)) => {
            assert(left.skip(1) =~= word(i) + x);
            assert(right.skip(1) =~= word(j) + y);
            lemma_word_prefix(i, j, x, y);
        },
        (SqlView::Text(s), SqlView::Text(t)) => {
            assert(left.skip(1) =~= word(s.len() as int) + s + x);
            assert(right.skip(1) =~= word(t.len() as int) + t + y);
            lemma_block_prefix(s, t, x, y);
        },
        (SqlView::Blob(s), SqlView::Blob(t)) => {
            assert(left.skip(1) =~= word(s.len() as int) + s + x);
            assert(right.skip(1) =~= word(t.len() as int) + t + y);
            lemma_block_prefix(s, t, x, y);
        },
        _ => {},
    }
}

proof fn lemma_columns_prefix(a: Seq<SqlView>, b: Seq<SqlView>, x: Seq<u8>, y: Seq<u8>)
    requires
        a.len() == b.len(),
        row_storable(a),
        row_storable(b),
        encoded_columns(a) + x == encoded_columns(b) + y,
    ensures
        a == b,
        x == y,
    decreases a.len(),
{
    if a.len() == 0 {
        assert(encoded_columns(a) + x =~= x);
        assert(encoded_columns(b) + y =~= y);
        assert(a =~= b);
    } else {
        let rest_a = encoded_columns(a.skip(1)) + x;
        let rest_b = encoded_columns(b.skip(1)) + y;
        assert(encoded_columns(a) + x =~= encoded_value(a[0]) + rest_a);
        assert(encoded_columns(b) + y =~= encoded_value(b[0]) + rest_b);
        assert(storable(a[0]) && storable(b[0]));
        lemma_value_prefix(a[0], b[0], rest_a, rest_b);
        assert forall|i: int| 0 <= i < a.skip(1).len() implies storable(
            #[trigger] a.skip(1)[i],
        ) by {
            assert(storable(a[i + 1]));
        }
        assert forall|i: int| 0 <= i < b.skip(1).len() implies storable(
            #[trigger] b.skip(1)[i],
        ) by {
            assert(storable(b[i + 1]));
        }
        lemma_columns_prefix(a.skip(1), b.skip(1), x, y);
        assert(a =~= seq![a[0]] + a.skip(1));
        assert(b =~= seq![b[0]] + b.skip(1));
    }
}

/// Encoded rows show where they end, where no row marker follows them.
proof fn lemma_rows_prefix(
    a: Seq<Seq<SqlView>>,
    b: Seq<Seq<SqlView>>,
    columns: nat,
    x: Seq<u8>,
    y: Seq<u8>,
)
    requires
        rows_storable(a, columns),
        rows_storable(b, columns),
        x.len() > 0 ==> x[0] != 0xff,
        y.len() > 0 ==> y[0] != 0xff,
        encoded_rows(a) + x == encoded_rows(b) + y,
    ensures
        a == b,
        x == y,
    decreases a.len(),
{
    let left = encoded_rows(a) + x;
    let right = encoded_rows(b) + y;
    if a.len() == 0 {
        assert(left =~= x);
        if b.len() > 0 {
            assert(right[0] == 0xff);
        }
        assert(right =~= y);
        assert(a =~= b);
    } else {
        assert(left[0] == 0xff);
        if b.len() == 0 {
            assert(right =~= y);
        }
        let rest_a = encoded_rows(a.skip(1)) + x;
        let rest_b = encoded_rows(b.skip(1)) + y;
        assert(left.skip(1) =~= encoded_columns(a[0]) + rest_a);
        assert(right.skip(1) =~= encoded_columns(b[0]) + rest_b);
        lemma_columns_prefix(a[0], b[0], rest_a, rest_b);
        assert forall|i: int| 0 <= i < a.skip(1).len() implies (
        #[trigger] a.skip(1)[i]).len() == columns && row_storable(a.skip(1)[i]) by {
            assert(a[i + 1].len() == columns);
        }
        assert forall|i: int| 0 <= i < b.skip(1).len() implies (
        #[trigger] b.skip(1)[i]).len() == columns && row_storable(b.skip(1)[i]) by {
            assert(b[i + 1].len() == columns);
        }
        lemma_rows_prefix(a.skip(1), b.skip(1), columns, x, y);
        assert(a =~= seq![a[0]] + a.skip(1));
        assert(b =~= seq![b[0]] + b.skip(1));
    }
}

/// A text takes at most four bytes for each character.
proof fn lemma_utf8_bound(s: Seq<char>)
    ensures
        vstd::utf8::encode_utf8(s).len() <= 4 * s.len(),
    decreases s.len(),
{
    if s.len() > 0 {
        lemma_utf8_bound(s.drop_last());
        message::lemma_utf8_len_push(s.drop_last(), s.last());
        assert(s.drop_last().push(s.last()) =~= s);
    }
}

/// A query's encoding does not begin with a row marker.
proof fn lemma_query_head(sql: Seq<char>, rows: Seq<Seq<SqlView>>)
    requires
        sql.len() < 0x1_0000,
    ensures
        encoded_query(sql, rows).len() > 0,
        encoded_query(sql, rows)[0] != 0xff,
{
    lemma_utf8_bound(sql);
    let length = vstd::utf8::encode_utf8(sql).len() as int;
    lemma_word(length, length);
    reveal_with_fuel(big_endian, 9);
    assert(encoded_query(sql, rows)[0] == word(length)[0]);
    assert(word(length)[0] == 0);
}

proof fn lemma_query_prefix(
    sql: Seq<char>,
    a: Seq<Seq<SqlView>>,
    b: Seq<Seq<SqlView>>,
    columns: nat,
    x: Seq<u8>,
    y: Seq<u8>,
)
    requires
        rows_storable(a, columns),
        rows_storable(b, columns),
        x.len() > 0 ==> x[0] != 0xff,
        y.len() > 0 ==> y[0] != 0xff,
        encoded_query(sql, a) + x == encoded_query(sql, b) + y,
    ensures
        a == b,
        x == y,
{
    let bytes = vstd::utf8::encode_utf8(sql);
    let header = word(bytes.len() as int) + bytes;
    assert((encoded_query(sql, a) + x).skip(header.len() as int) =~= encoded_rows(a) + x);
    assert((encoded_query(sql, b) + y).skip(header.len() as int) =~= encoded_rows(b) + y);
    lemma_rows_prefix(a, b, columns, x, y);
}

proof fn lemma_query_lengths()
    ensures
        JOBS_QUERY@.len() < 0x1_0000,
        PREACTIVATION_QUERY@.len() < 0x1_0000,
{
    reveal_strlit(
        r#"
        SELECT id, artifact_path, filename, idempotency_key, file_size, sha256,
               delivery_binding_sha256, state, attempt_count, next_attempt_at_ms,
               last_http_status, last_error, created_at_ms, updated_at_ms,
               completed_at_ms, last_failure_at_ms, job_revision, requeue_count,
               last_requeued_at_ms
        FROM upload_jobs ORDER BY id
        "#,
    );
    reveal_strlit(
        "SELECT artifact_path FROM upload_preactivation_artifacts ORDER BY artifact_path",
    );
}

/// Two ledgers with the same bytes hold the same: nothing of a ledger is lost in
/// its byte string, whose digest therefore stands for all of it.
pub proof fn law_content_is_injective(a: LedgerContents, b: LedgerContents)
    requires
        a.storable(),
        b.storable(),
        a.encoded() == b.encoded(),
    ensures
        a == b,
{
    lemma_query_lengths();
    lemma_query_head(JOBS_QUERY@, a.jobs);
    lemma_query_head(JOBS_QUERY@, b.jobs);
    lemma_query_head(PREACTIVATION_QUERY@, a.preactivation);
    lemma_query_head(PREACTIVATION_QUERY@, b.preactivation);
    let last_a = encoded_query(PREACTIVATION_QUERY@, a.preactivation);
    let last_b = encoded_query(PREACTIVATION_QUERY@, b.preactivation);
    let rest_a = encoded_query(JOBS_QUERY@, a.jobs) + last_a;
    let rest_b = encoded_query(JOBS_QUERY@, b.jobs) + last_b;
    assert(a.encoded() =~= encoded_query(METADATA_QUERY@, a.metadata) + rest_a);
    assert(b.encoded() =~= encoded_query(METADATA_QUERY@, b.metadata) + rest_b);
    lemma_query_prefix(
        METADATA_QUERY@,
        a.metadata,
        b.metadata,
        METADATA_COLUMNS as nat,
        rest_a,
        rest_b,
    );
    lemma_query_prefix(JOBS_QUERY@, a.jobs, b.jobs, JOBS_COLUMNS as nat, last_a, last_b);
    let end = Seq::<u8>::empty();
    assert(last_a + end =~= last_a);
    assert(last_b + end =~= last_b);
    lemma_query_prefix(
        PREACTIVATION_QUERY@,
        a.preactivation,
        b.preactivation,
        PREACTIVATION_COLUMNS as nat,
        end,
        end,
    );
}

/// A small number in eight bytes is seven zeros and the number.
pub proof fn lemma_word_bytes(value: int)
    ensures
        word(value).len() == 8,
        0 <= value < 256 ==> (forall|i: int| 0 <= i < 7 ==> #[trigger] word(value)[i] == 0) && word(
            value,
        )[7] == value,
{
    reveal_with_fuel(big_endian, 9);
}

proof fn lemma_one_more_row(rows: Seq<Seq<SqlView>>, row: Seq<SqlView>)
    ensures
        encoded_rows(rows.push(row)) == encoded_rows(rows) + (seq![0xffu8] + encoded_columns(row)),
    decreases rows.len(),
{
    let more = rows.push(row);
    if rows.len() == 0 {
        assert(more.skip(1) =~= Seq::<Seq<SqlView>>::empty());
        assert(encoded_rows(more.skip(1)) =~= Seq::<u8>::empty());
        assert(encoded_rows(more) =~= encoded_rows(rows) + (seq![0xffu8] + encoded_columns(row)));
    } else {
        assert(more.skip(1) =~= rows.skip(1).push(row));
        lemma_one_more_row(rows.skip(1), row);
        assert(encoded_rows(more) =~= encoded_rows(rows) + (seq![0xffu8] + encoded_columns(row)));
    }
}

/// A row of one value.
pub open spec fn is_single(row: Vec<SqlValue>, value: SqlValue) -> bool {
    row@ == seq![value]
}

/// One more capture that is older than the ledger adds to its contents a mark and its
/// value: a tag for its kind, and then its number in eight bytes, or its length in eight
/// bytes and its bytes.
pub proof fn law_contents_grow_by_what_is_added(
    rows: &LedgerRows,
    more: &LedgerRows,
    row: Vec<SqlValue>,
    value: SqlValue,
    r: Vec<u8>,
    s: Vec<u8>,
)
    requires
        call_ensures(ledger_content, (rows,), r),
        call_ensures(ledger_content, (more,), s),
        more.metadata@ == rows.metadata@,
        more.jobs@ == rows.jobs@,
        more.preactivation@ == rows.preactivation@.push(row),
        is_single(row, value),
    ensures
        value is Null ==> s@ == r@ + seq![255u8, 0u8],
        value matches SqlValue::Text(bytes) ==> (bytes@.len() < 256 ==> s@ == r@ + (seq![
            255u8,
            3u8,
            0u8,
            0u8,
            0u8,
            0u8,
            0u8,
            0u8,
            0u8,
            bytes@.len() as u8,
        ] + bytes@)),
        value matches SqlValue::Blob(bytes) ==> (bytes@.len() < 256 ==> s@ == r@ + (seq![
            255u8,
            4u8,
            0u8,
            0u8,
            0u8,
            0u8,
            0u8,
            0u8,
            0u8,
            bytes@.len() as u8,
        ] + bytes@)),
        value matches SqlValue::Integer(number) ==> (0 <= number < 256 ==> s@ == r@ + seq![
            255u8,
            1u8,
            0u8,
            0u8,
            0u8,
            0u8,
            0u8,
            0u8,
            0u8,
            number as u8,
        ]),
{
    let before = rows_view(rows.preactivation@);
    assert(rows_view(more.preactivation@) =~= before.push(row_view(row)));
    lemma_one_more_row(before, row_view(row));
    assert(row_view(row) =~= seq![value@]);
    assert(seq![value@].skip(1) =~= Seq::<SqlView>::empty());
    assert(encoded_columns(seq![value@].skip(1)) =~= Seq::<u8>::empty());
    assert(encoded_columns(row_view(row)) =~= encoded_value(value@));
    let added = seq![0xffu8] + encoded_value(value@);
    assert(s@ =~= r@ + added);
    match value {
        SqlValue::Text(bytes) => {
            lemma_word_bytes(bytes@.len() as int);
            if bytes@.len() < 256 {
                assert(added =~= seq![
                    255u8,
                    3u8,
                    0u8,
                    0u8,
                    0u8,
                    0u8,
                    0u8,
                    0u8,
                    0u8,
                    bytes@.len() as u8,
                ] + bytes@);
            }
        },
        SqlValue::Blob(bytes) => {
            lemma_word_bytes(bytes@.len() as int);
            if bytes@.len() < 256 {
                assert(added =~= seq![
                    255u8,
                    4u8,
                    0u8,
                    0u8,
                    0u8,
                    0u8,
                    0u8,
                    0u8,
                    0u8,
                    bytes@.len() as u8,
                ] + bytes@);
            }
        },
        SqlValue::Integer(number) => {
            lemma_word_bytes(number as int);
            if 0 <= number < 256 {
                assert(added =~= seq![
                    255u8,
                    1u8,
                    0u8,
                    0u8,
                    0u8,
                    0u8,
                    0u8,
                    0u8,
                    0u8,
                    number as u8,
                ]);
            }
        },
        SqlValue::Null => {
            assert(added =~= seq![255u8, 0u8]);
        },
        SqlValue::Real(_) => {},
    }
}

/// A ledger is known by the digest of its contents.
pub proof fn law_ledger_is_known_by_its_contents(rows: &LedgerRows, r: Vec<u8>, digest: [u8; 32])
    requires
        call_ensures(ledger_content, (rows,), r),
        call_ensures(ledger_content_digest, (rows,), digest),
    ensures
        digest@ == digest::sha256_digest(r@),
{
}

} // verus!
