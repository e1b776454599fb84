//! The CSV sink: the daily file's name, its header line and its rows.
//!
//! Dates and timestamps are written by `chrono` and records by `csv`. What
//! those crates return is taken on trust, under the names declared below;
//! everything built from their results is proved.

use crate::report::{
    anonymous_operation, client_name_key, client_version_key, operation_name_key, report_of,
    text_or, unknown_client, Report, ReportView, Timestamp,
};
use crate::request::{text_attribute, CoprocessorRequest};
use vstd::prelude::*;

verus! {

/// The text that `chrono` writes for the UTC instant `secs` seconds and
/// `nanos` nanoseconds after the epoch under the strftime `pattern`; `None`
/// where the instant is outside `chrono`'s range or the pattern is not valid.
pub uninterp spec fn formatted_utc(secs: int, nanos: int, pattern: Seq<char>) -> Option<Seq<char>>;

/// The RFC 3339 text that `chrono` writes for the UTC instant `secs` seconds
/// and `nanos` nanoseconds after the epoch; `None` where the instant is
/// outside `chrono`'s range.
pub uninterp spec fn rfc3339_utc(secs: int, nanos: int) -> Option<Seq<char>>;

/// The bytes that a `csv` writer with default settings gives for the record
/// made of these six values, terminator included; `None` where it reports an
/// error.
pub uninterp spec fn serialized_record(
    id: Seq<char>,
    timestamp: Seq<char>,
    operation_name: Seq<char>,
    client_name: Seq<char>,
    client_version: Seq<char>,
    status_code: int,
) -> Option<Seq<u8>>;

/// The bytes that a `csv` writer with default settings gives for the record
/// made of these fields, terminator included; `None` where it reports an
/// error.
pub uninterp spec fn written_record(fields: Seq<Seq<char>>) -> Option<Seq<u8>>;

/// The view of a text that may be missing.
pub open spec fn text_of(text: Option<String>) -> Option<Seq<char>> {
    match text {
        Some(s) => Some(s@),
        None => None,
    }
}

/// The view of bytes that may be missing.
pub open spec fn bytes_of(bytes: Option<Vec<u8>>) -> Option<Seq<u8>> {
    match bytes {
        Some(b) => Some(b@),
        None => None,
    }
}

/// The views of a list of texts.
pub open spec fn texts_of(texts: Seq<String>) -> Seq<Seq<char>> {
    texts.map_values(|s: String| s@)
}

/// A field made of lower-case ASCII letters and underscores, and at least one
/// of them: CSV writes such a field as it stands.
pub open spec fn plain_field(field: Seq<char>) -> bool {
    &&& field.len() > 0
    &&& forall|i: int|
        0 <= i < field.len() ==> ('a' <= #[trigger] field[i] <= 'z' || field[i] == '_')
}

/// The line of a record of plain fields: the fields with a comma between
/// each two, and a line feed at the end.
pub open spec fn plain_line(fields: Seq<Seq<char>>) -> Seq<u8>
    decreases fields.len(),
{
    if fields.len() == 0 {
        seq![10u8]
    } else if fields.len() == 1 {
        fields[0].map_values(|c: char| c as u8) + seq![10u8]
    } else {
        fields[0].map_values(|c: char| c as u8) + seq![44u8] + plain_line(fields.drop_first())
    }
}

/// `chrono::DateTime::from_timestamp` followed by `DateTime::format` with
/// `pattern`, written out with `DelayedFormat::write_to`. Trusted: the result
/// is the text named `formatted_utc`, and `None` exactly where that is `None`.
#[verifier::external_body]
fn format_utc(secs: i64, nanos: u32, pattern: &str) -> (text: Option<String>)
    ensures
        text_of(text) == formatted_utc(secs as int, nanos as int, pattern@),
{
    let instant = chrono::DateTime::from_timestamp(secs, nanos)?;
    let mut text = String::new();
    instant.format(pattern).write_to(&mut text).ok()?;
    Some(text)
}

/// `chrono::DateTime::from_timestamp` followed by `DateTime::to_rfc3339`.
/// Trusted: the result is the text named `rfc3339_utc`, and `None` exactly
/// where that is `None`.
#[verifier::external_body]
fn to_rfc3339(secs: i64, nanos: u32) -> (text: Option<String>)
    ensures
        text_of(text) == rfc3339_utc(secs as int, nanos as int),
{
    let instant = chrono::DateTime::from_timestamp(secs, nanos)?;
    Some(instant.to_rfc3339())
}

/// `csv::Writer::serialize` on the tuple of the six values, with a writer
/// over an empty byte vector that is then taken back with `into_inner`.
/// Trusted: the result is the bytes named `serialized_record`, and `None`
/// exactly where that is `None`.
#[verifier::external_body]
fn serialize_record(
    id: &String,
    timestamp: &String,
    operation_name: &String,
    client_name: &String,
    client_version: &String,
    status_code: u16,
) -> (bytes: Option<Vec<u8>>)
    ensures
        bytes_of(bytes) == serialized_record(
            id@,
            timestamp@,
            operation_name@,
            client_name@,
            client_version@,
            status_code as int,
        ),
{
    let mut writer = csv::Writer::from_writer(Vec::new());
    writer.serialize(
        (id, timestamp, operation_name, client_name, client_version, status_code),
    ).ok()?;
    writer.into_inner().ok()
}

/// `csv::Writer::write_record` on `fields`, with a writer over an empty byte
/// vector that is then taken back with `into_inner`. Trusted: the result is
/// the bytes named `written_record`, and `None` exactly where that is `None`;
/// a record of one or more plain fields comes out as its plain line.
#[verifier::external_body]
fn write_record(fields: &Vec<String>) -> (bytes: Option<Vec<u8>>)
    ensures
        bytes_of(bytes) == written_record(texts_of(fields@)),
        fields@.len() > 0 && (forall|i: int|
            0 <= i < fields@.len() ==> plain_field(#[trigger] fields@[i]@)) ==> bytes_of(bytes)
            == Some(plain_line(texts_of(fields@))),
{
    let mut writer = csv::Writer::from_writer(Vec::new());
    writer.write_record(fields).ok()?;
    writer.into_inner().ok()
}

/// The strftime pattern of the date that names the daily file.
pub open spec fn date_pattern() -> Seq<char> {
    "%Y-%m-%d"@
}

/// What follows the date in the daily file's name.
pub open spec fn file_suffix() -> Seq<char> {
    "-requests.csv"@
}

/// The name of the file that takes the records flushed at `now`: the UTC
/// date of `now` and the suffix.
pub open spec fn file_name_of(now: Timestamp) -> Option<Seq<char>> {
    match formatted_utc(now.secs as int, now.nanos as int, date_pattern()) {
        Some(date) => Some(date + file_suffix()),
        None => None,
    }
}

/// The column names, in the order of the columns.
pub open spec fn header_fields() -> Seq<Seq<char>> {
    seq![
        "id"@,
        "timestamp"@,
        "operation_name"@,
        "client_name"@,
        "client_version"@,
        "status_code"@,
    ]
}

/// The header line: the column names with commas between them, and a line
/// feed.
pub open spec fn header_line() -> Seq<u8> {
    plain_line(header_fields())
}

/// The row of one report: its six values as a CSV record, the timestamp in
/// RFC 3339.
pub open spec fn row_of(report: ReportView) -> Option<Seq<u8>> {
    match rfc3339_utc(report.timestamp.secs as int, report.timestamp.nanos as int) {
        Some(timestamp) => serialized_record(
            report.id,
            timestamp,
            report.operation_name,
            report.client_name,
            report.client_version,
            report.status_code as int,
        ),
        None => None,
    }
}

/// What became of one report on its way to the file.
#[derive(Debug)]
pub enum Encoded {
    /// The report has an empty `id` and gets no row.
    Skipped,
    /// The report's row.
    Row(Vec<u8>),
    /// The report could not be written as a row.
    Failed,
}

/// An `Encoded` as a mathematical value.
pub enum EncodedView {
    Skipped,
    Row(Seq<u8>),
    Failed,
}

impl View for Encoded {
    type V = EncodedView;

    open spec fn view(&self) -> EncodedView {
        match self {
            Encoded::Skipped => EncodedView::Skipped,
            Encoded::Row(bytes) => EncodedView::Row(bytes@),
            Encoded::Failed => EncodedView::Failed,
        }
    }
}

/// What becomes of `report`: skipped if its `id` is empty, else its row, or
/// a failure where it has none.
pub open spec fn encoding_of(report: ReportView) -> EncodedView {
    if report.id.len() == 0 {
        EncodedView::Skipped
    } else {
        match row_of(report) {
            Some(bytes) => EncodedView::Row(bytes),
            None => EncodedView::Failed,
        }
    }
}

/// The rows of `encoded` one after the other, in order; `None` if any of
/// them failed.
pub open spec fn assembled(encoded: Seq<EncodedView>) -> Option<Seq<u8>>
    decreases encoded.len(),
{
    if encoded.len() == 0 {
        Some(Seq::empty())
    } else {
        match (assembled(encoded.drop_last()), encoded.last()) {
            (Some(front), EncodedView::Skipped) => Some(front),
            (Some(front), EncodedView::Row(bytes)) => Some(front + bytes),
            _ => None,
        }
    }
}

/// The rows that a flush writes for `entries`: one for each record with a
/// non-empty `id`, in the order of `entries`; `None` if one of those records
/// has no row.
pub open spec fn rows_of(entries: Seq<ReportView>) -> Option<Seq<u8>> {
    assembled(entries.map_values(|r: ReportView| encoding_of(r)))
}

/// What a flush appends to a file that holds `existing_len` bytes: the
/// header line first if the file is empty, then the rows.
pub open spec fn payload_of(rows: Seq<u8>, existing_len: nat) -> Seq<u8> {
    if existing_len == 0 {
        header_line() + rows
    } else {
        rows
    }
}

/// The file that held `content` once a flush with these rows is written.
pub open spec fn file_after(content: Seq<u8>, rows: Seq<u8>) -> Seq<u8> {
    content + payload_of(rows, content.len())
}

/// The file that held `content` once each of `flushes` is written, in order.
pub open spec fn file_after_all(content: Seq<u8>, flushes: Seq<Seq<u8>>) -> Seq<u8>
    decreases flushes.len(),
{
    if flushes.len() == 0 {
        content
    } else {
        file_after(file_after_all(content, flushes.drop_last()), flushes.last())
    }
}

/// The rows of `flushes` one after the other.
pub open spec fn joined(flushes: Seq<Seq<u8>>) -> Seq<u8>
    decreases flushes.len(),
{
    if flushes.len() == 0 {
        Seq::empty()
    } else {
        joined(flushes.drop_last()) + flushes.last()
    }
}

/// The number of rows among `encoded`.
pub open spec fn row_count(encoded: Seq<EncodedView>) -> nat
    decreases encoded.len(),
{
    if encoded.len() == 0 {
        0
    } else if encoded.last() is Row {
        row_count(encoded.drop_last()) + 1
    } else {
        row_count(encoded.drop_last())
    }
}

/// The number of records of `entries` with a non-empty `id`.
pub open spec fn identified(entries: Seq<ReportView>) -> nat
    decreases entries.len(),
{
    if entries.len() == 0 {
        0
    } else if entries.last().id.len() > 0 {
        identified(entries.drop_last()) + 1
    } else {
        identified(entries.drop_last())
    }
}

/// The header line is never empty.
pub proof fn lemma_header_line_not_empty()
    ensures
        header_line().len() > 0,
{
    reveal_with_fuel(plain_line, 2);
}

/// A flush keeps what the file held and puts the rows at its end; only an
/// empty file gets the header line, before the rows.
pub proof fn lemma_flush_appends(content: Seq<u8>, rows: Seq<u8>)
    ensures
        content.len() == 0 ==> file_after(content, rows) == header_line() + rows,
        content.len() > 0 ==> file_after(content, rows) == content + rows,
{
    if content.len() == 0 {
        assert(content + (header_line() + rows) =~= header_line() + rows);
    }
}

/// However many flushes go to a new file, it holds the header line once, at
/// its beginning, and then the rows of the flushes in order.
pub proof fn lemma_header_written_once(flushes: Seq<Seq<u8>>)
    requires
        flushes.len() > 0,
    ensures
        file_after_all(Seq::empty(), flushes) == header_line() + joined(flushes),
    decreases flushes.len(),
{
    let front = flushes.drop_last();
    let last = flushes.last();
    lemma_header_line_not_empty();
    if front.len() == 0 {
        assert(joined(front) =~= Seq::<u8>::empty());
        assert(file_after_all(Seq::empty(), front) =~= Seq::<u8>::empty());
        assert(file_after_all(Seq::empty(), flushes) =~= header_line() + joined(flushes));
    } else {
        lemma_header_written_once(front);
        assert(file_after_all(Seq::empty(), flushes) =~= header_line() + joined(flushes));
    }
}

/// A flush that can be written holds exactly one row for each record with a
/// non-empty `id`, and none for the others.
pub proof fn lemma_one_row_per_record(entries: Seq<ReportView>)
    requires
        rows_of(entries) is Some,
    ensures
        row_count(entries.map_values(|r: ReportView| encoding_of(r))) == identified(entries),
    decreases entries.len(),
{
    if entries.len() > 0 {
        let encoded = entries.map_values(|r: ReportView| encoding_of(r));
        let front = entries.drop_last();
        assert(encoded.drop_last() =~= front.map_values(|r: ReportView| encoding_of(r)));
        lemma_one_row_per_record(front);
    }
}

/// The row of the report of a callback carries the callback's `id`, its
/// status or `0`, and the three recognized context strings or their
/// fallbacks, beside the time of entry.
pub proof fn lemma_row_of_request(request: CoprocessorRequest, timestamp: Timestamp)
    ensures
        row_of(report_of(request, timestamp)) == match rfc3339_utc(
            timestamp.secs as int,
            timestamp.nanos as int,
        ) {
            Some(text) => serialized_record(
                request.id@,
                text,
                text_or(text_attribute(request.context, operation_name_key()), anonymous_operation()),
                text_or(text_attribute(request.context, client_name_key()), unknown_client()),
                text_or(text_attribute(request.context, client_version_key()), unknown_client()),
                match request.status_code {
                    Some(code) => code as int,
                    None => 0,
                },
            ),
            None => None,
        },
{
}

/// The name of the daily file for the date written as `date`.
pub fn file_name_from(date: String) -> (name: String)
    ensures
        name@ == date@ + file_suffix(),
{
    date.concat("-requests.csv")
}

/// The name of the file that takes the records flushed at `now`; `None`
/// where `now` has no date.
pub fn file_name(now: Timestamp) -> (name: Option<String>)
    ensures
        text_of(name) == file_name_of(now),
{
    match format_utc(now.secs, now.nanos, "%Y-%m-%d") {
        Some(date) => Some(file_name_from(date)),
        None => None,
    }
}

/// The header line of the daily file.
pub fn header_row() -> (line: Vec<u8>)
    ensures
        line@ == header_line(),
{
    let mut fields: Vec<String> = Vec::new();
    fields.push("id".to_string());
    fields.push("timestamp".to_string());
    fields.push("operation_name".to_string());
    fields.push("client_name".to_string());
    fields.push("client_version".to_string());
    fields.push("status_code".to_string());
    proof {
        reveal_strlit("id");
        reveal_strlit("timestamp");
        reveal_strlit("operation_name");
        reveal_strlit("client_name");
        reveal_strlit("client_version");
        reveal_strlit("status_code");
        assert(texts_of(fields@) =~= header_fields());
        assert(plain_field("id"@));
        assert(plain_field("timestamp"@));
        assert(plain_field("operation_name"@));
        assert(plain_field("client_name"@));
        assert(plain_field("client_version"@));
        assert(plain_field("status_code"@));
    }
    match write_record(&fields) {
        Some(line) => line,
        None => Vec::new(),
    }
}

/// Encodes one report: nothing for an empty `id`, else its row.
pub fn encode_report(report: &Report) -> (encoded: Encoded)
    ensures
        encoded@ == encoding_of(report@),
{
    if report.id.as_str().is_empty() {
        proof {
            assert(report.id@.len() == 0);
        }
        return Encoded::Skipped;
    }
    let timestamp = match to_rfc3339(report.timestamp.secs, report.timestamp.nanos) {
        Some(text) => text,
        None => {
            return Encoded::Failed;
        },
    };
    match serialize_record(
        &report.id,
        &timestamp,
        &report.operation_name,
        &report.client_name,
        &report.client_version,
        report.status_code,
    ) {
        Some(bytes) => Encoded::Row(bytes),
        None => Encoded::Failed,
    }
}

/// Puts the rows of `encoded` one after the other, in order; `None` if any
/// of them failed.
pub fn assemble_rows(encoded: &Vec<Encoded>) -> (rows: Option<Vec<u8>>)
    ensures
        bytes_of(rows) == assembled(encoded@.map_values(|e: Encoded| e@)),
{
    let ghost views = encoded@.map_values(|e: Encoded| e@);
    let mut rows: Vec<u8> = Vec::new();
    let mut i: usize = 0;
    proof {
        assert(views.take(0) =~= Seq::<EncodedView>::empty());
    }
    while i < encoded.len()
        invariant
            i <= encoded.len(),
            views == encoded@.map_values(|e: Encoded| e@),
            assembled(views.take(i as int)) == Some(rows@),
        decreases encoded.len() - i,
    {
        proof {
            assert(views.take(i + 1).drop_last() =~= views.take(i as int));
            assert(views.take(i + 1).last() == encoded@[i as int]@);
        }
        match &encoded[i] {
            Encoded::Skipped => {},
            Encoded::Row(bytes) => {
                let mut k: usize = 0;
                let ghost front = rows@;
                while k < bytes.len()
                    invariant
                        k <= bytes.len(),
                        rows@ == front + bytes@.take(k as int),
                    decreases bytes.len() - k,
                {
                    rows.push(bytes[k]);
                    k = k + 1;
                    assert(rows@ =~= front + bytes@.take(k as int));
                }
                proof {
                    assert(bytes@.take(bytes.len() as int) =~= bytes@);
                }
            },
            Encoded::Failed => {
                proof {
                    lemma_failed_prefix(views, i + 1);
                }
                return None;
            },
        }
        i = i + 1;
    }
    proof {
        assert(views.take(i as int) =~= views);
    }
    Some(rows)
}

/// Once a prefix has failed, the whole has.
proof fn lemma_failed_prefix(encoded: Seq<EncodedView>, n: int)
    requires
        0 <= n <= encoded.len(),
        assembled(encoded.take(n)) is None,
    ensures
        assembled(encoded) is None,
    decreases encoded.len() - n,
{
    if n < encoded.len() {
        assert(encoded.take(n + 1).drop_last() =~= encoded.take(n));
        lemma_failed_prefix(encoded, n + 1);
    } else {
        assert(encoded.take(n) =~= encoded);
    }
}

/// The rows that a flush writes for `reports`: one for each record with a
/// non-empty `id`, in order; `None` if one of those cannot be written.
pub fn encode_reports(reports: &Vec<Report>) -> (rows: Option<Vec<u8>>)
    ensures
        bytes_of(rows) == rows_of(reports@.map_values(|r: Report| r@)),
{
    let ghost entries = reports@.map_values(|r: Report| r@);
    let mut encoded: Vec<Encoded> = Vec::new();
    let mut i: usize = 0;
    while i < reports.len()
        invariant
            i <= reports.len(),
            entries == reports@.map_values(|r: Report| r@),
            encoded@.map_values(|e: Encoded| e@) == entries.take(i as int).map_values(
                |r: ReportView| encoding_of(r),
            ),
        decreases reports.len() - i,
    {
        let ghost earlier = encoded@;
        let next = encode_report(&reports[i]);
        encoded.push(next);
        proof {
            let after = encoded@.map_values(|e: Encoded| e@);
            let target = entries.take(i + 1).map_values(|r: ReportView| encoding_of(r));
            assert(earlier.map_values(|e: Encoded| e@).len() == i);
            assert forall|j: int| 0 <= j < after.len() implies after[j] == target[j] by {
                if j < i {
                    assert(after[j] == earlier.map_values(|e: Encoded| e@)[j]);
                    assert(entries.take(i as int)[j] == entries.take(i + 1)[j]);
                } else {
                    assert(entries[j] == reports@[j]@);
                }
            }
            assert(after =~= target);
        }
        i = i + 1;
    }
    proof {
        assert(entries.take(i as int) =~= entries);
    }
    assemble_rows(&encoded)
}

/// What a flush has to do: the file to append to, and the rows for it.
#[derive(Debug)]
pub struct FlushPlan {
    /// Name of the daily file, in the working directory.
    pub file_name: String,
    /// The rows, ready to be written.
    pub rows: Vec<u8>,
}

impl FlushPlan {
    /// The bytes to append to the file, which holds `existing_len` bytes
    /// now: the header line first if the file is empty, then the rows.
    pub fn payload(&self, existing_len: u64) -> (bytes: Vec<u8>)
        ensures
            bytes@ == payload_of(self.rows@, existing_len as nat),
    {
        let mut bytes: Vec<u8> = if existing_len == 0 {
            header_row()
        } else {
            Vec::new()
        };
        let ghost front = bytes@;
        let mut k: usize = 0;
        while k < self.rows.len()
            invariant
                k <= self.rows.len(),
                bytes@ == front + self.rows@.take(k as int),
            decreases self.rows.len() - k,
        {
            bytes.push(self.rows[k]);
            k = k + 1;
            assert(bytes@ =~= front + self.rows@.take(k as int));
        }
        proof {
            assert(self.rows@.take(self.rows.len() as int) =~= self.rows@);
            assert(Seq::<u8>::empty() + self.rows@ =~= self.rows@);
        }
        bytes
    }
}

} // verus!
