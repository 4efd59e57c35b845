//! A record of every completed request, kept in memory until it is written out.
//!
//! Money is counted in micro-cents, millionths of a US cent.

use crate::clock::{unix_now, unix_seconds};
use crate::csv::{
    csv_escape, csv_field, csv_unfield, is_field, law_csv_fields_read_back, law_rows_read_back,
    lemma_field, lemma_plain_field, row_fields,
};
use crate::money::{
    cents_text, lemma_cents_plain, lemma_decimal_plain, lemma_signed_cents_plain,
    lemma_signed_decimal_plain, signed_cents_text, signed_decimal, write_cents, write_signed,
    write_signed_cents,
};
use crate::text::{decimal, decimal_text, join, joined, text2, text3, text_view, texts};
use std::time::SystemTime;
use vstd::prelude::*;
use vstd::string::*;

verus! {

/// Why telemetry could not be written or read.
#[derive(Debug)]
pub enum TelemetryError {
    /// A file operation failed, with the reason.
    IoError(String),
    /// A record could not be written or read as JSON, with the reason.
    SerializationError(String),
    InvalidPath(String),
    BufferFull,
}

/// The result of an operation on telemetry.
pub type TelemetryResult<T> = Result<T, TelemetryError>;

/// The text of an error.
pub open spec fn telemetry_error_text(e: TelemetryError) -> Seq<char> {
    match e {
        TelemetryError::IoError(s) => "IO error: "@ + s@,
        TelemetryError::SerializationError(s) => "Serialization error: "@ + s@,
        TelemetryError::InvalidPath(s) => "Invalid path: "@ + s@,
        TelemetryError::BufferFull => "Buffer full - telemetry dropped"@,
    }
}

impl TelemetryError {
    /// The text of the error.
    pub fn message(&self) -> (s: String)
        ensures
            s@ == telemetry_error_text(*self),
    {
        match self {
            TelemetryError::IoError(e) => text2("IO error: ", e.as_str()),
            TelemetryError::SerializationError(e) => text2("Serialization error: ", e.as_str()),
            TelemetryError::InvalidPath(e) => text2("Invalid path: ", e.as_str()),
            TelemetryError::BufferFull => "Buffer full - telemetry dropped".to_string(),
        }
    }
}

/// What is recorded of a request.
#[derive(Debug)]
pub struct TelemetryData {
    pub request_id: String,
    /// Seconds since the Unix epoch.
    pub timestamp: i64,
    /// The model that was called.
    pub chosen_model: String,
    /// The model that was called beside it for comparison, if any.
    pub shadow_model: Option<String>,
    pub latency_ms: u64,
    pub shadow_latency_ms: Option<u64>,
    /// What the call cost.
    pub chosen_cost: u64,
    /// What a flagship model would have cost.
    pub baseline_cost: u64,
    /// What was saved: the baseline's cost less the call's.
    pub cost_delta: i64,
    pub priority: String,
    pub user_tier: String,
    pub failover_triggered: bool,
    pub provider: String,
    pub success: bool,
    pub error: Option<String>,
    pub tokens_used: u32,
    pub client_id: String,
}

impl TelemetryData {
    /// A record with its costs, taken at the given time; all else is empty.
    pub fn new_at(
        request_id: String,
        chosen_model: String,
        chosen_cost: u64,
        baseline_cost: u64,
        client_id: String,
        timestamp: i64,
    ) -> (d: TelemetryData)
        requires
            chosen_cost <= i64::MAX,
            baseline_cost <= i64::MAX,
        ensures
            blank_record(
                d,
                request_id@,
                chosen_model@,
                chosen_cost,
                baseline_cost,
                client_id@,
                timestamp,
            ),
    {
        TelemetryData {
            request_id,
            timestamp,
            chosen_model,
            shadow_model: None,
            latency_ms: 0,
            shadow_latency_ms: None,
            chosen_cost,
            baseline_cost,
            cost_delta: baseline_cost as i64 - chosen_cost as i64,
            priority: String::new(),
            user_tier: String::new(),
            failover_triggered: false,
            provider: String::new(),
            success: false,
            error: None,
            tokens_used: 0,
            client_id,
        }
    }

    /// A record with its costs, taken now; all else is empty.
    pub fn new(
        request_id: String,
        chosen_model: String,
        chosen_cost: u64,
        baseline_cost: u64,
        client_id: String,
    ) -> (d: TelemetryData)
        requires
            chosen_cost <= i64::MAX,
            baseline_cost <= i64::MAX,
        ensures
            exists|reading: SystemTime|
                blank_record(
                    d,
                    request_id@,
                    chosen_model@,
                    chosen_cost,
                    baseline_cost,
                    client_id@,
                    #[trigger] stamp(reading),
                ),
    {
        let now: u64 = unix_now();
        let ghost reading = choose|reading: SystemTime| now == #[trigger] unix_seconds(reading);
        let timestamp: i64 = if now <= i64::MAX as u64 {
            now as i64
        } else {
            i64::MAX
        };
        assert(timestamp == stamp(reading));
        TelemetryData::new_at(
            request_id,
            chosen_model,
            chosen_cost,
            baseline_cost,
            client_id,
            timestamp,
        )
    }
}

/// The time of a record that is taken at a reading of the wall clock: whole seconds since the Unix
/// epoch, as far as they can be counted.
pub open spec fn stamp(reading: SystemTime) -> i64 {
    if unix_seconds(reading) <= i64::MAX {
        unix_seconds(reading) as i64
    } else {
        i64::MAX
    }
}

/// A record that holds no more than a request's id, model, costs, client and time.
pub open spec fn blank_record(
    d: TelemetryData,
    request_id: Seq<char>,
    chosen_model: Seq<char>,
    chosen_cost: u64,
    baseline_cost: u64,
    client_id: Seq<char>,
    timestamp: i64,
) -> bool {
    &&& d.request_id@ == request_id
    &&& d.timestamp == timestamp
    &&& d.chosen_model@ == chosen_model
    &&& d.shadow_model is None
    &&& d.latency_ms == 0
    &&& d.shadow_latency_ms is None
    &&& d.chosen_cost == chosen_cost
    &&& d.baseline_cost == baseline_cost
    &&& d.cost_delta == baseline_cost - chosen_cost
    &&& d.priority@.len() == 0
    &&& d.user_tier@.len() == 0
    &&& !d.failover_triggered
    &&& d.provider@.len() == 0
    &&& !d.success
    &&& d.error is None
    &&& d.tokens_used == 0
    &&& d.client_id@ == client_id
}

// The recorder.

/// Keeps records until they are written out.
#[derive(Debug)]
pub struct TelemetryRecorder {
    output_dir: String,
    buffer: Vec<TelemetryData>,
    max_buffer_size: usize,
    enabled: bool,
}

/// What a recorder holds.
pub struct RecorderView {
    pub output_dir: Seq<char>,
    /// The records that have not been written yet, the oldest first.
    pub buffer: Seq<TelemetryData>,
    /// How many records make a flush due.
    pub max_buffer_size: nat,
    pub enabled: bool,
}

impl View for TelemetryRecorder {
    type V = RecorderView;

    closed spec fn view(&self) -> RecorderView {
        RecorderView {
            output_dir: self.output_dir@,
            buffer: self.buffer@,
            max_buffer_size: self.max_buffer_size as nat,
            enabled: self.enabled,
        }
    }
}

/// The file that records are written to at a time in seconds since the Unix epoch.
pub open spec fn telemetry_file(dir: Seq<char>, secs: u64) -> Seq<char> {
    dir + "/telemetry-"@ + (decimal(secs as nat) + ".jsonl"@)
}

impl TelemetryRecorder {
    /// A recorder for a directory, given whether the directory could be made.
    pub fn new(output_dir: &str, max_buffer_size: usize, directory: Result<(), String>) -> (r:
        TelemetryResult<TelemetryRecorder>)
        ensures
            match directory {
                Ok(_) => r is Ok && r->Ok_0@ == (RecorderView {
                    output_dir: output_dir@,
                    buffer: seq![],
                    max_buffer_size: max_buffer_size as nat,
                    enabled: true,
                }),
                Err(e) => r matches Err(TelemetryError::IoError(s)) && s@ == e@,
            },
    {
        match directory {
            Ok(_) => Ok(
                TelemetryRecorder {
                    output_dir: output_dir.to_string(),
                    buffer: Vec::new(),
                    max_buffer_size,
                    enabled: true,
                },
            ),
            Err(e) => Err(TelemetryError::IoError(e)),
        }
    }

    /// Stops recording.
    pub fn disable(&mut self)
        ensures
            final(self)@ == (RecorderView { enabled: false, ..old(self)@ }),
    {
        self.enabled = false;
    }

    /// Resumes recording.
    pub fn enable(&mut self)
        ensures
            final(self)@ == (RecorderView { enabled: true, ..old(self)@ }),
    {
        self.enabled = true;
    }

    /// Records a request, and returns whether the buffer is full, so that it is to be flushed. A
    /// recorder that is disabled records nothing.
    pub fn record(&mut self, data: TelemetryData) -> (flush_due: bool)
        ensures
            final(self)@ == if old(self)@.enabled {
                RecorderView { buffer: old(self)@.buffer.push(data), ..old(self)@ }
            } else {
                old(self)@
            },
            flush_due <==> old(self)@.enabled && final(self)@.buffer.len()
                >= old(self)@.max_buffer_size,
    {
        if !self.enabled {
            return false;
        }
        self.buffer.push(data);
        self.buffer.len() >= self.max_buffer_size
    }

    /// The file that the buffer is to be appended to, one record to a line; none if the recorder is
    /// disabled or the buffer is empty.
    pub fn flush_target(&self, secs: u64) -> (r: Option<String>)
        ensures
            text_view(r) == if self@.enabled && self@.buffer.len() > 0 {
                Some(telemetry_file(self@.output_dir, secs))
            } else {
                None
            },
    {
        if !self.enabled || self.buffer.len() == 0 {
            return None;
        }
        let stamp = decimal_text(secs as u128);
        let tail = text2(stamp.as_str(), ".jsonl");
        Some(text3(self.output_dir.as_str(), "/telemetry-", tail.as_str()))
    }

    /// The records that have not been written yet.
    pub fn pending(&self) -> (v: &Vec<TelemetryData>)
        ensures
            v@ == self@.buffer,
    {
        &self.buffer
    }

    /// Ends a flush, given whether all records were written: the buffer is emptied, and the number
    /// of records returned. Where writing has failed, the records are kept.
    pub fn flush_done(&mut self, written: TelemetryResult<()>) -> (r: TelemetryResult<usize>)
        ensures
            match written {
                Ok(_) => r == Ok::<usize, TelemetryError>(old(self)@.buffer.len() as usize)
                    && final(self)@ == (RecorderView { buffer: seq![], ..old(self)@ }),
                Err(e) => r == Err::<usize, TelemetryError>(e) && final(self)@ == old(self)@,
            },
    {
        match written {
            Ok(_) => {
                let count = self.buffer.len();
                self.buffer = Vec::new();
                Ok(count)
            },
            Err(e) => Err(e),
        }
    }

    /// The records that have not been written yet, as a CSV document.
    pub fn export_as_csv(&self) -> (s: String)
        ensures
            s@ == csv_document(self@.buffer),
    {
        let mut out = csv_header();
        out.push('\n');
        let mut i: usize = 0;
        while i < self.buffer.len()
            invariant
                i <= self.buffer@.len(),
                out@ == csv_document(self.buffer@.take(i as int)),
            decreases self.buffer@.len() - i,
        {
            assert(self.buffer@.take(i + 1).drop_last() == self.buffer@.take(i as int));
            assert(self.buffer@.take(i + 1).last() == self.buffer@[i as int]);
            let row = csv_row(&self.buffer[i]);
            out.append(row.as_str());
            out.push('\n');
            i = i + 1;
        }
        assert(self.buffer@.take(self.buffer@.len() as int) == self.buffer@);
        out
    }
}

// CSV.

/// The names of the columns.
pub const CSV_HEADER: &'static str = "request_id,timestamp,chosen_model,shadow_model,latency_ms,chosen_cost,baseline_cost,cost_delta,priority,user_tier,failover,provider,success,tokens,client_id";

fn csv_header() -> (s: String)
    ensures
        s@ == CSV_HEADER@,
{
    CSV_HEADER.to_string()
}

/// `true` or `false`.
pub open spec fn bool_text(b: bool) -> Seq<char> {
    if b {
        "true"@
    } else {
        "false"@
    }
}

/// The fields of a record in the order of the columns.
pub open spec fn csv_fields(d: TelemetryData) -> Seq<Seq<char>> {
    seq![
        csv_field(d.request_id@),
        signed_decimal(d.timestamp as int),
        csv_field(d.chosen_model@),
        csv_field(
            match d.shadow_model {
                Some(m) => m@,
                None => seq![],
            },
        ),
        decimal(d.latency_ms as nat),
        cents_text(d.chosen_cost as nat),
        cents_text(d.baseline_cost as nat),
        signed_cents_text(d.cost_delta as int),
        csv_field(d.priority@),
        csv_field(d.user_tier@),
        bool_text(d.failover_triggered),
        csv_field(d.provider@),
        bool_text(d.success),
        decimal(d.tokens_used as nat),
        csv_field(d.client_id@),
    ]
}

/// A row: the fields with a comma between them.
pub open spec fn csv_row_of(d: TelemetryData) -> Seq<char> {
    joined(csv_fields(d), ","@)
}

/// The document: the header and a row for each record, each ended by a line break.
pub open spec fn csv_document(records: Seq<TelemetryData>) -> Seq<char>
    decreases records.len(),
{
    if records.len() == 0 {
        CSV_HEADER@.push('\n')
    } else {
        (csv_document(records.drop_last()) + csv_row_of(records.last())).push('\n')
    }
}

fn bool_word(b: bool) -> (s: String)
    ensures
        s@ == bool_text(b),
{
    if b {
        "true".to_string()
    } else {
        "false".to_string()
    }
}

/// A row of the document for a record.
pub fn csv_row(d: &TelemetryData) -> (s: String)
    ensures
        s@ == csv_row_of(*d),
{
    let shadow = match &d.shadow_model {
        Some(m) => csv_escape(m.as_str()),
        None => csv_escape(""),
    };
    proof {
        reveal_strlit("");
        assert(""@ == Seq::<char>::empty());
    }
    let mut fields: Vec<String> = Vec::new();
    fields.push(csv_escape(d.request_id.as_str()));
    fields.push(write_signed(d.timestamp));
    fields.push(csv_escape(d.chosen_model.as_str()));
    fields.push(shadow);
    fields.push(decimal_text(d.latency_ms as u128));
    fields.push(write_cents(d.chosen_cost));
    fields.push(write_cents(d.baseline_cost));
    fields.push(write_signed_cents(d.cost_delta));
    fields.push(csv_escape(d.priority.as_str()));
    fields.push(csv_escape(d.user_tier.as_str()));
    fields.push(bool_word(d.failover_triggered));
    fields.push(csv_escape(d.provider.as_str()));
    fields.push(bool_word(d.success));
    fields.push(decimal_text(d.tokens_used as u128));
    fields.push(csv_escape(d.client_id.as_str()));
    assert(texts(fields@) == csv_fields(*d));
    join(&fields, ",")
}

/// A row can be read back: the texts of a record, and all its other columns, stand in it each as a
/// field of its own.
pub proof fn law_rows_of_records_read_back(d: TelemetryData)
    ensures
        row_fields(csv_row_of(d)) == csv_fields(d),
        csv_unfield(csv_fields(d)[0]) == d.request_id@,
        csv_unfield(csv_fields(d)[2]) == d.chosen_model@,
        csv_unfield(csv_fields(d)[3]) == match d.shadow_model {
            Some(m) => m@,
            None => seq![],
        },
        csv_unfield(csv_fields(d)[8]) == d.priority@,
        csv_unfield(csv_fields(d)[9]) == d.user_tier@,
        csv_unfield(csv_fields(d)[11]) == d.provider@,
        csv_unfield(csv_fields(d)[14]) == d.client_id@,
{
    let fields = csv_fields(d);
    let shadow = match d.shadow_model {
        Some(m) => m@,
        None => seq![],
    };
    lemma_field(d.request_id@);
    lemma_field(d.chosen_model@);
    lemma_field(shadow);
    lemma_field(d.priority@);
    lemma_field(d.user_tier@);
    lemma_field(d.provider@);
    lemma_field(d.client_id@);
    lemma_signed_decimal_plain(d.timestamp as int);
    lemma_decimal_plain(d.latency_ms as nat);
    lemma_decimal_plain(d.tokens_used as nat);
    lemma_cents_plain(d.chosen_cost as nat);
    lemma_cents_plain(d.baseline_cost as nat);
    lemma_signed_cents_plain(d.cost_delta as int);
    reveal_strlit("true");
    reveal_strlit("false");
    lemma_plain_field(signed_decimal(d.timestamp as int));
    lemma_plain_field(decimal(d.latency_ms as nat));
    lemma_plain_field(decimal(d.tokens_used as nat));
    lemma_plain_field(cents_text(d.chosen_cost as nat));
    lemma_plain_field(cents_text(d.baseline_cost as nat));
    lemma_plain_field(signed_cents_text(d.cost_delta as int));
    lemma_plain_field(bool_text(d.failover_triggered));
    lemma_plain_field(bool_text(d.success));
    assert forall|i: int| 0 <= i < fields.len() implies is_field(#[trigger] fields[i]) by {}
    law_rows_read_back(fields);
    law_csv_fields_read_back(d.request_id@);
    law_csv_fields_read_back(d.chosen_model@);
    law_csv_fields_read_back(shadow);
    law_csv_fields_read_back(d.priority@);
    law_csv_fields_read_back(d.user_tier@);
    law_csv_fields_read_back(d.provider@);
    law_csv_fields_read_back(d.client_id@);
}

/// The columns of a record that are no texts: its time, its latency, its costs and what it saved, whether
/// it failed over, whether it succeeded, and its tokens.
pub proof fn law_columns_hold_the_record(d: TelemetryData)
    ensures
        csv_fields(d).len() == 15,
        csv_fields(d)[1] == signed_decimal(d.timestamp as int),
        csv_fields(d)[4] == decimal(d.latency_ms as nat),
        csv_fields(d)[5] == cents_text(d.chosen_cost as nat),
        csv_fields(d)[6] == cents_text(d.baseline_cost as nat),
        csv_fields(d)[7] == signed_cents_text(d.cost_delta as int),
        csv_fields(d)[10] == if d.failover_triggered {
            "true"@
        } else {
            "false"@
        },
        csv_fields(d)[12] == if d.success {
            "true"@
        } else {
            "false"@
        },
        csv_fields(d)[13] == decimal(d.tokens_used as nat),
{
}

/// A document begins with the header's line, and each record adds its row and a line break behind all
/// that were there before.
pub proof fn law_documents_have_a_line_for_each_record(
    records: Seq<TelemetryData>,
    d: TelemetryData,
)
    ensures
        csv_document(Seq::<TelemetryData>::empty()) == CSV_HEADER@ + seq!['\n'],
        csv_document(records.push(d)) == csv_document(records) + csv_row_of(d) + seq!['\n'],
{
    assert(records.push(d).drop_last() == records);
    assert(CSV_HEADER@.push('\n') == CSV_HEADER@ + seq!['\n']);
    assert((csv_document(records) + csv_row_of(d)).push('\n') == csv_document(records)
        + csv_row_of(d) + seq!['\n']);
}

/// What a fresh record says: what was given, what was saved, and nothing else.
pub proof fn law_fresh_records_hold_what_was_given(
    d: TelemetryData,
    request_id: Seq<char>,
    chosen_model: Seq<char>,
    chosen_cost: u64,
    baseline_cost: u64,
    client_id: Seq<char>,
    timestamp: i64,
)
    requires
        blank_record(
            d,
            request_id,
            chosen_model,
            chosen_cost,
            baseline_cost,
            client_id,
            timestamp,
        ),
    ensures
        d.request_id@ == request_id,
        d.chosen_model@ == chosen_model,
        d.client_id@ == client_id,
        d.timestamp == timestamp,
        d.chosen_cost == chosen_cost,
        d.baseline_cost == baseline_cost,
        d.chosen_cost + d.cost_delta == d.baseline_cost,
        d.shadow_model is None,
        d.shadow_latency_ms is None,
        d.error is None,
        d.latency_ms == 0,
        d.tokens_used == 0,
        !d.success,
        !d.failover_triggered,
        d.priority@.len() == 0,
        d.user_tier@.len() == 0,
        d.provider@.len() == 0,
{
}

/// The file for a flush lies in the directory and is named by the time; a record's time is the number of
/// seconds since the Unix epoch, as far as it can be held.
pub proof fn law_files_are_named_by_the_time(dir: Seq<char>, secs: u64, reading: SystemTime)
    ensures
        telemetry_file(dir, secs) == dir + "/telemetry-"@ + (decimal(secs as nat) + ".jsonl"@),
        unix_seconds(reading) <= i64::MAX ==> stamp(reading) == unix_seconds(reading),
        unix_seconds(reading) > i64::MAX ==> stamp(reading) == i64::MAX,
{
}

/// The text of an error begins with what has failed and ends with the reason.
pub proof fn law_telemetry_errors_tell_the_reason(reason: String)
    ensures
        telemetry_error_text(TelemetryError::IoError(reason)) == "IO error: "@ + reason@,
        telemetry_error_text(TelemetryError::SerializationError(reason)) == "Serialization error: "@
            + reason@,
        telemetry_error_text(TelemetryError::InvalidPath(reason)) == "Invalid path: "@ + reason@,
        telemetry_error_text(TelemetryError::BufferFull) == "Buffer full - telemetry dropped"@,
{
}

/// The names of the columns, in their order.
pub proof fn law_columns_are_named()
    ensures
        CSV_HEADER@
            == "request_id,timestamp,chosen_model,shadow_model,latency_ms,chosen_cost,baseline_cost,cost_delta,priority,user_tier,failover,provider,success,tokens,client_id"@,
{
}

} // verus!
