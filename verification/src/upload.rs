//! One attempt to hand a batch of stored records to the remote server. The records are deleted in
//! a transaction that is committed only once the server has confirmed them.
use crate::batch::{batch_body, confirms, encode_points, request, DataPoint};
use vstd::prelude::*;
use vstd::utf8::*;

verus! {

/// What the selection of the records to send brought.
pub enum Selection {
    /// The query could not be prepared.
    Unprepared,
    /// The query could not be run, or its rows could not be collected.
    Unreadable,
    /// The records, which are deleted from the table as far as the transaction goes.
    Rows(Vec<DataPoint>),
}

/// How an attempt ended. But for `Committed` the transaction is dropped, and the records stay
/// stored.
#[derive(Clone, Copy, PartialEq, Eq, Structural, Debug)]
pub enum Ending {
    /// No transaction could be started.
    NoTransaction,
    /// The records could not be selected.
    NoSelection,
    /// There is nothing to send.
    Nothing,
    /// A record could not be written as JSON.
    Unencodable,
    /// The server could not be reached.
    Unreachable,
    /// The request could not be written.
    Unsent,
    /// The server did not confirm the records.
    Unconfirmed,
    /// The server confirmed the records, but they could not be deleted.
    Uncommitted,
    /// The server confirmed the records, and they are deleted.
    Committed,
}

/// What is to be done next.
#[derive(Clone, Copy, PartialEq, Eq, Structural, Debug)]
pub enum UploadStage {
    /// Start a transaction.
    Begin,
    /// Delete so many records at most, and collect them.
    Select(usize),
    /// Connect to the server.
    Connect,
    /// Write the request.
    Send,
    /// Flush the connection.
    Flush,
    /// Read the server's answer.
    Receive,
    /// Commit the transaction.
    Commit,
    /// Nothing more: the transaction, if it was started and not committed, is dropped.
    Over(Ending),
}

/// What came of the last thing that was to be done.
pub enum UploadReport {
    Begun(bool),
    Selected(Selection),
    Connected(bool),
    Sent(bool),
    Flushed(bool),
    /// What was read of the server's answer.
    Received(Vec<u8>),
    Committed(bool),
}

/// The records that were selected.
pub open spec fn selected_rows(selection: Selection) -> Seq<DataPoint> {
    match selection {
        Selection::Rows(rows) => rows@,
        _ => Seq::empty(),
    }
}

/// What the selection leads to.
pub open spec fn after_selection(selection: Selection) -> UploadStage {
    if selection is Unprepared {
        UploadStage::Over(Ending::NoSelection)
    } else if selected_rows(selection).len() == 0 {
        UploadStage::Over(Ending::Nothing)
    } else if !crate::batch::all_encodable(selected_rows(selection)) {
        UploadStage::Over(Ending::Unencodable)
    } else {
        UploadStage::Connect
    }
}

/// The report is about what the stage asks for.
pub open spec fn is_about(report: UploadReport, stage: UploadStage) -> bool {
    match report {
        UploadReport::Begun(_) => stage is Begin,
        UploadReport::Selected(_) => stage is Select,
        UploadReport::Connected(_) => stage is Connect,
        UploadReport::Sent(_) => stage is Send,
        UploadReport::Flushed(_) => stage is Flush,
        UploadReport::Received(_) => stage is Receive,
        UploadReport::Committed(_) => stage is Commit,
    }
}

/// `next` after a success, the end of the attempt after a failure.
pub open spec fn go_on(success: bool, next: UploadStage, failure: Ending) -> UploadStage {
    if success {
        next
    } else {
        UploadStage::Over(failure)
    }
}

/// What a report about the current stage leads to, where a batch may hold `count` records. That the
/// connection could not be flushed is no reason to give up.
pub open spec fn next_stage(count: usize, report: UploadReport) -> UploadStage {
    match report {
        UploadReport::Begun(ok) => go_on(ok, UploadStage::Select(count), Ending::NoTransaction),
        UploadReport::Selected(selection) => after_selection(selection),
        UploadReport::Connected(ok) => go_on(ok, UploadStage::Send, Ending::Unreachable),
        UploadReport::Sent(ok) => go_on(ok, UploadStage::Flush, Ending::Unsent),
        UploadReport::Flushed(_) => UploadStage::Receive,
        UploadReport::Received(response) => go_on(
            crate::batch::is_confirmation(response@),
            UploadStage::Commit,
            Ending::Unconfirmed,
        ),
        UploadReport::Committed(ok) => go_on(
            ok,
            UploadStage::Over(Ending::Committed),
            Ending::Uncommitted,
        ),
    }
}

/// The stage that a series of reports leads to, where a batch may hold `count` records. A report
/// that is not about the stage changes nothing.
pub open spec fn run(count: usize, reports: Seq<UploadReport>) -> UploadStage
    decreases reports.len(),
{
    if reports.len() == 0 {
        UploadStage::Begin
    } else {
        let before = run(count, reports.drop_last());
        if is_about(reports.last(), before) {
            next_stage(count, reports.last())
        } else {
            before
        }
    }
}

/// How many bytes of the server's answer are read.
pub const RESPONSE_SIZE: usize = 128;

/// An attempt: where the records go and how many at most, the request once there is one, and what is
/// to be done next.
pub struct Upload {
    pub endpoint: String,
    pub count: usize,
    /// The body of the request.
    pub body: String,
    pub request: String,
    pub stage: UploadStage,
    /// Why a record could not be written as JSON, where that ended the attempt.
    pub fault: String,
    /// The records that were selected.
    pub rows: Ghost<Seq<DataPoint>>,
    /// What was reported.
    pub reports: Ghost<Seq<UploadReport>>,
}

/// The records are selected and the attempt is not over.
pub open spec fn is_under_way(stage: UploadStage) -> bool {
    match stage {
        UploadStage::Begin => false,
        UploadStage::Select(_) => false,
        UploadStage::Over(_) => false,
        _ => true,
    }
}

fn decide(success: bool, next: UploadStage, failure: Ending) -> (stage: UploadStage)
    ensures
        stage == go_on(success, next, failure),
{
    if success {
        next
    } else {
        UploadStage::Over(failure)
    }
}

/// No selection brought more than `count` records.
pub open spec fn selections_keep_to(count: usize, reports: Seq<UploadReport>) -> bool {
    forall|k: int|
        0 <= k < reports.len() ==> ((#[trigger] reports[k]) matches UploadReport::Selected(selection)
            ==> selected_rows(selection).len() <= count)
}

impl Upload {
    /// The attempt stands where the reports have led it. From when the records are selected until
    /// the attempt is over, the request sends exactly them, and there is at least one. There are no
    /// more than a batch may hold if the selection kept to the number that it was given.
    pub open spec fn wf(self) -> bool {
        &&& self.stage == run(self.count, self.reports@)
        &&& is_under_way(self.stage) ==> {
            &&& self.rows@.len() > 0
            &&& crate::batch::all_encodable(self.rows@)
            &&& self.body@ == crate::batch::body_text(crate::batch::point_views(self.rows@))
            &&& self.request@ == crate::batch::request_text(self.endpoint@, self.body@)
        }
        &&& self.stage matches UploadStage::Select(count) ==> count == self.count
        &&& selections_keep_to(self.count, self.reports@) ==> self.rows@.len() <= self.count
        &&& self.stage == UploadStage::Over(Ending::Unencodable) ==> crate::batch::is_first_fault(
            self.rows@,
            self.fault@,
        )
    }

    /// An attempt that has not started, to send `count` records at most.
    pub fn new(endpoint: String, count: usize) -> (u: Upload)
        ensures
            u.wf(),
            u.endpoint == endpoint,
            u.count == count,
            u.body@ == Seq::<char>::empty(),
            u.request@ == Seq::<char>::empty(),
            u.stage == UploadStage::Begin,
            u.rows@.len() == 0,
            u.reports@.len() == 0,
    {
        Upload {
            endpoint,
            count,
            body: String::new(),
            request: String::new(),
            stage: UploadStage::Begin,
            fault: String::new(),
            rows: Ghost(Seq::empty()),
            reports: Ghost(Seq::empty()),
        }
    }

    /// Turns the selected records into the request that sends them.
    fn select(&mut self, selection: Selection)
        ensures
            final(self).endpoint == old(self).endpoint,
            final(self).count == old(self).count,
            final(self).stage == after_selection(selection),
            final(self).rows@ == selected_rows(selection),
            final(self).reports@ == old(self).reports@,
            final(self).stage == UploadStage::Over(Ending::Unencodable)
                ==> crate::batch::is_first_fault(selected_rows(selection), final(self).fault@),
            final(self).stage != UploadStage::Over(Ending::Unencodable) ==> final(self).fault
                == old(self).fault,
            final(self).body@ == if after_selection(selection) is Connect {
                crate::batch::body_text(crate::batch::point_views(selected_rows(selection)))
            } else {
                old(self).body@
            },
            final(self).request@ == if after_selection(selection) is Connect {
                crate::batch::request_text(old(self).endpoint@, final(self).body@)
            } else {
                old(self).request@
            },
    {
        proof {
            self.rows@ = selected_rows(selection);
        }
        match selection {
            Selection::Unprepared => {
                self.stage = UploadStage::Over(Ending::NoSelection);
            },
            Selection::Unreadable => {
                self.stage = UploadStage::Over(Ending::Nothing);
            },
            Selection::Rows(rows) => {
                if rows.len() == 0 {
                    self.stage = UploadStage::Over(Ending::Nothing);
                } else {
                    match encode_points(&rows) {
                        Ok(points) => {
                            self.body = batch_body(&points);
                            self.request = request(self.endpoint.as_str(), self.body.as_str());
                            self.stage = UploadStage::Connect;
                        },
                        Err(fault) => {
                            self.fault = fault;
                            self.stage = UploadStage::Over(Ending::Unencodable);
                        },
                    }
                }
            },
        }
    }

    /// Takes note of what came of the last thing that was to be done. A report about anything
    /// else changes nothing. The request is made when the records have been selected.
    pub fn report(&mut self, report: UploadReport)
        ensures
            final(self).endpoint == old(self).endpoint,
            final(self).count == old(self).count,
            final(self).stage == if is_about(report, old(self).stage) {
                next_stage(old(self).count, report)
            } else {
                old(self).stage
            },
            final(self).body@ == match report {
                UploadReport::Selected(selection) if old(self).stage is Select && after_selection(
                    selection,
                ) is Connect => crate::batch::body_text(
                    crate::batch::point_views(selected_rows(selection)),
                ),
                _ => old(self).body@,
            },
            final(self).request@ == match report {
                UploadReport::Selected(selection) if old(self).stage is Select && after_selection(
                    selection,
                ) is Connect => crate::batch::request_text(old(self).endpoint@, final(self).body@),
                _ => old(self).request@,
            },
            final(self).rows@ == match report {
                UploadReport::Selected(selection) if old(self).stage is Select => selected_rows(
                    selection,
                ),
                _ => old(self).rows@,
            },
            final(self).reports@ == old(self).reports@.push(report),
            old(self).wf() ==> final(self).wf(),
            final(self).stage == match (old(self).stage, report) {
                (UploadStage::Begin, UploadReport::Begun(ok)) => if ok {
                    UploadStage::Select(old(self).count)
                } else {
                    UploadStage::Over(Ending::NoTransaction)
                },
                (UploadStage::Select(_), UploadReport::Selected(Selection::Unprepared)) => UploadStage::Over(
                    Ending::NoSelection,
                ),
                (UploadStage::Select(_), UploadReport::Selected(Selection::Unreadable)) => UploadStage::Over(
                    Ending::Nothing,
                ),
                (UploadStage::Select(_), UploadReport::Selected(Selection::Rows(rows))) => if rows@.len()
                    == 0 {
                    UploadStage::Over(Ending::Nothing)
                } else if exists|i: int|
                    0 <= i < rows@.len() && crate::batch::json_text(
                        (#[trigger] rows@[i]).sensor_blob,
                    ) is Err {
                    UploadStage::Over(Ending::Unencodable)
                } else {
                    UploadStage::Connect
                },
                (UploadStage::Connect, UploadReport::Connected(ok)) => if ok {
                    UploadStage::Send
                } else {
                    UploadStage::Over(Ending::Unreachable)
                },
                (UploadStage::Send, UploadReport::Sent(ok)) => if ok {
                    UploadStage::Flush
                } else {
                    UploadStage::Over(Ending::Unsent)
                },
                (UploadStage::Flush, UploadReport::Flushed(_)) => UploadStage::Receive,
                (UploadStage::Receive, UploadReport::Received(response)) => if response@.len() >= 12
                    && response@.take(12) == seq![72u8, 84, 84, 80, 47, 49, 46, 49, 32, 50, 48, 52] {
                    UploadStage::Commit
                } else {
                    UploadStage::Over(Ending::Unconfirmed)
                },
                (UploadStage::Commit, UploadReport::Committed(ok)) => if ok {
                    UploadStage::Over(Ending::Committed)
                } else {
                    UploadStage::Over(Ending::Uncommitted)
                },
                _ => old(self).stage,
            },
            final(self).rows@ == match (old(self).stage, report) {
                (UploadStage::Select(_), UploadReport::Selected(Selection::Rows(rows))) => rows@,
                (UploadStage::Select(_), UploadReport::Selected(_)) => Seq::empty(),
                _ => old(self).rows@,
            },
            old(self).stage is Select && final(self).stage is Connect ==> final(self).body@ == "{\"datapoints\":["@ + Seq::new(
                final(self).rows@.len(),
                |i: int|
                    (if i > 0 {
                        ","@
                    } else {
                        Seq::empty()
                    }) + "{\"id\":1,\"datetime\":\""@ + final(self).rows@[i].timestamp@ + "\",\"data_blob\":"@
                        + crate::batch::json_text(final(self).rows@[i].sensor_blob)->Ok_0 + "}"@,
            ).flatten() + "]}"@,
            old(self).stage is Select && final(self).stage is Connect ==> final(self).request@
                == "POST "@ + final(self).endpoint@
                + " HTTP/1.1\r\nContent-Type: application/json\r\nContent-Length: "@
                + crate::text::digits(encode_utf8(final(self).body@).len()) + "\r\n\r\n"@
                + final(self).body@,
            !(old(self).stage is Select && final(self).stage is Connect) ==> final(self).body@
                == old(self).body@ && final(self).request@ == old(self).request@,
            old(self).stage is Select && final(self).stage == UploadStage::Over(Ending::Unencodable)
                ==> exists|i: int|
                0 <= i < final(self).rows@.len() && crate::batch::json_text(
                    (#[trigger] final(self).rows@[i]).sensor_blob,
                ) == Err::<Seq<char>, Seq<char>>(final(self).fault@) && forall|k: int|
                    0 <= k < i ==> crate::batch::json_text(
                        (#[trigger] final(self).rows@[k]).sensor_blob,
                    ) is Ok,
            !(old(self).stage is Select && final(self).stage == UploadStage::Over(
                Ending::Unencodable,
            )) ==> final(self).fault == old(self).fault,
    {
        proof {
            if report is Selected {
                crate::batch::first_fault_reads(selected_rows(report->Selected_0));
            }
            report_leads_to(self.count, self.stage, report);
            if report is Selected {
                batch_of_rows_reads(selected_rows(report->Selected_0));
            }
            let before = self.reports@;
            run_takes_one_more_report(self.count, before, report);
            self.reports@ = before.push(report);
            assert forall|k: int| 0 <= k < before.len() implies #[trigger] before[k] == before.push(
                report,
            )[k] by {}
            assert(before.push(report)[before.len() as int] == report);
        }
        match (self.stage, report) {
            (UploadStage::Begin, UploadReport::Begun(ok)) => {
                self.stage = decide(
                    ok,
                    UploadStage::Select(self.count),
                    Ending::NoTransaction,
                );
            },
            (UploadStage::Select(_), UploadReport::Selected(selection)) => {
                self.select(selection);
            },
            (UploadStage::Connect, UploadReport::Connected(ok)) => {
                self.stage = decide(ok, UploadStage::Send, Ending::Unreachable);
            },
            (UploadStage::Send, UploadReport::Sent(ok)) => {
                self.stage = decide(ok, UploadStage::Flush, Ending::Unsent);
            },
            (UploadStage::Flush, UploadReport::Flushed(_)) => {
                self.stage = UploadStage::Receive;
            },
            (UploadStage::Receive, UploadReport::Received(response)) => {
                self.stage = decide(
                    confirms(response.as_slice()),
                    UploadStage::Commit,
                    Ending::Unconfirmed,
                );
            },
            (UploadStage::Commit, UploadReport::Committed(ok)) => {
                self.stage = decide(
                    ok,
                    UploadStage::Over(Ending::Committed),
                    Ending::Uncommitted,
                );
            },
            _ => {},
        }
    }
}

/// What each report leads to. Only an answer whose first twelve bytes are those of `HTTP/1.1 204`
/// leads to the commit; every other answer ends the attempt.
pub proof fn report_leads_to(count: usize, stage: UploadStage, report: UploadReport)
    ensures
        (if is_about(report, stage) {
            next_stage(count, report)
        } else {
            stage
        }) == match (stage, report) {
            (UploadStage::Begin, UploadReport::Begun(ok)) => if ok {
                UploadStage::Select(count)
            } else {
                UploadStage::Over(Ending::NoTransaction)
            },
            (UploadStage::Select(_), UploadReport::Selected(Selection::Unprepared)) => UploadStage::Over(
                Ending::NoSelection,
            ),
            (UploadStage::Select(_), UploadReport::Selected(Selection::Unreadable)) => UploadStage::Over(
                Ending::Nothing,
            ),
            (UploadStage::Select(_), UploadReport::Selected(Selection::Rows(rows))) => if rows@.len()
                == 0 {
                UploadStage::Over(Ending::Nothing)
            } else if exists|i: int|
                0 <= i < rows@.len() && crate::batch::json_text(
                    (#[trigger] rows@[i]).sensor_blob,
                ) is Err {
                UploadStage::Over(Ending::Unencodable)
            } else {
                UploadStage::Connect
            },
            (UploadStage::Connect, UploadReport::Connected(ok)) => if ok {
                UploadStage::Send
            } else {
                UploadStage::Over(Ending::Unreachable)
            },
            (UploadStage::Send, UploadReport::Sent(ok)) => if ok {
                UploadStage::Flush
            } else {
                UploadStage::Over(Ending::Unsent)
            },
            (UploadStage::Flush, UploadReport::Flushed(_)) => UploadStage::Receive,
            (UploadStage::Receive, UploadReport::Received(response)) => if response@.len() >= 12
                && response@.take(12) == seq![72u8, 84, 84, 80, 47, 49, 46, 49, 32, 50, 48, 52] {
                UploadStage::Commit
            } else {
                UploadStage::Over(Ending::Unconfirmed)
            },
            (UploadStage::Commit, UploadReport::Committed(ok)) => if ok {
                UploadStage::Over(Ending::Committed)
            } else {
                UploadStage::Over(Ending::Uncommitted)
            },
            _ => stage,
        },
{
    if let UploadReport::Received(response) = report {
        crate::batch::only_status_204_confirms(response@);
    }
}

/// The body that sends some records holds each of them, in order, and nothing else.
pub proof fn batch_of_rows_reads(rows: Seq<DataPoint>)
    ensures
        crate::batch::body_text(crate::batch::point_views(rows)) == "{\"datapoints\":["@ + Seq::new(
            rows.len(),
            |i: int|
                (if i > 0 {
                    ","@
                } else {
                    Seq::empty()
                }) + "{\"id\":1,\"datetime\":\""@ + rows[i].timestamp@ + "\",\"data_blob\":"@
                    + crate::batch::json_text(rows[i].sensor_blob)->Ok_0 + "}"@,
        ).flatten() + "]}"@,
{
    let texts = Seq::new(
        rows.len(),
        |i: int|
            (if i > 0 {
                ","@
            } else {
                Seq::empty()
            }) + "{\"id\":1,\"datetime\":\""@ + rows[i].timestamp@ + "\",\"data_blob\":"@
                + crate::batch::json_text(rows[i].sensor_blob)->Ok_0 + "}"@,
    );
    crate::batch::body_holds_every_record(crate::batch::point_views(rows), texts);
}

/// One more report leads to the stage that `Upload::report` goes to.
pub proof fn run_takes_one_more_report(
    count: usize,
    reports: Seq<UploadReport>,
    report: UploadReport,
)
    ensures
        run(count, reports.push(report)) == if is_about(report, run(count, reports)) {
            next_stage(count, report)
        } else {
            run(count, reports)
        },
        run(count, Seq::empty()) == UploadStage::Begin,
{
    assert(reports.push(report).drop_last() =~= reports);
}

/// What is deleted is what was sent: when the transaction is to be committed, the request that the
/// server confirmed holds exactly the records that were selected in it.
pub proof fn deleted_records_were_sent(upload: Upload)
    requires
        upload.wf(),
        upload.stage is Commit,
    ensures
        upload.rows@.len() > 0,
        upload.request@ == crate::batch::request_text(
            upload.endpoint@,
            crate::batch::body_text(crate::batch::point_views(upload.rows@)),
        ),
{
}

/// What is deleted was sent, record by record: when the transaction is to be committed, each record
/// that was selected in it stands in the body with its timestamp and its sensor object, in order,
/// and the request announces the length of that body and ends with it.
pub proof fn every_deleted_record_was_sent(upload: Upload)
    requires
        upload.wf(),
        upload.stage is Commit,
    ensures
        upload.rows@.len() > 0,
        forall|i: int|
            0 <= i < upload.rows@.len() ==> crate::batch::json_text(
                (#[trigger] upload.rows@[i]).sensor_blob,
            ) is Ok,
        upload.body@ == "{\"datapoints\":["@ + Seq::new(
            upload.rows@.len(),
            |i: int|
                (if i > 0 {
                    ","@
                } else {
                    Seq::empty()
                }) + "{\"id\":1,\"datetime\":\""@ + upload.rows@[i].timestamp@ + "\",\"data_blob\":"@
                    + crate::batch::json_text(upload.rows@[i].sensor_blob)->Ok_0 + "}"@,
        ).flatten() + "]}"@,
        upload.request@ == "POST "@ + upload.endpoint@
            + " HTTP/1.1\r\nContent-Type: application/json\r\nContent-Length: "@
            + crate::text::digits(encode_utf8(upload.body@).len()) + "\r\n\r\n"@ + upload.body@,
{
    batch_of_rows_reads(upload.rows@);
}

/// Without an answer whose first twelve bytes are those of `HTTP/1.1 204` an attempt never deletes
/// its records, whatever else is reported, and in whatever order.
pub proof fn only_status_204_deletes(upload: Upload)
    requires
        upload.wf(),
        forall|k: int|
            0 <= k < upload.reports@.len() ==> ((
            #[trigger] upload.reports@[k]) matches UploadReport::Received(response) ==> !(
            response@.len() >= 12 && response@.take(12) == seq![
                72u8,
                84,
                84,
                80,
                47,
                49,
                46,
                49,
                32,
                50,
                48,
                52,
            ])),
    ensures
        !(upload.stage is Commit),
        upload.stage != UploadStage::Over(Ending::Committed),
        upload.stage != UploadStage::Over(Ending::Uncommitted),
{
    let reports = upload.reports@;
    assert forall|k: int| 0 <= k < reports.len() implies !is_confirming(#[trigger] reports[k]) by {
        if let UploadReport::Received(response) = reports[k] {
            crate::batch::only_status_204_confirms(response@);
        }
    }
    nothing_is_deleted_without_confirmation(upload.count, reports);
    not_committed_without_confirmation(upload.count, reports);
}

proof fn not_committed_without_confirmation(count: usize, reports: Seq<UploadReport>)
    requires
        forall|k: int| 0 <= k < reports.len() ==> !is_confirming(#[trigger] reports[k]),
    ensures
        run(count, reports) != UploadStage::Over(Ending::Uncommitted),
    decreases reports.len(),
{
    if reports.len() > 0 {
        let init = reports.drop_last();
        assert forall|k: int| 0 <= k < init.len() implies !is_confirming(#[trigger] init[k]) by {
            assert(!is_confirming(reports[k]));
        }
        not_committed_without_confirmation(count, init);
        nothing_is_deleted_without_confirmation(count, init);
    }
}

/// As much of the server's answer is read as decides whether it confirms the records.
pub proof fn enough_of_the_answer_is_read(response: Seq<u8>)
    requires
        response.len() >= RESPONSE_SIZE,
    ensures
        RESPONSE_SIZE == 128,
        crate::batch::is_confirmation(response) == crate::batch::is_confirmation(
            response.take(RESPONSE_SIZE as int),
        ),
{
    crate::batch::only_status_204_confirms(response);
    crate::batch::only_status_204_confirms(response.take(RESPONSE_SIZE as int));
    assert(response.take(RESPONSE_SIZE as int).take(12) =~= response.take(12));
}

/// A batch holds at most as many records as it may: so many are asked for when the transaction has
/// begun, and if no more were selected, no more are sent.
pub proof fn batch_keeps_to_the_limit(upload: Upload)
    requires
        upload.wf(),
        selections_keep_to(upload.count, upload.reports@),
    ensures
        upload.stage is Select ==> upload.stage == UploadStage::Select(upload.count),
        upload.rows@.len() <= upload.count,
        is_under_way(upload.stage) ==> upload.request@ == crate::batch::request_text(
            upload.endpoint@,
            crate::batch::body_text(crate::batch::point_views(upload.rows@)),
        ),
{
}

/// If no selection brought more records than the batch may hold, no more are sent or deleted.
pub proof fn no_more_records_than_asked_for(upload: Upload)
    requires
        upload.wf(),
        forall|k: int|
            0 <= k < upload.reports@.len() ==> ((
            #[trigger] upload.reports@[k]) matches UploadReport::Selected(Selection::Rows(rows))
                ==> rows@.len() <= upload.count),
    ensures
        upload.rows@.len() <= upload.count,
{
    assert forall|k: int| 0 <= k < upload.reports@.len() implies ((
    #[trigger] upload.reports@[k]) matches UploadReport::Selected(selection) ==> selected_rows(
        selection,
    ).len() <= upload.count) by {
        if let UploadReport::Selected(Selection::Rows(rows)) = upload.reports@[k] {
            assert(rows@.len() <= upload.count);
        }
    }
}

/// The report is an answer of the server that confirms the records.
pub open spec fn is_confirming(report: UploadReport) -> bool {
    report matches UploadReport::Received(response) && crate::batch::is_confirmation(response@)
}

/// Records are deleted only on confirmation: without an answer of the server that confirms them
/// the transaction is never committed, whatever else happens, and in whatever order.
pub proof fn nothing_is_deleted_without_confirmation(count: usize, reports: Seq<UploadReport>)
    requires
        forall|k: int| 0 <= k < reports.len() ==> !is_confirming(#[trigger] reports[k]),
    ensures
        run(count, reports) != UploadStage::Commit,
        run(count, reports) != UploadStage::Over(Ending::Committed),
    decreases reports.len(),
{
    if reports.len() > 0 {
        assert forall|k: int| 0 <= k < reports.len() - 1 implies !is_confirming(
            #[trigger] reports.drop_last()[k],
        ) by {
            assert(!is_confirming(reports[k]));
        }
        nothing_is_deleted_without_confirmation(count, reports.drop_last());
        assert(!is_confirming(reports[reports.len() - 1]));
    }
}

/// An attempt deletes its records, or is about to, only if the server has confirmed them.
pub proof fn attempt_deletes_only_on_confirmation(upload: Upload)
    requires
        upload.wf(),
        upload.stage is Commit || upload.stage == UploadStage::Over(Ending::Committed),
    ensures
        exists|k: int|
            0 <= k < upload.reports@.len() && is_confirming(#[trigger] upload.reports@[k]),
{
    let reports = upload.reports@;
    if forall|k: int| 0 <= k < reports.len() ==> !is_confirming(#[trigger] reports[k]) {
        nothing_is_deleted_without_confirmation(upload.count, upload.reports@);
    }
}

/// The transaction is committed only straight after an answer that confirms the records: once
/// that is to be done, nothing but the commit itself is taken note of.
pub proof fn commit_follows_confirmation(count: usize, reports: Seq<UploadReport>)
    requires
        run(count, reports) is Commit,
    ensures
        exists|k: int|
            0 <= k < reports.len() && is_confirming(#[trigger] reports[k]) && run(count, reports.take(k))
                is Receive,
    decreases reports.len(),
{
    let init = reports.drop_last();
    let k = reports.len() - 1;
    if run(count, init) is Commit {
        commit_follows_confirmation(count, init);
        let j = choose|j: int|
            0 <= j < init.len() && is_confirming(#[trigger] init[j]) && run(count, init.take(j))
                is Receive;
        assert(init.take(j) == reports.take(j));
        assert(is_confirming(reports[j]));
    } else {
        assert(reports.take(k) == init);
        assert(is_confirming(reports[k]));
    }
}

/// An attempt in which nothing fails and whose records the server confirms ends with the records
/// deleted, whether or not the connection could be flushed.
pub proof fn confirmed_records_are_deleted(
    count: usize,
    rows: Vec<DataPoint>,
    flushed: bool,
    response: Vec<u8>,
)
    requires
        rows@.len() > 0,
        crate::batch::all_encodable(rows@),
        crate::batch::is_confirmation(response@),
    ensures
        run(
            count,
            seq![
                UploadReport::Begun(true),
                UploadReport::Selected(Selection::Rows(rows)),
                UploadReport::Connected(true),
                UploadReport::Sent(true),
                UploadReport::Flushed(flushed),
                UploadReport::Received(response),
                UploadReport::Committed(true),
            ],
        ) == UploadStage::Over(Ending::Committed),
{
    let all = seq![
        UploadReport::Begun(true),
        UploadReport::Selected(Selection::Rows(rows)),
        UploadReport::Connected(true),
        UploadReport::Sent(true),
        UploadReport::Flushed(flushed),
        UploadReport::Received(response),
        UploadReport::Committed(true),
    ];
    assert(run(count, all.take(0)) is Begin);
    assert(all.take(1).drop_last() == all.take(0));
    assert(run(count, all.take(1)) is Select);
    assert(all.take(2).drop_last() == all.take(1));
    assert(run(count, all.take(2)) is Connect);
    assert(all.take(3).drop_last() == all.take(2));
    assert(run(count, all.take(3)) is Send);
    assert(all.take(4).drop_last() == all.take(3));
    assert(run(count, all.take(4)) is Flush);
    assert(all.take(5).drop_last() == all.take(4));
    assert(run(count, all.take(5)) is Receive);
    assert(all.take(6).drop_last() == all.take(5));
    assert(run(count, all.take(6)) is Commit);
    assert(all.take(7).drop_last() == all.take(6));
    assert(all.take(7) == all);
}

/// What is to be done next about the batches.
#[derive(Clone, Copy, PartialEq, Eq, Structural, Debug)]
pub enum BatchTurn {
    /// Let so many seconds pass.
    Sleep(u64),
    /// Attempt to send a batch.
    Attempt,
}

/// The turn with number `n`: the interval passes before each attempt.
pub open spec fn turn(interval: u64, n: nat) -> BatchTurn {
    if n % 2 == 0 {
        BatchTurn::Sleep(interval)
    } else {
        BatchTurn::Attempt
    }
}

/// The rhythm of the batches.
pub struct Batching {
    pub interval: u64,
    /// Whether the interval before the next attempt has passed.
    pub rested: bool,
    /// How many turns there have been.
    pub turns: Ghost<nat>,
}

impl Batching {
    /// The interval has passed after every other turn.
    pub open spec fn wf(self) -> bool {
        self.rested <==> self.turns@ % 2 == 1
    }

    /// There has been no turn.
    pub fn new(interval: u64) -> (b: Batching)
        ensures
            b.wf(),
            b.interval == interval,
            b.turns@ == 0,
            !b.rested,
    {
        Batching { interval, rested: false, turns: Ghost(0) }
    }

    /// The next turn. How an attempt ended makes no difference to it.
    pub fn next(&mut self) -> (t: BatchTurn)
        requires
            old(self).wf(),
        ensures
            final(self).wf(),
            final(self).interval == old(self).interval,
            final(self).turns@ == old(self).turns@ + 1,
            t == turn(old(self).interval, old(self).turns@),
            t == if old(self).rested {
                BatchTurn::Attempt
            } else {
                BatchTurn::Sleep(old(self).interval)
            },
            final(self).rested == !old(self).rested,
    {
        proof {
            self.turns@ = self.turns@ + 1;
        }
        self.rested = !self.rested;
        if self.rested {
            BatchTurn::Sleep(self.interval)
        } else {
            BatchTurn::Attempt
        }
    }
}

/// The interval passes first, and then attempts and intervals alternate without end: no attempt is
/// the last one, and no two follow each other without the interval between them.
pub proof fn attempts_are_an_interval_apart(interval: u64, n: nat)
    ensures
        turn(interval, 0) == BatchTurn::Sleep(interval),
        turn(interval, n) is Attempt <==> turn(interval, n + 1) == BatchTurn::Sleep(interval),
        turn(interval, n) == BatchTurn::Sleep(interval) <==> turn(interval, n + 1) is Attempt,
        turn(interval, n) == if n % 2 == 0 {
            BatchTurn::Sleep(interval)
        } else {
            BatchTurn::Attempt
        },
{
}

} // verus!
