//! The outcome presenter: a pure mapping from a decoded schedule response or a
//! classified error to console text, and the conclusion of a schedule
//! invocation (decode the body the transport handed back, then render it).

use vstd::prelude::*;

use crate::codec::{spec_decode_response, JobScheduleResponse, JobScheduleStatus};
use crate::error::ClientError;
use crate::strutil::{
    chars_to_string, contains_seq, dec_digits, lemma_concat_contains_middle, u64_to_dec,
};

verus! {

/// The rendered line for a schedule response: the scheduled and failed states
/// get different wording, and both name the job ID and the seconds until the
/// next run.
pub open spec fn spec_response_message(
    job_id: Seq<char>,
    secs: u64,
    status: JobScheduleStatus,
) -> Seq<char> {
    let tail = ", next-run: "@ + dec_digits(secs as nat) + "s"@;
    match status {
        JobScheduleStatus::Scheduled => "Job scheduled successfully, job-id: "@ + job_id + tail,
        JobScheduleStatus::Failed => "Job scheduling failed, job-id: "@ + job_id + tail,
    }
}

impl JobScheduleResponse {
    /// Renders the response for the user.
    pub fn message(&self) -> (m: String)
        ensures
            m@ == spec_response_message(self.job_id@, self.next_run.secs, self.status),
    {
        let mut m = String::new();
        match self.status {
            JobScheduleStatus::Scheduled => {
                m.append("Job scheduled successfully, job-id: ");
            },
            JobScheduleStatus::Failed => {
                m.append("Job scheduling failed, job-id: ");
            },
        }
        m.append(self.job_id.as_str());
        m.append(", next-run: ");
        let digits = u64_to_dec(self.next_run.secs);
        m.append(chars_to_string(&digits).as_str());
        m.append("s");
        proof {
            assert(m@ =~= spec_response_message(self.job_id@, self.next_run.secs, self.status));
        }
        m
    }
}

/// Law: the rendered message always contains the literal job ID, whatever the
/// status says.
pub proof fn lemma_message_names_job_id(job_id: Seq<char>, secs: u64, status: JobScheduleStatus)
    ensures
        contains_seq(spec_response_message(job_id, secs, status), job_id),
{
    let tail = ", next-run: "@ + dec_digits(secs as nat) + "s"@;
    match status {
        JobScheduleStatus::Scheduled => {
            lemma_concat_contains_middle("Job scheduled successfully, job-id: "@, job_id, tail);
            assert("Job scheduled successfully, job-id: "@ + job_id + tail =~= spec_response_message(
                job_id,
                secs,
                status,
            ));
        },
        JobScheduleStatus::Failed => {
            lemma_concat_contains_middle("Job scheduling failed, job-id: "@, job_id, tail);
            assert("Job scheduling failed, job-id: "@ + job_id + tail =~= spec_response_message(
                job_id,
                secs,
                status,
            ));
        },
    }
}

/// The process exit code of a successful invocation.
pub open spec fn success_exit_code() -> int {
    0
}

/// The process exit code of a failed invocation.
pub open spec fn failure_exit_code() -> int {
    10
}

/// Concludes a schedule invocation: a transport failure passes through
/// unchanged; a delivered body is decoded and rendered, and a body outside the
/// wire grammar surfaces as a serialization error.
pub fn conclude_schedule(outcome: Result<String, ClientError>) -> (r: Result<String, ClientError>)
    ensures
        match outcome {
            Err(e) => r is Err && r->Err_0 == e,
            Ok(body) => match spec_decode_response(body@) {
                Some((id, d, st)) => r is Ok && (r->Ok_0)@ == spec_response_message(id, d.0, st),
                None => r is Err && ((r->Err_0) matches ClientError::Serde(m) && m@
                    == "invalid schedule response"@),
            },
        },
{
    match outcome {
        Err(e) => Err(e),
        Ok(body) => match JobScheduleResponse::from_str(body.as_str()) {
            Err(e) => Err(e),
            Ok(resp) => Ok(resp.message()),
        },
    }
}

} // verus!
