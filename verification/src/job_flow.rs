use vstd::prelude::*;

use crate::models::{JobForm, JobRecord};
use crate::reply::{plain, Body, Message, Reply, BAD_REQUEST, INTERNAL_SERVER_ERROR, OK};
use crate::submission::{Part, Submission};

verus! {

/// Where the posting of a job stands.
#[derive(Debug)]
pub enum JobFlow {
    /// Reading the parts of the upload.
    Receiving(Submission<JobForm>),
    /// The job's image is being uploaded.
    Uploading(JobForm),
    /// The job is being stored.
    Storing,
    /// The request has been answered.
    Done,
}

/// What happens while a job is posted.
#[derive(Debug)]
pub enum JobEvent<Id> {
    /// A part of the upload arrived.
    Part(Part<JobForm>),
    /// The upload could not be read.
    PartFailed,
    /// The upload has no more parts.
    PartsEnd,
    /// The image upload finished, with the image's address or without.
    Uploaded(Option<String>),
    /// Storing finished, with the new record's id or the store's error.
    Stored(Result<Id, String>),
}

/// What the handler is to do next.
#[derive(Debug)]
pub enum JobAction<Id> {
    /// Read the next part of the upload.
    ReadNextPart,
    /// Upload the image saved at this path.
    Upload(String),
    /// Store this job.
    Store(JobRecord),
    /// Answer the request.
    Respond(Reply<Id>),
    /// Nothing: the event did not fit where the posting stands.
    Idle,
}

impl JobFlow {
    /// Where a posting starts.
    pub open spec fn initial() -> JobFlow {
        JobFlow::Receiving(Submission::empty())
    }

    /// The next stage and action after `event`.
    pub open spec fn next<Id>(self, event: JobEvent<Id>) -> (JobFlow, JobAction<Id>) {
        match (self, event) {
            (JobFlow::Receiving(sub), JobEvent::Part(p)) => (
                JobFlow::Receiving(sub.received(p)),
                JobAction::ReadNextPart,
            ),
            (JobFlow::Receiving(_), JobEvent::PartFailed) => (
                JobFlow::Done,
                JobAction::Respond(plain(BAD_REQUEST, Message::InvalidMultipart)),
            ),
            (JobFlow::Receiving(sub), JobEvent::PartsEnd) => match (sub.data, sub.image_path) {
                (None, _) => (
                    JobFlow::Done,
                    JobAction::Respond(plain(BAD_REQUEST, Message::MissingJobData)),
                ),
                (Some(_), None) => (
                    JobFlow::Done,
                    JobAction::Respond(plain(BAD_REQUEST, Message::MissingImageFile)),
                ),
                (Some(form), Some(path)) => (JobFlow::Uploading(form), JobAction::Upload(path)),
            },
            (JobFlow::Uploading(form), JobEvent::Uploaded(url)) => match url {
                None => (
                    JobFlow::Done,
                    JobAction::Respond(plain(BAD_REQUEST, Message::ImageUploadFailed)),
                ),
                Some(u) => (JobFlow::Storing, JobAction::Store(JobRecord { form, job_image: u })),
            },
            (JobFlow::Storing, JobEvent::Stored(r)) => match r {
                Ok(id) => (JobFlow::Done, JobAction::Respond(Reply { status: OK, body: Body::Inserted(id) })),
                Err(e) => (
                    JobFlow::Done,
                    JobAction::Respond(Reply { status: INTERNAL_SERVER_ERROR, body: Body::PlainText(e) }),
                ),
            },
            (s, _) => (s, JobAction::Idle),
        }
    }

    /// Where a posting starts: no part read yet.
    pub fn new() -> (f: JobFlow)
        ensures
            f == JobFlow::initial(),
    {
        JobFlow::Receiving(Submission::new())
    }

    /// Takes in `event` and says what to do next.
    pub fn step<Id>(self, event: JobEvent<Id>) -> (r: (JobFlow, JobAction<Id>))
        ensures
            r == self.next(event),
    {
        match self {
            JobFlow::Receiving(sub) => match event {
                JobEvent::Part(p) => (JobFlow::Receiving(sub.receive(p)), JobAction::ReadNextPart),
                JobEvent::PartFailed => (
                    JobFlow::Done,
                    JobAction::Respond(Reply::plain(BAD_REQUEST, Message::InvalidMultipart)),
                ),
                JobEvent::PartsEnd => match sub.data {
                    None => (
                        JobFlow::Done,
                        JobAction::Respond(Reply::plain(BAD_REQUEST, Message::MissingJobData)),
                    ),
                    Some(form) => match sub.image_path {
                        None => (
                            JobFlow::Done,
                            JobAction::Respond(Reply::plain(BAD_REQUEST, Message::MissingImageFile)),
                        ),
                        Some(path) => (JobFlow::Uploading(form), JobAction::Upload(path)),
                    },
                },
                _ => (JobFlow::Receiving(sub), JobAction::Idle),
            },
            JobFlow::Uploading(form) => match event {
                JobEvent::Uploaded(url) => match url {
                    None => (
                        JobFlow::Done,
                        JobAction::Respond(Reply::plain(BAD_REQUEST, Message::ImageUploadFailed)),
                    ),
                    Some(u) => (JobFlow::Storing, JobAction::Store(JobRecord { form, job_image: u })),
                },
                _ => (JobFlow::Uploading(form), JobAction::Idle),
            },
            JobFlow::Storing => match event {
                JobEvent::Stored(r) => match r {
                    Ok(id) => (
                        JobFlow::Done,
                        JobAction::Respond(Reply { status: OK, body: Body::Inserted(id) }),
                    ),
                    Err(e) => (
                        JobFlow::Done,
                        JobAction::Respond(Reply { status: INTERNAL_SERVER_ERROR, body: Body::PlainText(e) }),
                    ),
                },
                _ => (JobFlow::Storing, JobAction::Idle),
            },
            JobFlow::Done => (JobFlow::Done, JobAction::Idle),
        }
    }
}

/// The stage reached and the actions taken when `events` arrive in turn,
/// starting at `flow`.
pub open spec fn job_run<Id>(flow: JobFlow, events: Seq<JobEvent<Id>>) -> (JobFlow, Seq<JobAction<Id>>)
    decreases events.len(),
{
    if events.len() == 0 {
        (flow, Seq::empty())
    } else {
        let (reached, actions) = job_run(flow, events.drop_last());
        let (after, action) = reached.next(events.last());
        (after, actions.push(action))
    }
}

/// How many of `actions` answer the request.
pub open spec fn job_answers<Id>(actions: Seq<JobAction<Id>>) -> nat
    decreases actions.len(),
{
    if actions.len() == 0 {
        0
    } else {
        job_answers(actions.drop_last()) + if actions.last() is Respond {
            1nat
        } else {
            0nat
        }
    }
}

/// A job posting is answered at most once, whatever events arrive: it is
/// answered exactly when it is done, and once done it does nothing more.
pub proof fn lemma_job_answered_at_most_once<Id>(events: Seq<JobEvent<Id>>)
    ensures
        job_answers(job_run(JobFlow::initial(), events).1) == if job_run(JobFlow::initial(), events).0 is Done {
            1nat
        } else {
            0nat
        },
        job_answers(job_run(JobFlow::initial(), events).1) <= 1,
    decreases events.len(),
{
    if events.len() > 0 {
        lemma_job_answered_at_most_once(events.drop_last());
        let (reached, actions) = job_run(JobFlow::initial(), events.drop_last());
        assert(actions.push(reached.next(events.last()).1).drop_last() =~= actions);
    }
}

/// Every job that a run stores carries, as its image, the address that the
/// upload just returned.
pub proof fn lemma_stored_job_has_uploaded_image<Id>(events: Seq<JobEvent<Id>>)
    ensures
        job_run(JobFlow::initial(), events).1.len() == events.len(),
        forall|k: int| 0 <= k < events.len() ==> match #[trigger] job_run(JobFlow::initial(), events).1[k] {
            JobAction::Store(record) => events[k] == JobEvent::<Id>::Uploaded(Some(record.job_image)),
            _ => true,
        },
    decreases events.len(),
{
    if events.len() > 0 {
        let prefix = events.drop_last();
        let n = prefix.len() as int;
        lemma_stored_job_has_uploaded_image(prefix);
        let (reached, actions) = job_run(JobFlow::initial(), prefix);
        let (after, action) = reached.next(events.last());
        let full = actions.push(action);
        assert forall|k: int| 0 <= k < events.len() implies match #[trigger] full[k] {
            JobAction::Store(record) => events[k] == JobEvent::<Id>::Uploaded(Some(record.job_image)),
            _ => true,
        } by {
            if k < n {
                assert(full[k] == actions[k]);
                assert(events[k] == prefix[k]);
            } else {
                assert(full[k] == action);
                assert(events[k] == events.last());
            }
        }
    }
}

/// The form carried by the last data part among `events`: `None` when no
/// data part is among them, or when the last one did not parse.
pub open spec fn last_job_form<Id>(events: Seq<JobEvent<Id>>) -> Option<JobForm>
    decreases events.len(),
{
    if events.len() == 0 {
        None
    } else {
        match events.last() {
            JobEvent::Part(Part::Data(d)) => d,
            _ => last_job_form(events.drop_last()),
        }
    }
}

/// The path of the last image part among `events`, if any.
pub open spec fn last_job_image<Id>(events: Seq<JobEvent<Id>>) -> Option<String>
    decreases events.len(),
{
    if events.len() == 0 {
        None
    } else {
        match events.last() {
            JobEvent::Part(Part::Image(path)) => Some(path),
            _ => last_job_image(events.drop_last()),
        }
    }
}

/// The parts of the upload end at `e`: `events[e]` is the first `PartsEnd`.
pub open spec fn job_parts_end_at<Id>(events: Seq<JobEvent<Id>>, e: int) -> bool {
    &&& 0 <= e < events.len()
    &&& events[e] is PartsEnd
    &&& forall|i: int| 0 <= i < e ==> !(#[trigger] events[i] is PartsEnd)
}

/// What the stage reached after `events` owes to them: while the parts are
/// read, none has ended them, and the form and image path held are those of
/// the last data part and the last image part;
/// while the image is uploaded, the form is that of the last data part before
/// the parts ended.
pub open spec fn job_stage_explained<Id>(events: Seq<JobEvent<Id>>, stage: JobFlow) -> bool {
    match stage {
        JobFlow::Receiving(sub) => {
            &&& sub.data == last_job_form(events)
            &&& sub.image_path == last_job_image(events)
            &&& forall|i: int| 0 <= i < events.len() ==> !(#[trigger] events[i] is PartsEnd)
        },
        JobFlow::Uploading(form) => exists|e: int|
            #[trigger] job_parts_end_at(events, e) && last_job_form(events.take(e)) == Some(form),
        _ => true,
    }
}

/// Every job that a run stores carries exactly the form of the last data part
/// that arrived before the parts of the upload ended, with all its fields (the
/// tags among them), whatever other events came between; and the image that a
/// run uploads is the one saved by the last image part, as the parts end.
pub proof fn lemma_stored_job_keeps_form<Id>(events: Seq<JobEvent<Id>>)
    ensures
        job_stage_explained(events, job_run(JobFlow::initial(), events).0),
        job_run(JobFlow::initial(), events).1.len() == events.len(),
        forall|k: int| 0 <= k < events.len() ==> match #[trigger] job_run(JobFlow::initial(), events).1[k] {
            JobAction::Store(record) => exists|e: int|
                e < k && #[trigger] job_parts_end_at(events, e) && last_job_form(events.take(e)) == Some(record.form),
            JobAction::Upload(path) => job_parts_end_at(events, k) && last_job_image(events.take(k)) == Some(path),
            _ => true,
        },
    decreases events.len(),
{
    if events.len() > 0 {
        let prefix = events.drop_last();
        let n = prefix.len() as int;
        lemma_stored_job_keeps_form(prefix);
        let (reached, actions) = job_run(JobFlow::initial(), prefix);
        let last = events.last();
        let (after, action) = reached.next(last);
        assert(job_run(JobFlow::initial(), events) == (after, actions.push(action)));
        assert forall|i: int| 0 <= i < n implies #[trigger] events[i] == prefix[i] by {}
        assert(events[n] == last);
        assert forall|e: int| 0 <= e <= n implies #[trigger] events.take(e) == prefix.take(e) by {
            assert(events.take(e) =~= prefix.take(e));
        }
        assert forall|e: int| #[trigger] job_parts_end_at(prefix, e) implies job_parts_end_at(events, e) by {
            assert forall|i: int| 0 <= i < e implies !(#[trigger] events[i] is PartsEnd) by {
                assert(events[i] == prefix[i]);
            }
        }
        match reached {
            JobFlow::Receiving(sub) => {
                if last is PartsEnd {
                    assert(events.take(n) =~= prefix);
                    assert(job_parts_end_at(events, n));
                } else {
                    assert forall|i: int| 0 <= i < events.len() implies !(#[trigger] events[i] is PartsEnd) by {
                        if i < n {
                            assert(events[i] == prefix[i]);
                        }
                    }
                }
            },
            JobFlow::Uploading(form) => {
                let e = choose|e: int| #[trigger] job_parts_end_at(prefix, e) && last_job_form(prefix.take(e)) == Some(form);
                assert(events.take(e) == prefix.take(e));
                assert(job_parts_end_at(events, e));
            },
            _ => {},
        }
        let full = actions.push(action);
        assert forall|k: int| 0 <= k < events.len() implies match #[trigger] full[k] {
            JobAction::Store(record) => exists|e: int|
                e < k && #[trigger] job_parts_end_at(events, e) && last_job_form(events.take(e)) == Some(record.form),
            JobAction::Upload(path) => job_parts_end_at(events, k) && last_job_image(events.take(k)) == Some(path),
            _ => true,
        } by {
            if k < n {
                assert(full[k] == actions[k]);
                match actions[k] {
                    JobAction::Store(record) => {
                        let e = choose|e: int|
                            e < k && #[trigger] job_parts_end_at(prefix, e) && last_job_form(prefix.take(e)) == Some(record.form);
                        assert(events.take(e) == prefix.take(e));
                        assert(job_parts_end_at(events, e));
                    },
                    _ => {},
                }
            } else {
                assert(full[k] == action);
            }
        }
    }
}

} // verus!
