use vstd::prelude::*;
use vstd::string::StringExecFns;

use crate::models::{ApplicationForm, ApplicationRecord};
use crate::reply::{plain, Body, Message, Reply, BAD_REQUEST, INTERNAL_SERVER_ERROR, OK};
use crate::scoring::{count_matches, match_counts, resume_words, MatchScore};
use crate::submission::{Part, Submission};

verus! {

/// Where an application for a job stands.
#[derive(Debug)]
pub enum ApplicationFlow {
    /// Reading the parts of the upload.
    Receiving(Submission<ApplicationForm>),
    /// The text of the resume saved at `image_path` is being extracted.
    Extracting { form: ApplicationForm, image_path: String },
    /// The tags of the job applied for are being fetched.
    FetchingTags { form: ApplicationForm, image_path: String, extraction: Result<String, String> },
    /// The resume is being uploaded.
    Uploading { form: ApplicationForm, score: MatchScore },
    /// The application is being stored.
    Storing,
    /// The request has been answered.
    Done,
}

/// What happens while an application is handled.
#[derive(Debug)]
pub enum ApplicationEvent<Id> {
    /// A part of the upload arrived.
    Part(Part<ApplicationForm>),
    /// The upload could not be read.
    PartFailed,
    /// The upload has no more parts.
    PartsEnd,
    /// Text extraction finished: the resume's text, or the error's message.
    TextExtracted(Result<String, String>),
    /// The job's tags were looked up: `Ok(None)` when there is no such job.
    TagsFetched(Result<Option<Vec<String>>, String>),
    /// The resume upload finished, with the file's address or without.
    Uploaded(Option<String>),
    /// Storing finished, with the new record's id or the store's error.
    Stored(Result<Id, String>),
}

/// What the handler is to do next.
#[derive(Debug)]
pub enum ApplicationAction<Id> {
    /// Read the next part of the upload.
    ReadNextPart,
    /// Extract the text of the PDF saved at this path.
    ExtractText(String),
    /// Fetch the tags of the job with this id.
    FetchTags(String),
    /// Upload the file saved at this path.
    Upload(String),
    /// Store this application.
    Store(ApplicationRecord),
    /// Answer the request.
    Respond(Reply<Id>),
    /// Nothing: the event did not fit where the application stands.
    Idle,
}

/// The text that an application is scored on: what extraction gave, or, when
/// it failed, "Failed to extract text: " followed by the error's message.
pub open spec fn resume_text(extraction: Result<String, String>) -> Seq<char> {
    match extraction {
        Ok(t) => t@,
        Err(e) => "Failed to extract text: "@ + e@,
    }
}

/// How a resume with text `text` scores against the job's tags; zero when the
/// job has no tags or could not be looked up.
pub open spec fn application_score(text: Seq<char>, tags: Result<Option<Vec<String>>, String>) -> MatchScore {
    match tags {
        Ok(Some(t)) => MatchScore {
            matched: count_matches(resume_words(text), t@.map_values(|s: String| s@)) as usize,
            total: t@.len() as usize,
        },
        _ => MatchScore::zero_spec(),
    }
}

impl ApplicationFlow {
    /// Where an application starts.
    pub open spec fn initial() -> ApplicationFlow {
        ApplicationFlow::Receiving(Submission::empty())
    }

    /// The next stage and action after `event`.
    pub open spec fn next<Id>(self, event: ApplicationEvent<Id>) -> (ApplicationFlow, ApplicationAction<Id>) {
        match (self, event) {
            (ApplicationFlow::Receiving(sub), ApplicationEvent::Part(p)) => (
                ApplicationFlow::Receiving(sub.received(p)),
                ApplicationAction::ReadNextPart,
            ),
            (ApplicationFlow::Receiving(_), ApplicationEvent::PartFailed) => (
                ApplicationFlow::Done,
                ApplicationAction::Respond(plain(BAD_REQUEST, Message::InvalidMultipart)),
            ),
            (ApplicationFlow::Receiving(sub), ApplicationEvent::PartsEnd) => match (sub.data, sub.image_path) {
                (None, _) => (
                    ApplicationFlow::Done,
                    ApplicationAction::Respond(plain(BAD_REQUEST, Message::MissingApplicationData)),
                ),
                (Some(_), None) => (
                    ApplicationFlow::Done,
                    ApplicationAction::Respond(plain(BAD_REQUEST, Message::MissingImageFile)),
                ),
                (Some(form), Some(path)) => (
                    ApplicationFlow::Extracting { form, image_path: path },
                    ApplicationAction::ExtractText(path),
                ),
            },
            (ApplicationFlow::Extracting { form, image_path }, ApplicationEvent::TextExtracted(x)) => (
                ApplicationFlow::FetchingTags { form, image_path, extraction: x },
                ApplicationAction::FetchTags(form.job_id),
            ),
            (
                ApplicationFlow::FetchingTags { form, image_path, extraction },
                ApplicationEvent::TagsFetched(tags),
            ) => (
                ApplicationFlow::Uploading {
                    form,
                    score: application_score(resume_text(extraction), tags),
                },
                ApplicationAction::Upload(image_path),
            ),
            (ApplicationFlow::Uploading { form, score }, ApplicationEvent::Uploaded(url)) => match url {
                None => (
                    ApplicationFlow::Done,
                    ApplicationAction::Respond(plain(BAD_REQUEST, Message::ImageUploadFailed)),
                ),
                Some(u) => (
                    ApplicationFlow::Storing,
                    ApplicationAction::Store(ApplicationRecord { form, resume: u, score }),
                ),
            },
            (ApplicationFlow::Storing, ApplicationEvent::Stored(r)) => match r {
                Ok(id) => (
                    ApplicationFlow::Done,
                    ApplicationAction::Respond(Reply { status: OK, body: Body::Inserted(id) }),
                ),
                Err(e) => (
                    ApplicationFlow::Done,
                    ApplicationAction::Respond(
                        Reply { status: INTERNAL_SERVER_ERROR, body: Body::PlainText(e) },
                    ),
                ),
            },
            (s, _) => (s, ApplicationAction::Idle),
        }
    }

    /// Where an application starts: no part read yet.
    pub fn new() -> (f: ApplicationFlow)
        ensures
            f == ApplicationFlow::initial(),
    {
        ApplicationFlow::Receiving(Submission::new())
    }

    /// Takes in `event` and says what to do next.
    pub fn step<Id>(self, event: ApplicationEvent<Id>) -> (r: (ApplicationFlow, ApplicationAction<Id>))
        ensures
            r == self.next(event),
    {
        match self {
            ApplicationFlow::Receiving(sub) => match event {
                ApplicationEvent::Part(p) => (
                    ApplicationFlow::Receiving(sub.receive(p)),
                    ApplicationAction::ReadNextPart,
                ),
                ApplicationEvent::PartFailed => (
                    ApplicationFlow::Done,
                    ApplicationAction::Respond(Reply::plain(BAD_REQUEST, Message::InvalidMultipart)),
                ),
                ApplicationEvent::PartsEnd => match sub.data {
                    None => (
                        ApplicationFlow::Done,
                        ApplicationAction::Respond(
                            Reply::plain(BAD_REQUEST, Message::MissingApplicationData),
                        ),
                    ),
                    Some(form) => match sub.image_path {
                        None => (
                            ApplicationFlow::Done,
                            ApplicationAction::Respond(
                                Reply::plain(BAD_REQUEST, Message::MissingImageFile),
                            ),
                        ),
                        Some(path) => {
                            let to_extract = path.clone();
                            (
                                ApplicationFlow::Extracting { form, image_path: path },
                                ApplicationAction::ExtractText(to_extract),
                            )
                        },
                    },
                },
                _ => (ApplicationFlow::Receiving(sub), ApplicationAction::Idle),
            },
            ApplicationFlow::Extracting { form, image_path } => match event {
                ApplicationEvent::TextExtracted(x) => {
                    let job_id = form.job_id.clone();
                    (
                        ApplicationFlow::FetchingTags { form, image_path, extraction: x },
                        ApplicationAction::FetchTags(job_id),
                    )
                },
                _ => (ApplicationFlow::Extracting { form, image_path }, ApplicationAction::Idle),
            },
            ApplicationFlow::FetchingTags { form, image_path, extraction } => match event {
                ApplicationEvent::TagsFetched(tags) => {
                    let score = score_application(&extraction, tags);
                    (ApplicationFlow::Uploading { form, score }, ApplicationAction::Upload(image_path))
                },
                _ => (
                    ApplicationFlow::FetchingTags { form, image_path, extraction },
                    ApplicationAction::Idle,
                ),
            },
            ApplicationFlow::Uploading { form, score } => match event {
                ApplicationEvent::Uploaded(url) => match url {
                    None => (
                        ApplicationFlow::Done,
                        ApplicationAction::Respond(
                            Reply::plain(BAD_REQUEST, Message::ImageUploadFailed),
                        ),
                    ),
                    Some(u) => (
                        ApplicationFlow::Storing,
                        ApplicationAction::Store(ApplicationRecord { form, resume: u, score }),
                    ),
                },
                _ => (ApplicationFlow::Uploading { form, score }, ApplicationAction::Idle),
            },
            ApplicationFlow::Storing => match event {
                ApplicationEvent::Stored(r) => match r {
                    Ok(id) => (
                        ApplicationFlow::Done,
                        ApplicationAction::Respond(Reply { status: OK, body: Body::Inserted(id) }),
                    ),
                    Err(e) => (
                        ApplicationFlow::Done,
                        ApplicationAction::Respond(
                            Reply { status: INTERNAL_SERVER_ERROR, body: Body::PlainText(e) },
                        ),
                    ),
                },
                _ => (ApplicationFlow::Storing, ApplicationAction::Idle),
            },
            ApplicationFlow::Done => (ApplicationFlow::Done, ApplicationAction::Idle),
        }
    }
}

/// The text that an application is scored on, as `resume_text` describes it.
pub fn extracted_text(extraction: &Result<String, String>) -> (t: String)
    ensures
        t@ == resume_text(*extraction),
{
    match extraction {
        Ok(text) => text.clone(),
        Err(e) => {
            let mut t = "Failed to extract text: ".to_owned();
            t.append(e.as_str());
            t
        },
    }
}

/// The score of the resume whose extraction gave `extraction`, against the
/// job's `tags`.
pub fn score_application(extraction: &Result<String, String>, tags: Result<Option<Vec<String>>, String>) -> (s: MatchScore)
    ensures
        s == application_score(resume_text(*extraction), tags),
{
    let text = extracted_text(extraction);
    match tags {
        Ok(Some(t)) => match_counts(text.as_str(), Some(t)),
        _ => MatchScore::zero(),
    }
}

/// The stage reached and the actions taken when `events` arrive in turn,
/// starting at `flow`.
pub open spec fn application_run<Id>(flow: ApplicationFlow, events: Seq<ApplicationEvent<Id>>) -> (ApplicationFlow, Seq<ApplicationAction<Id>>)
    decreases events.len(),
{
    if events.len() == 0 {
        (flow, Seq::empty())
    } else {
        let (reached, actions) = application_run(flow, events.drop_last());
        let (after, action) = reached.next(events.last());
        (after, actions.push(action))
    }
}

/// How many of `actions` answer the request.
pub open spec fn application_answers<Id>(actions: Seq<ApplicationAction<Id>>) -> nat
    decreases actions.len(),
{
    if actions.len() == 0 {
        0
    } else {
        application_answers(actions.drop_last()) + if actions.last() is Respond {
            1nat
        } else {
            0nat
        }
    }
}

/// An application is answered at most once, whatever events arrive: it is
/// answered exactly when it is done, and once done it does nothing more.
pub proof fn lemma_application_answered_at_most_once<Id>(events: Seq<ApplicationEvent<Id>>)
    ensures
        application_answers(application_run(ApplicationFlow::initial(), events).1) == if application_run(ApplicationFlow::initial(), events).0 is Done {
            1nat
        } else {
            0nat
        },
        application_answers(application_run(ApplicationFlow::initial(), events).1) <= 1,
    decreases events.len(),
{
    if events.len() > 0 {
        lemma_application_answered_at_most_once(events.drop_last());
        let (reached, actions) = application_run(ApplicationFlow::initial(), events.drop_last());
        assert(actions.push(reached.next(events.last()).1).drop_last() =~= actions);
    }
}

/// Among the first `bound` events, one gave the resume text `x`.
pub open spec fn extraction_seen<Id>(events: Seq<ApplicationEvent<Id>>, bound: int, x: Result<String, String>) -> bool {
    exists|i: int| 0 <= i < bound && #[trigger] events[i] == ApplicationEvent::<Id>::TextExtracted(x)
}

/// Among the first `bound` events, one gave a resume text and a later one
/// the job's tags, and `score` is how that text scores against those tags.
pub open spec fn score_seen<Id>(events: Seq<ApplicationEvent<Id>>, bound: int, score: MatchScore) -> bool {
    exists|i: int, j: int|
        0 <= i < j < bound
            && #[trigger] events[i] is TextExtracted
            && #[trigger] events[j] is TagsFetched
            && score == application_score(
                resume_text(events[i]->TextExtracted_0),
                events[j]->TagsFetched_0,
            )
}

/// What the stage reached after `events` owes to them.
pub open spec fn stage_explained<Id>(events: Seq<ApplicationEvent<Id>>, stage: ApplicationFlow) -> bool {
    match stage {
        ApplicationFlow::FetchingTags { extraction, .. } => extraction_seen(events, events.len() as int, extraction),
        ApplicationFlow::Uploading { score, .. } => score_seen(events, events.len() as int, score),
        _ => true,
    }
}

/// Every application that a run stores carries, as its resume, the address
/// that the upload just returned, and, as its score, how the text extracted
/// from the resume scores against the tags fetched for the job, both given by
/// earlier events of the same run.
pub proof fn lemma_stored_application_is_explained<Id>(events: Seq<ApplicationEvent<Id>>)
    ensures
        stage_explained(events, application_run(ApplicationFlow::initial(), events).0),
        application_run(ApplicationFlow::initial(), events).1.len() == events.len(),
        forall|k: int| 0 <= k < events.len() ==> match #[trigger] application_run(ApplicationFlow::initial(), events).1[k] {
            ApplicationAction::Store(record) => {
                &&& events[k] == ApplicationEvent::<Id>::Uploaded(Some(record.resume))
                &&& score_seen(events, k, record.score)
            },
            _ => true,
        },
    decreases events.len(),
{
    if events.len() > 0 {
        let prefix = events.drop_last();
        let n = prefix.len() as int;
        lemma_stored_application_is_explained(prefix);
        let (reached, actions) = application_run(ApplicationFlow::initial(), prefix);
        let last = events.last();
        let (after, action) = reached.next(last);
        assert(application_run(ApplicationFlow::initial(), events) == (after, actions.push(action)));
        assert forall|i: int| 0 <= i < n implies #[trigger] events[i] == prefix[i] by {}
        assert(events[n] == last);
        // What was seen in the prefix is seen in the whole run.
        assert forall|b: int, sc: MatchScore| 0 <= b <= n && score_seen(prefix, b, sc) implies score_seen(events, b, sc) by {
            let (i, j) = choose|i: int, j: int|
                0 <= i < j < b
                    && #[trigger] prefix[i] is TextExtracted
                    && #[trigger] prefix[j] is TagsFetched
                    && sc == application_score(
                        resume_text(prefix[i]->TextExtracted_0),
                        prefix[j]->TagsFetched_0,
                    );
            assert(events[i] == prefix[i]);
            assert(events[j] == prefix[j]);
        }
        match reached {
            ApplicationFlow::Extracting { form, image_path } => {
                if let ApplicationEvent::TextExtracted(x) = last {
                    assert(events[n] == ApplicationEvent::<Id>::TextExtracted(x));
                    assert(extraction_seen(events, events.len() as int, x));
                }
            },
            ApplicationFlow::FetchingTags { form, image_path, extraction } => {
                if let ApplicationEvent::TagsFetched(t) = last {
                    let i = choose|i: int| 0 <= i < n && #[trigger] prefix[i] == ApplicationEvent::<Id>::TextExtracted(extraction);
                    assert(events[i] == prefix[i]);
                    assert(events[n] == ApplicationEvent::<Id>::TagsFetched(t));
                    assert(events[i] is TextExtracted && events[n] is TagsFetched);
                    assert(score_seen(events, events.len() as int, application_score(resume_text(extraction), t)));
                } else {
                    let i = choose|i: int| 0 <= i < n && #[trigger] prefix[i] == ApplicationEvent::<Id>::TextExtracted(extraction);
                    assert(events[i] == prefix[i]);
                }
            },
            ApplicationFlow::Uploading { form, score } => {
                assert(score_seen(events, n, score));
            },
            _ => {},
        }
        let full = actions.push(action);
        assert forall|k: int| 0 <= k < events.len() implies match #[trigger] full[k] {
            ApplicationAction::Store(record) => {
                &&& events[k] == ApplicationEvent::<Id>::Uploaded(Some(record.resume))
                &&& score_seen(events, k, record.score)
            },
            _ => true,
        } by {
            if k < n {
                assert(full[k] == actions[k]);
                match actions[k] {
                    ApplicationAction::Store(record) => {
                        assert(score_seen(prefix, k, record.score));
                    },
                    _ => {},
                }
            } else {
                assert(full[k] == action);
            }
        }
    }
}

/// The form carried by the last data part among `events`: `None` when no
/// data part is among them, or when the last one did not parse.
pub open spec fn last_application_form<Id>(events: Seq<ApplicationEvent<Id>>) -> Option<ApplicationForm>
    decreases events.len(),
{
    if events.len() == 0 {
        None
    } else {
        match events.last() {
            ApplicationEvent::Part(Part::Data(d)) => d,
            _ => last_application_form(events.drop_last()),
        }
    }
}

/// The path of the last image part among `events`, if any.
pub open spec fn last_application_image<Id>(events: Seq<ApplicationEvent<Id>>) -> Option<String>
    decreases events.len(),
{
    if events.len() == 0 {
        None
    } else {
        match events.last() {
            ApplicationEvent::Part(Part::Image(path)) => Some(path),
            _ => last_application_image(events.drop_last()),
        }
    }
}

/// The parts of the upload end at `e`: `events[e]` is the first `PartsEnd`.
pub open spec fn application_parts_end_at<Id>(events: Seq<ApplicationEvent<Id>>, e: int) -> bool {
    &&& 0 <= e < events.len()
    &&& events[e] is PartsEnd
    &&& forall|i: int| 0 <= i < e ==> !(#[trigger] events[i] is PartsEnd)
}

/// `form` is the form of the last data part that arrived, among `events`,
/// before the parts of the upload ended.
pub open spec fn application_form_sent<Id>(events: Seq<ApplicationEvent<Id>>, form: ApplicationForm) -> bool {
    exists|e: int| #[trigger] application_parts_end_at(events, e) && last_application_form(events.take(e)) == Some(form)
}

/// `path` is that of the last image part that arrived, among `events`,
/// before the parts of the upload ended.
pub open spec fn application_image_sent<Id>(events: Seq<ApplicationEvent<Id>>, path: String) -> bool {
    exists|e: int| #[trigger] application_parts_end_at(events, e) && last_application_image(events.take(e)) == Some(path)
}

/// Which form and resume the stage reached after `events` holds: while the
/// parts are read, none has ended them and the form and path held are those
/// of the last data part and the last image part; afterwards, until the
/// application is stored, they are those of the last such parts before the
/// parts ended.
pub open spec fn application_form_explained<Id>(events: Seq<ApplicationEvent<Id>>, stage: ApplicationFlow) -> bool {
    match stage {
        ApplicationFlow::Receiving(sub) => {
            &&& sub.data == last_application_form(events)
            &&& sub.image_path == last_application_image(events)
            &&& forall|i: int| 0 <= i < events.len() ==> !(#[trigger] events[i] is PartsEnd)
        },
        ApplicationFlow::Extracting { form, image_path } => {
            &&& application_form_sent(events, form)
            &&& application_image_sent(events, image_path)
        },
        ApplicationFlow::FetchingTags { form, image_path, .. } => {
            &&& application_form_sent(events, form)
            &&& application_image_sent(events, image_path)
        },
        ApplicationFlow::Uploading { form, .. } => application_form_sent(events, form),
        _ => true,
    }
}

/// Every application that a run stores carries exactly the form of the last
/// data part that arrived before the parts of the upload ended, with all its
/// fields (job id, name, email, cover letter, address, country); the tags it
/// is scored against are fetched for the job id of that form; and the resume
/// whose text is extracted, and then uploaded, is the one saved by the last
/// image part before the parts ended.
pub proof fn lemma_stored_application_keeps_form<Id>(events: Seq<ApplicationEvent<Id>>)
    ensures
        application_form_explained(events, application_run(ApplicationFlow::initial(), events).0),
        application_run(ApplicationFlow::initial(), events).1.len() == events.len(),
        forall|k: int| 0 <= k < events.len() ==> match #[trigger] application_run(ApplicationFlow::initial(), events).1[k] {
            ApplicationAction::Store(record) => application_form_sent(events.take(k), record.form),
            ApplicationAction::FetchTags(id) => exists|f: ApplicationForm|
                #[trigger] application_form_sent(events.take(k), f) && f.job_id == id,
            ApplicationAction::ExtractText(path) => application_parts_end_at(events, k)
                && last_application_image(events.take(k)) == Some(path),
            ApplicationAction::Upload(path) => application_image_sent(events.take(k), path),
            _ => true,
        },
    decreases events.len(),
{
    if events.len() > 0 {
        let prefix = events.drop_last();
        let n = prefix.len() as int;
        lemma_stored_application_keeps_form(prefix);
        let (reached, actions) = application_run(ApplicationFlow::initial(), prefix);
        let last = events.last();
        let (after, action) = reached.next(last);
        assert(application_run(ApplicationFlow::initial(), events) == (after, actions.push(action)));
        assert forall|i: int| 0 <= i < n implies #[trigger] events[i] == prefix[i] by {}
        assert(events[n] == last);
        assert(events.take(n) =~= prefix);
        assert forall|e: int| 0 <= e <= n implies #[trigger] events.take(e) == prefix.take(e) by {
            assert(events.take(e) =~= prefix.take(e));
        }
        // What held of the prefix holds of the whole run.
        assert forall|f: ApplicationForm| #[trigger] application_form_sent(prefix, f) implies application_form_sent(events, f) by {
            let e = choose|e: int| #[trigger] application_parts_end_at(prefix, e) && last_application_form(prefix.take(e)) == Some(f);
            assert forall|i: int| 0 <= i < e implies !(#[trigger] events[i] is PartsEnd) by {
                assert(events[i] == prefix[i]);
            }
            assert(application_parts_end_at(events, e));
            assert(events.take(e) == prefix.take(e));
        }
        assert forall|p: String| #[trigger] application_image_sent(prefix, p) implies application_image_sent(events, p) by {
            let e = choose|e: int| #[trigger] application_parts_end_at(prefix, e) && last_application_image(prefix.take(e)) == Some(p);
            assert forall|i: int| 0 <= i < e implies !(#[trigger] events[i] is PartsEnd) by {
                assert(events[i] == prefix[i]);
            }
            assert(application_parts_end_at(events, e));
            assert(events.take(e) == prefix.take(e));
        }
        match reached {
            ApplicationFlow::Receiving(sub) => {
                if last is PartsEnd {
                    assert(application_parts_end_at(events, n));
                    if let Some(form) = sub.data {
                        assert(application_form_sent(events, form));
                    }
                    if let Some(path) = sub.image_path {
                        assert(application_image_sent(events, path));
                    }
                } else {
                    assert forall|i: int| 0 <= i < events.len() implies !(#[trigger] events[i] is PartsEnd) by {
                        if i < n {
                            assert(events[i] == prefix[i]);
                        }
                    }
                }
            },
            ApplicationFlow::Extracting { form, image_path } => {
                assert(application_form_sent(events, form));
                assert(application_image_sent(events, image_path));
            },
            ApplicationFlow::FetchingTags { form, image_path, .. } => {
                assert(application_form_sent(events, form));
                assert(application_image_sent(events, image_path));
            },
            ApplicationFlow::Uploading { form, .. } => {
                assert(application_form_sent(events, form));
            },
            _ => {},
        }
        let full = actions.push(action);
        assert forall|k: int| 0 <= k < events.len() implies match #[trigger] full[k] {
            ApplicationAction::Store(record) => application_form_sent(events.take(k), record.form),
            ApplicationAction::FetchTags(id) => exists|f: ApplicationForm|
                #[trigger] application_form_sent(events.take(k), f) && f.job_id == id,
            ApplicationAction::ExtractText(path) => application_parts_end_at(events, k)
                && last_application_image(events.take(k)) == Some(path),
            ApplicationAction::Upload(path) => application_image_sent(events.take(k), path),
            _ => true,
        } by {
            if k < n {
                assert(full[k] == actions[k]);
                assert(events.take(k) == prefix.take(k));
            } else {
                assert(full[k] == action);
                if let ApplicationFlow::Extracting { form, .. } = reached {
                    assert(application_form_sent(prefix, form));
                }
                if let ApplicationFlow::FetchingTags { image_path, .. } = reached {
                    assert(application_image_sent(prefix, image_path));
                }
            }
        }
    }
}

} // verus!
