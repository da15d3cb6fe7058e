use best_fit_jobs::account_flow::{
    AccountAction, LoginEvent, LoginFlow, SignupEvent, SignupFlow,
};
use best_fit_jobs::application_flow::{
    extracted_text, score_application, ApplicationAction, ApplicationEvent, ApplicationFlow,
};
use best_fit_jobs::auth::{Claims, JwtAuthMiddleware, LoginRequest, TOKEN_LIFETIME_DAYS};
use best_fit_jobs::job_flow::{JobAction, JobEvent, JobFlow};
use best_fit_jobs::models::{
    ApplicationForm, JobAvailability, JobCategory, JobForm, JobType, NewUser, StoredUser,
};
use best_fit_jobs::password::{hash_password, password_matches};
use best_fit_jobs::random::random_string;
use best_fit_jobs::reply::{Body, Message, Reply};
use best_fit_jobs::scoring::{match_counts, resume_word_list, MatchScore};
use best_fit_jobs::submission::{part_kind, Part, PartKind};
use best_fit_jobs::uploads::{upload_path, CloudinaryConfig, UploadError};

fn strings(words: &[&str]) -> Vec<String> {
    words.iter().map(|w| w.to_string()).collect()
}

#[test]
fn availability_parses_any_case() {
    assert_eq!(JobAvailability::from_str("remote"), Ok(JobAvailability::Remote));
    assert_eq!(JobAvailability::from_str("HYBRID"), Ok(JobAvailability::Hybrid));
    assert_eq!(JobAvailability::from_str("Freelance"), Ok(JobAvailability::Freelance));
    assert_eq!(JobAvailability::from_str("oFfIcE"), Ok(JobAvailability::Office));
    assert_eq!("Remote".parse::<JobAvailability>(), Ok(JobAvailability::Remote));
}

#[test]
fn availability_refuses_unknown_names() {
    assert_eq!(JobAvailability::from_str("onsite"), Err("Invalid job availability"));
    assert_eq!(JobAvailability::from_str(" remote"), Err("Invalid job availability"));
    assert_eq!(JobAvailability::from_str(""), Err("Invalid job availability"));
    assert_eq!(JobAvailability::from_lowercase("Remote"), Err("Invalid job availability"));
    assert_eq!(JobAvailability::from_lowercase("office"), Ok(JobAvailability::Office));
}

#[test]
fn resume_words_are_lowercased_and_trimmed() {
    assert_eq!(
        resume_word_list("Hello, World!  foo-bar\t(Rust)"),
        strings(&["hello", "world", "foo-bar", "rust"])
    );
    assert_eq!(resume_word_list("!!! a"), strings(&["", "a"]));
    assert_eq!(resume_word_list("   "), strings(&[]));
    assert_eq!(resume_word_list(""), strings(&[]));
    assert_eq!(resume_word_list("x\u{3000}y\u{a0}z"), strings(&["x", "y", "z"]));
    assert_eq!(resume_word_list("ÉCOLE"), strings(&["école"]));
}

#[test]
fn match_counts_tags_found_in_resume() {
    let score = match_counts("I know Rust, Python and SQL!", Some(strings(&["rust", "Python", "Go"])));
    assert_eq!(score, MatchScore { matched: 2, total: 3 });
    let score = match_counts("Ingénieur ÉCOLE", Some(strings(&["école", "INGÉNIEUR"])));
    assert_eq!(score, MatchScore { matched: 2, total: 2 });
    let score = match_counts("rust rust rust", Some(strings(&["rust", "rust"])));
    assert_eq!(score, MatchScore { matched: 2, total: 2 });
}

#[test]
fn match_counts_without_tags_is_zero() {
    assert_eq!(match_counts("Rust", None), MatchScore { matched: 0, total: 0 });
    assert_eq!(match_counts("Rust", Some(vec![])), MatchScore { matched: 0, total: 0 });
    assert_eq!(match_counts("", Some(strings(&["rust"]))), MatchScore { matched: 0, total: 1 });
}

#[test]
fn match_counts_empty_tag_matches_punctuation_word() {
    assert_eq!(match_counts("--- hi", Some(strings(&[""]))), MatchScore { matched: 1, total: 1 });
    assert_eq!(match_counts("hi", Some(strings(&[""]))), MatchScore { matched: 0, total: 1 });
}

#[test]
fn random_string_has_requested_length_and_alphabet() {
    for n in [0usize, 1, 7, 64] {
        let s = random_string(n);
        assert_eq!(s.chars().count(), n);
        assert!(s.chars().all(|c| c.is_ascii_alphanumeric()));
    }
}

#[test]
fn claims_expire_two_days_after_issue() {
    let claims = Claims::issue("ada@example.com", 1_700_000_000).unwrap();
    assert_eq!(claims.sub, "ada@example.com");
    assert_eq!(claims.exp, 1_700_172_800);
    assert_eq!(TOKEN_LIFETIME_DAYS, 2);
}

#[test]
fn claims_beyond_calendar_are_refused() {
    assert!(Claims::issue("x", i64::MAX - 10).is_none());
}

#[test]
fn claims_issued_now_name_the_subject() {
    let claims = Claims::issue_now("bob@example.com").unwrap();
    assert_eq!(claims.sub, "bob@example.com");
    assert!(claims.exp > 1_700_000_000);
}

#[test]
fn bearer_token_is_taken_after_scheme() {
    assert_eq!(JwtAuthMiddleware::bearer_token("Bearer abc.def"), Some("abc.def".to_string()));
    assert_eq!(JwtAuthMiddleware::bearer_token("Bearer "), Some(String::new()));
    assert_eq!(JwtAuthMiddleware::bearer_token("bearer abc"), None);
    assert_eq!(JwtAuthMiddleware::bearer_token("Basic abc"), None);
    assert_eq!(JwtAuthMiddleware::bearer_token("Bearer"), None);
    assert_eq!(JwtAuthMiddleware::bearer_token(""), None);
}

#[test]
fn middleware_keeps_wrapped_service() {
    let wrapped = JwtAuthMiddleware.new_transform(41u32);
    assert_eq!(**wrapped.inner(), 41);
}

#[test]
fn hashed_password_verifies() {
    let hash = hash_password("hunter2").unwrap();
    assert_ne!(hash, "hunter2");
    assert!(hash.starts_with("$2b$12$"));
    assert_eq!(hash.len(), 60);
    assert!(password_matches("hunter2", &hash));
    assert!(!password_matches("hunter3", &hash));
}

#[test]
fn unreadable_hash_matches_nothing() {
    assert!(!password_matches("hunter2", "not a hash"));
    assert!(!password_matches("", ""));
}

#[test]
fn new_user_keeps_fields_and_hashes_password() {
    let user = NewUser {
        name: "Ada".to_string(),
        email: "ada@example.com".to_string(),
        password: "s3cret".to_string(),
        ip_address: "10.0.0.1".to_string(),
        location: "London".to_string(),
    };
    let stored = user.with_hashed_password().unwrap();
    assert_eq!(stored.name, "Ada");
    assert_eq!(stored.email, "ada@example.com");
    assert_eq!(stored.ip_address, "10.0.0.1");
    assert_eq!(stored.location, "London");
    assert!(password_matches("s3cret", &stored.password));
}

#[test]
fn upload_paths_stay_in_tmp() {
    assert_eq!(upload_path("photo.png"), "/tmp/photo.png");
    assert_eq!(upload_path("../../etc/passwd"), "/tmp/....etcpasswd");
    assert_eq!(upload_path(".."), "/tmp/");
    assert_eq!(upload_path("a:b*c?.pdf"), "/tmp/abc.pdf");
}

#[test]
fn upload_url_names_the_cloud() {
    let config = CloudinaryConfig::new("demo".to_string(), "key".to_string(), "secret".to_string());
    assert_eq!(config.upload_url(), "https://api.cloudinary.com/v1_1/demo/image/upload");
    assert_eq!(config.api_key, "key");
    assert_eq!(config.api_secret, "secret");
}

#[test]
fn secure_url_is_read_from_reply() {
    assert_eq!(
        CloudinaryConfig::secure_url(br#"{"secure_url":"https://res.example/x.png","x":1}"#),
        Ok("https://res.example/x.png".to_string())
    );
    assert_eq!(
        CloudinaryConfig::secure_url(br#"{"url":"http://res.example/x.png"}"#),
        Err(UploadError::MissingSecureUrl)
    );
    assert_eq!(CloudinaryConfig::secure_url(br#"{"secure_url":3}"#), Err(UploadError::MissingSecureUrl));
    assert_eq!(CloudinaryConfig::secure_url(b"[1,2]"), Err(UploadError::MissingSecureUrl));
    assert_eq!(CloudinaryConfig::secure_url(b"<html>"), Err(UploadError::ReplyNotJson));
}

#[test]
fn messages_read_as_the_handlers_wrote_them() {
    assert_eq!(Message::InvalidMultipart.text(), "Invalid multipart data");
    assert_eq!(Message::MissingApplicationData.text(), "Missing application data");
    assert_eq!(Message::MissingJobData.text(), "Missing job data");
    assert_eq!(Message::MissingImageFile.text(), "Missing image file");
    assert_eq!(
        Message::ImageUploadFailed.text(),
        "Image upload failed. Please provide a valid image."
    );
    assert_eq!(Message::UserAlreadyExists.text(), "User already exists");
    assert_eq!(Message::InvalidCredentials.text(), "Invalid credentials");
    assert_eq!(Message::UserNotFound.text(), "User not found");
    assert_eq!(Message::InternalServerError.text(), "Internal server error");
}

fn job_form() -> JobForm {
    JobForm {
        job_title: "Engineer".to_string(),
        job_description: "Builds things".to_string(),
        category: JobCategory::Engineering,
        tags: Some(strings(&["rust"])),
        job_type: JobType::FullTime,
        job_availability: JobAvailability::Remote,
        job_duration: 12,
        contract_duration: 0,
        location: "Lagos".to_string(),
    }
}

#[test]
fn job_posting_is_uploaded_then_stored() {
    let flow = JobFlow::new();
    let (flow, action) = flow.step::<u32>(JobEvent::Part(Part::Data(Some(job_form()))));
    assert!(matches!(action, JobAction::ReadNextPart));
    let (flow, action) = flow.step::<u32>(JobEvent::Part(Part::Other));
    assert!(matches!(action, JobAction::ReadNextPart));
    let (flow, action) = flow.step::<u32>(JobEvent::Part(Part::Image("/tmp/logo.png".to_string())));
    assert!(matches!(action, JobAction::ReadNextPart));
    let (flow, action) = flow.step::<u32>(JobEvent::PartsEnd);
    assert!(matches!(action, JobAction::Upload(ref p) if p == "/tmp/logo.png"));
    let (flow, action) = flow.step::<u32>(JobEvent::Uploaded(Some("https://img/logo.png".to_string())));
    match action {
        JobAction::Store(record) => {
            assert_eq!(record.job_image, "https://img/logo.png");
            assert_eq!(record.form.job_title, "Engineer");
        },
        other => panic!("unexpected {:?}", other),
    }
    let (flow, action) = flow.step::<u32>(JobEvent::Stored(Ok(7)));
    assert!(matches!(action, JobAction::Respond(Reply { status: 200, body: Body::Inserted(7) })));
    assert!(matches!(flow, JobFlow::Done));
    let (flow, action) = flow.step::<u32>(JobEvent::PartsEnd);
    assert!(matches!(action, JobAction::Idle));
    assert!(matches!(flow, JobFlow::Done));
}

#[test]
fn job_posting_without_parts_is_refused() {
    let (_, action) = JobFlow::new().step::<u32>(JobEvent::PartsEnd);
    assert!(matches!(
        action,
        JobAction::Respond(Reply { status: 400, body: Body::Plain(Message::MissingJobData) })
    ));
    let (flow, _) = JobFlow::new().step::<u32>(JobEvent::Part(Part::Data(Some(job_form()))));
    let (_, action) = flow.step::<u32>(JobEvent::PartsEnd);
    assert!(matches!(
        action,
        JobAction::Respond(Reply { status: 400, body: Body::Plain(Message::MissingImageFile) })
    ));
    let (_, action) = JobFlow::new().step::<u32>(JobEvent::PartFailed);
    assert!(matches!(
        action,
        JobAction::Respond(Reply { status: 400, body: Body::Plain(Message::InvalidMultipart) })
    ));
}

#[test]
fn job_posting_with_unparsable_data_is_refused() {
    let (flow, _) = JobFlow::new().step::<u32>(JobEvent::Part(Part::Data(Some(job_form()))));
    let (flow, _) = flow.step::<u32>(JobEvent::Part(Part::Data(None)));
    let (flow, _) = flow.step::<u32>(JobEvent::Part(Part::Image("/tmp/a".to_string())));
    let (_, action) = flow.step::<u32>(JobEvent::PartsEnd);
    assert!(matches!(
        action,
        JobAction::Respond(Reply { status: 400, body: Body::Plain(Message::MissingJobData) })
    ));
}

#[test]
fn job_posting_failures_after_upload() {
    let (flow, _) = JobFlow::new().step::<u32>(JobEvent::Part(Part::Data(Some(job_form()))));
    let (flow, _) = flow.step::<u32>(JobEvent::Part(Part::Image("/tmp/a".to_string())));
    let (flow, _) = flow.step::<u32>(JobEvent::PartsEnd);
    let (_, action) = flow.step::<u32>(JobEvent::Uploaded(None));
    assert!(matches!(
        action,
        JobAction::Respond(Reply { status: 400, body: Body::Plain(Message::ImageUploadFailed) })
    ));
    let (flow, _) = JobFlow::new().step::<u32>(JobEvent::Part(Part::Data(Some(job_form()))));
    let (flow, _) = flow.step::<u32>(JobEvent::Part(Part::Image("/tmp/a".to_string())));
    let (flow, _) = flow.step::<u32>(JobEvent::PartsEnd);
    let (flow, _) = flow.step::<u32>(JobEvent::Uploaded(Some("u".to_string())));
    let (_, action) = flow.step::<u32>(JobEvent::Stored(Err("disk full".to_string())));
    match action {
        JobAction::Respond(reply) => {
            assert_eq!(reply, Reply { status: 500, body: Body::PlainText("disk full".to_string()) })
        },
        other => panic!("unexpected {:?}", other),
    }
}

fn application_form() -> ApplicationForm {
    ApplicationForm {
        job_id: "65f0c0ffee0000000000abcd".to_string(),
        full_name: "Ada Lovelace".to_string(),
        email: "ada@example.com".to_string(),
        cover_letter: None,
        address: "1 Analytical St".to_string(),
        country: "UK".to_string(),
    }
}

#[test]
fn application_is_scored_uploaded_and_stored() {
    let flow = ApplicationFlow::new();
    let (flow, _) = flow.step::<u32>(ApplicationEvent::Part(Part::Image("/tmp/cv.pdf".to_string())));
    let (flow, _) = flow.step::<u32>(ApplicationEvent::Part(Part::Data(Some(application_form()))));
    let (flow, action) = flow.step::<u32>(ApplicationEvent::PartsEnd);
    assert!(matches!(action, ApplicationAction::ExtractText(ref p) if p == "/tmp/cv.pdf"));
    let (flow, action) =
        flow.step::<u32>(ApplicationEvent::TextExtracted(Ok("Rust and Go developer.".to_string())));
    assert!(matches!(action, ApplicationAction::FetchTags(ref id) if id == "65f0c0ffee0000000000abcd"));
    let (flow, action) =
        flow.step::<u32>(ApplicationEvent::TagsFetched(Ok(Some(strings(&["go", "java", "RUST", "sql"])))));
    assert!(matches!(action, ApplicationAction::Upload(ref p) if p == "/tmp/cv.pdf"));
    let (flow, action) = flow.step::<u32>(ApplicationEvent::Uploaded(Some("https://cv".to_string())));
    match action {
        ApplicationAction::Store(record) => {
            assert_eq!(record.resume, "https://cv");
            assert_eq!(record.score, MatchScore { matched: 2, total: 4 });
            assert_eq!(record.form.full_name, "Ada Lovelace");
        },
        other => panic!("unexpected {:?}", other),
    }
    let (flow, action) = flow.step::<u32>(ApplicationEvent::Stored(Ok(3)));
    assert!(matches!(action, ApplicationAction::Respond(Reply { status: 200, body: Body::Inserted(3) })));
    assert!(matches!(flow, ApplicationFlow::Done));
}

#[test]
fn application_missing_parts_is_refused() {
    let (_, action) = ApplicationFlow::new().step::<u32>(ApplicationEvent::PartsEnd);
    assert!(matches!(
        action,
        ApplicationAction::Respond(Reply { status: 400, body: Body::Plain(Message::MissingApplicationData) })
    ));
    let (flow, _) =
        ApplicationFlow::new().step::<u32>(ApplicationEvent::Part(Part::Data(Some(application_form()))));
    let (_, action) = flow.step::<u32>(ApplicationEvent::PartsEnd);
    assert!(matches!(
        action,
        ApplicationAction::Respond(Reply { status: 400, body: Body::Plain(Message::MissingImageFile) })
    ));
}

#[test]
fn application_scores_zero_without_tags() {
    let failed: Result<String, String> = Err("File not found".to_string());
    assert_eq!(extracted_text(&failed), "Failed to extract text: File not found");
    let text: Result<String, String> = Ok("rust".to_string());
    assert_eq!(score_application(&text, Ok(None)), MatchScore { matched: 0, total: 0 });
    assert_eq!(score_application(&text, Err("down".to_string())), MatchScore { matched: 0, total: 0 });
    assert_eq!(score_application(&text, Ok(Some(strings(&["rust"])))), MatchScore { matched: 1, total: 1 });
    assert_eq!(
        score_application(&failed, Ok(Some(strings(&["found", "text"])))),
        MatchScore { matched: 2, total: 2 }
    );
}

#[test]
fn application_upload_failure_is_refused() {
    let (flow, _) =
        ApplicationFlow::new().step::<u32>(ApplicationEvent::Part(Part::Data(Some(application_form()))));
    let (flow, _) = flow.step::<u32>(ApplicationEvent::Part(Part::Image("/tmp/cv.pdf".to_string())));
    let (flow, _) = flow.step::<u32>(ApplicationEvent::PartsEnd);
    let (flow, _) = flow.step::<u32>(ApplicationEvent::TextExtracted(Err("bad".to_string())));
    let (flow, _) = flow.step::<u32>(ApplicationEvent::TagsFetched(Ok(None)));
    let (flow, action) = flow.step::<u32>(ApplicationEvent::Uploaded(None));
    assert!(matches!(
        action,
        ApplicationAction::Respond(Reply { status: 400, body: Body::Plain(Message::ImageUploadFailed) })
    ));
    let (_, action) = flow.step::<u32>(ApplicationEvent::Stored(Ok(1)));
    assert!(matches!(action, ApplicationAction::Idle));
}

fn new_user() -> NewUser {
    NewUser {
        name: "Ada".to_string(),
        email: "ada@example.com".to_string(),
        password: "s3cret".to_string(),
        ip_address: "10.0.0.1".to_string(),
        location: "London".to_string(),
    }
}

#[test]
fn signup_creates_user_and_issues_token() {
    let (flow, action) = SignupFlow::start(new_user());
    assert!(matches!(action, AccountAction::FindUser(ref e) if e == "ada@example.com"));
    let (flow, action) = flow.step(SignupEvent::LookedUp(Ok(false)));
    assert!(matches!(action, AccountAction::Create(ref u) if u.password == "s3cret"));
    let (flow, action) = flow.step(SignupEvent::Created(Ok("65f0".to_string())));
    assert!(matches!(action, AccountAction::IssueToken(ref e) if e == "ada@example.com"));
    let (flow, action) = flow.step(SignupEvent::TokenIssued("tok".to_string()));
    match action {
        AccountAction::Respond(reply) => assert_eq!(
            reply,
            Reply {
                status: 201,
                body: Body::Session { user_id: "65f0".to_string(), token: "tok".to_string() }
            }
        ),
        other => panic!("unexpected {:?}", other),
    }
    assert!(matches!(flow, SignupFlow::Done));
}

#[test]
fn signup_refuses_known_email_and_reports_store_errors() {
    let (flow, _) = SignupFlow::start(new_user());
    let (_, action) = flow.step(SignupEvent::LookedUp(Ok(true)));
    assert!(matches!(
        action,
        AccountAction::Respond(Reply { status: 400, body: Body::JsonMessage(Message::UserAlreadyExists) })
    ));
    let (flow, _) = SignupFlow::start(new_user());
    let (_, action) = flow.step(SignupEvent::LookedUp(Err("timeout".to_string())));
    assert!(matches!(
        action,
        AccountAction::Respond(Reply { status: 500, body: Body::Plain(Message::InternalServerError) })
    ));
    let (flow, _) = SignupFlow::start(new_user());
    let (flow, _) = flow.step(SignupEvent::LookedUp(Ok(false)));
    let (_, action) = flow.step(SignupEvent::Created(Err("dup key".to_string())));
    match action {
        AccountAction::Respond(reply) => {
            assert_eq!(reply, Reply { status: 500, body: Body::PlainText("dup key".to_string()) })
        },
        other => panic!("unexpected {:?}", other),
    }
}

fn login(password: &str) -> (LoginFlow, AccountAction) {
    LoginFlow::start(LoginRequest { email: "ada@example.com".to_string(), password: password.to_string() })
}

#[test]
fn signed_up_user_logs_in() {
    let stored = new_user().with_hashed_password().unwrap();
    let (flow, action) = login("s3cret");
    assert!(matches!(action, AccountAction::FindUser(ref e) if e == "ada@example.com"));
    let found = StoredUser { id: "65f0".to_string(), password_hash: stored.password };
    let (flow, action) = flow.step(LoginEvent::LookedUp(Ok(Some(found))));
    assert!(matches!(action, AccountAction::IssueToken(ref e) if e == "ada@example.com"));
    let (flow, action) = flow.step(LoginEvent::TokenIssued("tok".to_string()));
    match action {
        AccountAction::Respond(reply) => assert_eq!(
            reply,
            Reply { status: 200, body: Body::Session { user_id: "65f0".to_string(), token: "tok".to_string() } }
        ),
        other => panic!("unexpected {:?}", other),
    }
    assert!(matches!(flow, LoginFlow::Done));
}

#[test]
fn login_refusals() {
    let stored = new_user().with_hashed_password().unwrap();
    let (flow, _) = login("wrong");
    let found = StoredUser { id: "65f0".to_string(), password_hash: stored.password };
    let (_, action) = flow.step(LoginEvent::LookedUp(Ok(Some(found))));
    assert!(matches!(
        action,
        AccountAction::Respond(Reply { status: 401, body: Body::JsonMessage(Message::InvalidCredentials) })
    ));
    let (flow, _) = login("s3cret");
    let (_, action) = flow.step(LoginEvent::LookedUp(Ok(None)));
    assert!(matches!(
        action,
        AccountAction::Respond(Reply { status: 404, body: Body::JsonMessage(Message::UserNotFound) })
    ));
    let (flow, _) = login("s3cret");
    let (flow, action) = flow.step(LoginEvent::LookedUp(Err("down".to_string())));
    assert!(matches!(
        action,
        AccountAction::Respond(Reply { status: 500, body: Body::Plain(Message::InternalServerError) })
    ));
    let (_, action) = flow.step(LoginEvent::TokenIssued("late".to_string()));
    assert!(matches!(action, AccountAction::Idle));
}

#[test]
fn parts_are_told_apart_by_name() {
    assert_eq!(part_kind(Some("data")), PartKind::Data);
    assert_eq!(part_kind(Some("image")), PartKind::Image);
    assert_eq!(part_kind(Some("Data")), PartKind::Other);
    assert_eq!(part_kind(Some("resume")), PartKind::Other);
    assert_eq!(part_kind(None), PartKind::Other);
}

#[test]
fn tag_order_does_not_change_score() {
    let resume = "Rust, Go and SQL";
    let a = match_counts(resume, Some(strings(&["go", "java", "rust", "go"])));
    let b = match_counts(resume, Some(strings(&["rust", "go", "go", "java"])));
    assert_eq!(a, b);
    assert_eq!(a, MatchScore { matched: 3, total: 4 });
}

#[test]
fn appended_text_never_lowers_score() {
    let tags = strings(&["rust", "go", "sql"]);
    let short = match_counts("Rust developer", Some(tags.clone()));
    let long = match_counts("Rust developer Go, SQL", Some(tags));
    assert_eq!(short, MatchScore { matched: 1, total: 3 });
    assert_eq!(long, MatchScore { matched: 3, total: 3 });
}

#[test]
fn plain_upload_names_are_kept() {
    assert_eq!(upload_path("cv_2024-final.pdf"), "/tmp/cv_2024-final.pdf");
    assert_eq!(upload_path("con.txt").starts_with("/tmp/"), true);
}

#[test]
fn claims_at_the_calendar_edges() {
    let last = 8_210_266_876_799i64;
    assert!(Claims::issue("x", last - 172_800).is_some());
    assert!(Claims::issue("x", last - 172_799).is_none());
    let first = -8_334_601_228_800i64;
    assert!(Claims::issue("x", first).is_some());
    assert!(Claims::issue("x", first - 1).is_none());
}

#[test]
fn availability_names_round_trip() {
    for (name, v) in [
        ("Remote", JobAvailability::Remote),
        ("Hybrid", JobAvailability::Hybrid),
        ("Freelance", JobAvailability::Freelance),
        ("Office", JobAvailability::Office),
    ] {
        assert_eq!(JobAvailability::from_str(name), Ok(v));
        assert_eq!(JobAvailability::from_str(&name.to_uppercase()), Ok(v));
        assert_eq!(JobAvailability::from_str(&name.to_lowercase()), Ok(v));
        assert_eq!(JobAvailability::from_str(&format!("{:?}", v)), Ok(v));
    }
    assert_eq!(JobAvailability::from_str("HyBrId"), Ok(JobAvailability::Hybrid));
}

#[test]
fn random_strings_are_ascii() {
    let s = random_string(33);
    assert!(s.is_ascii());
    assert_eq!(s.len(), 33);
}

#[test]
fn white_space_splits_exactly_as_std_says() {
    for n in 0u32..0x3100 {
        if let Some(c) = char::from_u32(n) {
            let text = format!("a{}b", c);
            let expected = if c.is_whitespace() { 2 } else { 1 };
            assert_eq!(resume_word_list(&text).len(), expected, "code point {:#x}", n);
        }
    }
}
