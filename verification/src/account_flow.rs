use vstd::prelude::*;

use crate::auth::LoginRequest;
use crate::models::{NewUser, StoredUser};
use crate::password::{password_accepted, password_matches};
use crate::reply::{
    json_message, plain, Body, Message, Reply, CREATED, INTERNAL_SERVER_ERROR, NOT_FOUND, OK,
    UNAUTHORIZED, BAD_REQUEST,
};

verus! {

/// What the sign-up and login handlers are to do next.
#[derive(Debug)]
pub enum AccountAction {
    /// Look up the user with this email.
    FindUser(String),
    /// Store this new user (whose password the store hashes first).
    Create(NewUser),
    /// Issue a session token for this email.
    IssueToken(String),
    /// Answer the request.
    Respond(Reply<()>),
    /// Nothing: the event did not fit where the request stands.
    Idle,
}

/// Where a sign-up stands.
#[derive(Debug)]
pub enum SignupFlow {
    /// Looking for a user with the new user's email.
    LookingUp(NewUser),
    /// Storing the new user, whose email is kept for the token.
    Creating { email: String },
    /// Issuing a token for the user stored under `user_id`.
    IssuingToken { user_id: String },
    /// The request has been answered.
    Done,
}

/// What happens during a sign-up.
#[derive(Debug)]
pub enum SignupEvent {
    /// The lookup finished: whether a user with the email exists, or the
    /// store's error.
    LookedUp(Result<bool, String>),
    /// Storing finished: the new user's id as text, or the store's error.
    Created(Result<String, String>),
    /// The session token was issued.
    TokenIssued(String),
}

impl SignupFlow {
    /// Where a sign-up of `user` starts, and its first action.
    pub open spec fn start_spec(user: NewUser) -> (SignupFlow, AccountAction) {
        (SignupFlow::LookingUp(user), AccountAction::FindUser(user.email))
    }

    /// The next stage and action after `event`.
    pub open spec fn next(self, event: SignupEvent) -> (SignupFlow, AccountAction) {
        match (self, event) {
            (SignupFlow::LookingUp(user), SignupEvent::LookedUp(found)) => match found {
                Ok(true) => (
                    SignupFlow::Done,
                    AccountAction::Respond(json_message(BAD_REQUEST, Message::UserAlreadyExists)),
                ),
                Ok(false) => (SignupFlow::Creating { email: user.email }, AccountAction::Create(user)),
                Err(_) => (
                    SignupFlow::Done,
                    AccountAction::Respond(plain(INTERNAL_SERVER_ERROR, Message::InternalServerError)),
                ),
            },
            (SignupFlow::Creating { email }, SignupEvent::Created(r)) => match r {
                Ok(id) => (SignupFlow::IssuingToken { user_id: id }, AccountAction::IssueToken(email)),
                Err(e) => (
                    SignupFlow::Done,
                    AccountAction::Respond(
                        Reply { status: INTERNAL_SERVER_ERROR, body: Body::PlainText(e) },
                    ),
                ),
            },
            (SignupFlow::IssuingToken { user_id }, SignupEvent::TokenIssued(token)) => (
                SignupFlow::Done,
                AccountAction::Respond(
                    Reply { status: CREATED, body: Body::Session { user_id, token } },
                ),
            ),
            (s, _) => (s, AccountAction::Idle),
        }
    }

    /// Starts the sign-up of `user`: first, look for a user with its email.
    pub fn start(user: NewUser) -> (r: (SignupFlow, AccountAction))
        ensures
            r == SignupFlow::start_spec(user),
    {
        let email = user.email.clone();
        (SignupFlow::LookingUp(user), AccountAction::FindUser(email))
    }

    /// Takes in `event` and says what to do next.
    pub fn step(self, event: SignupEvent) -> (r: (SignupFlow, AccountAction))
        ensures
            r == self.next(event),
    {
        match self {
            SignupFlow::LookingUp(user) => match event {
                SignupEvent::LookedUp(found) => match found {
                    Ok(true) => (
                        SignupFlow::Done,
                        AccountAction::Respond(
                            Reply::json_message(BAD_REQUEST, Message::UserAlreadyExists),
                        ),
                    ),
                    Ok(false) => {
                        let email = user.email.clone();
                        (SignupFlow::Creating { email }, AccountAction::Create(user))
                    },
                    Err(_) => (
                        SignupFlow::Done,
                        AccountAction::Respond(
                            Reply::plain(INTERNAL_SERVER_ERROR, Message::InternalServerError),
                        ),
                    ),
                },
                _ => (SignupFlow::LookingUp(user), AccountAction::Idle),
            },
            SignupFlow::Creating { email } => match event {
                SignupEvent::Created(r) => match r {
                    Ok(id) => (SignupFlow::IssuingToken { user_id: id }, AccountAction::IssueToken(email)),
                    Err(e) => (
                        SignupFlow::Done,
                        AccountAction::Respond(
                            Reply { status: INTERNAL_SERVER_ERROR, body: Body::PlainText(e) },
                        ),
                    ),
                },
                _ => (SignupFlow::Creating { email }, AccountAction::Idle),
            },
            SignupFlow::IssuingToken { user_id } => match event {
                SignupEvent::TokenIssued(token) => (
                    SignupFlow::Done,
                    AccountAction::Respond(
                        Reply { status: CREATED, body: Body::Session { user_id, token } },
                    ),
                ),
                _ => (SignupFlow::IssuingToken { user_id }, AccountAction::Idle),
            },
            SignupFlow::Done => (SignupFlow::Done, AccountAction::Idle),
        }
    }
}

/// Where a login stands.
#[derive(Debug)]
pub enum LoginFlow {
    /// Looking up the user who tries to log in.
    LookingUp(LoginRequest),
    /// Issuing a token for the user stored under `user_id`.
    IssuingToken { user_id: String },
    /// The request has been answered.
    Done,
}

/// What happens during a login.
#[derive(Debug)]
pub enum LoginEvent {
    /// The lookup finished: the stored user, `None` when there is none with
    /// the email, or the store's error.
    LookedUp(Result<Option<StoredUser>, String>),
    /// The session token was issued.
    TokenIssued(String),
}

impl LoginFlow {
    /// Where a login with `request` starts, and its first action.
    pub open spec fn start_spec(request: LoginRequest) -> (LoginFlow, AccountAction) {
        (LoginFlow::LookingUp(request), AccountAction::FindUser(request.email))
    }

    /// The next stage and action after `event`.
    pub open spec fn next(self, event: LoginEvent) -> (LoginFlow, AccountAction) {
        match (self, event) {
            (LoginFlow::LookingUp(request), LoginEvent::LookedUp(found)) => match found {
                Ok(Some(user)) => if password_accepted(request.password@, user.password_hash@) {
                    (LoginFlow::IssuingToken { user_id: user.id }, AccountAction::IssueToken(request.email))
                } else {
                    (
                        LoginFlow::Done,
                        AccountAction::Respond(json_message(UNAUTHORIZED, Message::InvalidCredentials)),
                    )
                },
                Ok(None) => (
                    LoginFlow::Done,
                    AccountAction::Respond(json_message(NOT_FOUND, Message::UserNotFound)),
                ),
                Err(_) => (
                    LoginFlow::Done,
                    AccountAction::Respond(plain(INTERNAL_SERVER_ERROR, Message::InternalServerError)),
                ),
            },
            (LoginFlow::IssuingToken { user_id }, LoginEvent::TokenIssued(token)) => (
                LoginFlow::Done,
                AccountAction::Respond(Reply { status: OK, body: Body::Session { user_id, token } }),
            ),
            (s, _) => (s, AccountAction::Idle),
        }
    }

    /// Starts a login with `request`: first, look up the user by email.
    pub fn start(request: LoginRequest) -> (r: (LoginFlow, AccountAction))
        ensures
            r == LoginFlow::start_spec(request),
    {
        let email = request.email.clone();
        (LoginFlow::LookingUp(request), AccountAction::FindUser(email))
    }

    /// Takes in `event` and says what to do next.
    pub fn step(self, event: LoginEvent) -> (r: (LoginFlow, AccountAction))
        ensures
            r == self.next(event),
    {
        match self {
            LoginFlow::LookingUp(request) => match event {
                LoginEvent::LookedUp(found) => match found {
                    Ok(Some(user)) => {
                        if password_matches(request.password.as_str(), user.password_hash.as_str()) {
                            (
                                LoginFlow::IssuingToken { user_id: user.id },
                                AccountAction::IssueToken(request.email),
                            )
                        } else {
                            (
                                LoginFlow::Done,
                                AccountAction::Respond(
                                    Reply::json_message(UNAUTHORIZED, Message::InvalidCredentials),
                                ),
                            )
                        }
                    },
                    Ok(None) => (
                        LoginFlow::Done,
                        AccountAction::Respond(Reply::json_message(NOT_FOUND, Message::UserNotFound)),
                    ),
                    Err(_) => (
                        LoginFlow::Done,
                        AccountAction::Respond(
                            Reply::plain(INTERNAL_SERVER_ERROR, Message::InternalServerError),
                        ),
                    ),
                },
                _ => (LoginFlow::LookingUp(request), AccountAction::Idle),
            },
            LoginFlow::IssuingToken { user_id } => match event {
                LoginEvent::TokenIssued(token) => (
                    LoginFlow::Done,
                    AccountAction::Respond(Reply { status: OK, body: Body::Session { user_id, token } }),
                ),
                _ => (LoginFlow::IssuingToken { user_id }, AccountAction::Idle),
            },
            LoginFlow::Done => (LoginFlow::Done, AccountAction::Idle),
        }
    }
}

/// How many of `actions` answer the request.
pub open spec fn account_answers(actions: Seq<AccountAction>) -> nat
    decreases actions.len(),
{
    if actions.len() == 0 {
        0
    } else {
        account_answers(actions.drop_last()) + if actions.last() is Respond {
            1nat
        } else {
            0nat
        }
    }
}

/// The stage reached and the actions taken when `events` arrive in turn,
/// after a sign-up of `user` starts.
pub open spec fn signup_run(user: NewUser, events: Seq<SignupEvent>) -> (SignupFlow, Seq<AccountAction>)
    decreases events.len(),
{
    if events.len() == 0 {
        let (flow, first) = SignupFlow::start_spec(user);
        (flow, seq![first])
    } else {
        let (reached, actions) = signup_run(user, events.drop_last());
        let (after, action) = reached.next(events.last());
        (after, actions.push(action))
    }
}

/// The stage reached and the actions taken when `events` arrive in turn,
/// after a login with `request` starts.
pub open spec fn login_run(request: LoginRequest, events: Seq<LoginEvent>) -> (LoginFlow, Seq<AccountAction>)
    decreases events.len(),
{
    if events.len() == 0 {
        let (flow, first) = LoginFlow::start_spec(request);
        (flow, seq![first])
    } else {
        let (reached, actions) = login_run(request, events.drop_last());
        let (after, action) = reached.next(events.last());
        (after, actions.push(action))
    }
}

/// A sign-up is answered at most once, whatever events arrive: it is answered
/// exactly when it is done, and once done it does nothing more.
pub proof fn lemma_signup_answered_at_most_once(user: NewUser, events: Seq<SignupEvent>)
    ensures
        account_answers(signup_run(user, events).1) == if signup_run(user, events).0 is Done {
            1nat
        } else {
            0nat
        },
        account_answers(signup_run(user, events).1) <= 1,
    decreases events.len(),
{
    if events.len() == 0 {
        let first = SignupFlow::start_spec(user).1;
        assert(seq![first].drop_last() =~= Seq::<AccountAction>::empty());
        assert(seq![first].last() == first);
        assert(account_answers(Seq::<AccountAction>::empty()) == 0);
        assert(account_answers(seq![first]) == 0);
    } else {
        lemma_signup_answered_at_most_once(user, events.drop_last());
        let (reached, actions) = signup_run(user, events.drop_last());
        assert(actions.push(reached.next(events.last()).1).drop_last() =~= actions);
    }
}

/// A login is answered at most once, whatever events arrive: it is answered
/// exactly when it is done, and once done it does nothing more.
pub proof fn lemma_login_answered_at_most_once(request: LoginRequest, events: Seq<LoginEvent>)
    ensures
        account_answers(login_run(request, events).1) == if login_run(request, events).0 is Done {
            1nat
        } else {
            0nat
        },
        account_answers(login_run(request, events).1) <= 1,
    decreases events.len(),
{
    if events.len() == 0 {
        let first = LoginFlow::start_spec(request).1;
        assert(seq![first].drop_last() =~= Seq::<AccountAction>::empty());
        assert(seq![first].last() == first);
        assert(account_answers(Seq::<AccountAction>::empty()) == 0);
        assert(account_answers(seq![first]) == 0);
    } else {
        lemma_login_answered_at_most_once(request, events.drop_last());
        let (reached, actions) = login_run(request, events.drop_last());
        assert(actions.push(reached.next(events.last()).1).drop_last() =~= actions);
    }
}

/// A user who signed up logs in with the same password: when the password
/// stored for them is the hash that `NewUser::with_hashed_password` made of
/// the password they signed up with, a login with that password and email
/// is granted a token for their email.
pub proof fn lemma_signed_up_password_logs_in(
    signed_up: NewUser,
    stored: NewUser,
    request: LoginRequest,
    user_id: String,
)
    requires
        password_accepted(signed_up.password@, stored.password@),
        request.password@ == signed_up.password@,
    ensures
        LoginFlow::LookingUp(request).next(
            LoginEvent::LookedUp(Ok(Some(StoredUser { id: user_id, password_hash: stored.password }))),
        ) == (LoginFlow::IssuingToken { user_id }, AccountAction::IssueToken(request.email)),
{
}

/// No two of `emails` are the same.
pub open spec fn all_distinct(emails: Seq<Seq<char>>) -> bool {
    forall|i: int, j: int| 0 <= i < j < emails.len() ==> emails[i] != emails[j]
}

/// Emails stay unique: when the stored users' emails are distinct and the
/// lookup answers whether the new user's email is among them, a sign-up
/// stores the user only if its email is new, so the emails stay distinct
/// with it added.
pub proof fn lemma_signup_keeps_emails_unique(emails: Seq<Seq<char>>, user: NewUser)
    requires
        all_distinct(emails),
    ensures
        match SignupFlow::LookingUp(user).next(
            SignupEvent::LookedUp(Ok(emails.contains(user.email@))),
        ).1 {
            AccountAction::Create(created) => {
                &&& created.email@ == user.email@
                &&& !emails.contains(created.email@)
                &&& all_distinct(emails.push(created.email@))
            },
            _ => true,
        },
{
    if !emails.contains(user.email@) {
        let pushed = emails.push(user.email@);
        assert forall|i: int, j: int| 0 <= i < j < pushed.len() implies pushed[i] != pushed[j] by {
            if j == emails.len() {
                assert(pushed[i] == emails[i]);
            } else {
                assert(pushed[i] == emails[i] && pushed[j] == emails[j]);
            }
        }
    }
}

/// A login whose password the stored hash does not accept is refused with
/// 401 "Invalid credentials", and no token is issued.
pub proof fn lemma_rejected_password_refused(request: LoginRequest, user: StoredUser)
    requires
        !password_accepted(request.password@, user.password_hash@),
    ensures
        LoginFlow::LookingUp(request).next(LoginEvent::LookedUp(Ok(Some(user)))) == (
            LoginFlow::Done,
            AccountAction::Respond(json_message(UNAUTHORIZED, Message::InvalidCredentials)),
        ),
{
}

/// Who the stage reached in a sign-up of `user` is about: the lookup holds
/// `user` itself, and the creation keeps `user`'s email.
pub open spec fn signup_stage_about(user: NewUser, stage: SignupFlow) -> bool {
    match stage {
        SignupFlow::LookingUp(u) => u == user,
        SignupFlow::Creating { email } => email == user.email,
        _ => true,
    }
}

/// A sign-up of `user` acts on `user` alone: it looks up `user`'s email, stores
/// `user` unchanged (name, email, password, IP address and location), and
/// only right after the lookup answered that no user has that email, and it
/// issues the token for `user`'s email.
pub proof fn lemma_signup_creates_user_unchanged(user: NewUser, events: Seq<SignupEvent>)
    ensures
        signup_stage_about(user, signup_run(user, events).0),
        signup_run(user, events).1.len() == events.len() + 1,
        forall|k: int| 0 <= k < signup_run(user, events).1.len() ==> match #[trigger] signup_run(user, events).1[k] {
            AccountAction::FindUser(email) => email == user.email,
            AccountAction::Create(created) => {
                &&& created == user
                &&& 1 <= k
                &&& events[k - 1] == SignupEvent::LookedUp(Ok(false))
            },
            AccountAction::IssueToken(email) => email == user.email,
            _ => true,
        },
    decreases events.len(),
{
    if events.len() > 0 {
        let prefix = events.drop_last();
        let n = prefix.len() as int;
        lemma_signup_creates_user_unchanged(user, prefix);
        let (reached, actions) = signup_run(user, prefix);
        let last = events.last();
        let (after, action) = reached.next(last);
        assert(signup_run(user, events) == (after, actions.push(action)));
        let full = actions.push(action);
        assert forall|k: int| 0 <= k < full.len() implies match #[trigger] full[k] {
            AccountAction::FindUser(email) => email == user.email,
            AccountAction::Create(created) => {
                &&& created == user
                &&& 1 <= k
                &&& events[k - 1] == SignupEvent::LookedUp(Ok(false))
            },
            AccountAction::IssueToken(email) => email == user.email,
            _ => true,
        } by {
            if k <= n {
                assert(full[k] == actions[k]);
                if 1 <= k {
                    assert(events[k - 1] == prefix[k - 1]);
                }
            } else {
                assert(full[k] == action);
                assert(events[k - 1] == last);
            }
        }
    }
}

/// A login with `request` issues a token only for `request`'s own email, and
/// only right after the lookup found a user whose stored hash accepts
/// `request`'s password; the lookup is for `request`'s email.
pub proof fn lemma_login_token_needs_accepted_password(request: LoginRequest, events: Seq<LoginEvent>)
    ensures
        login_run(request, events).0 matches LoginFlow::LookingUp(r) ==> r == request,
        login_run(request, events).1.len() == events.len() + 1,
        forall|k: int| 0 <= k < login_run(request, events).1.len() ==> match #[trigger] login_run(request, events).1[k] {
            AccountAction::FindUser(email) => email == request.email,
            AccountAction::IssueToken(email) => {
                &&& email == request.email
                &&& 1 <= k
                &&& events[k - 1] matches LoginEvent::LookedUp(Ok(Some(user)))
                &&& password_accepted(request.password@, user.password_hash@)
            },
            _ => true,
        },
    decreases events.len(),
{
    if events.len() > 0 {
        let prefix = events.drop_last();
        let n = prefix.len() as int;
        lemma_login_token_needs_accepted_password(request, prefix);
        let (reached, actions) = login_run(request, prefix);
        let last = events.last();
        let (after, action) = reached.next(last);
        assert(login_run(request, events) == (after, actions.push(action)));
        let full = actions.push(action);
        assert forall|k: int| 0 <= k < full.len() implies match #[trigger] full[k] {
            AccountAction::FindUser(email) => email == request.email,
            AccountAction::IssueToken(email) => {
                &&& email == request.email
                &&& 1 <= k
                &&& events[k - 1] matches LoginEvent::LookedUp(Ok(Some(user)))
                &&& password_accepted(request.password@, user.password_hash@)
            },
            _ => true,
        } by {
            if k <= n {
                assert(full[k] == actions[k]);
                if 1 <= k {
                    assert(events[k - 1] == prefix[k - 1]);
                }
            } else {
                assert(full[k] == action);
                assert(events[k - 1] == last);
            }
        }
    }
}

} // verus!
