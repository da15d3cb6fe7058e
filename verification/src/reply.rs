use vstd::prelude::*;

verus! {

/// The fixed messages with which requests are answered.
#[derive(Clone, Copy, Debug, PartialEq, Eq, Structural)]
pub enum Message {
    InvalidMultipart,
    MissingApplicationData,
    MissingJobData,
    MissingImageFile,
    ImageUploadFailed,
    UserAlreadyExists,
    InvalidCredentials,
    UserNotFound,
    InternalServerError,
}

impl Message {
    /// The words of the message.
    pub open spec fn text_spec(self) -> Seq<char> {
        match self {
            Message::InvalidMultipart => "Invalid multipart data"@,
            Message::MissingApplicationData => "Missing application data"@,
            Message::MissingJobData => "Missing job data"@,
            Message::MissingImageFile => "Missing image file"@,
            Message::ImageUploadFailed => "Image upload failed. Please provide a valid image."@,
            Message::UserAlreadyExists => "User already exists"@,
            Message::InvalidCredentials => "Invalid credentials"@,
            Message::UserNotFound => "User not found"@,
            Message::InternalServerError => "Internal server error"@,
        }
    }

    /// The words of the message.
    pub fn text(&self) -> (t: String)
        ensures
            t@ == self.text_spec(),
    {
        match self {
            Message::InvalidMultipart => "Invalid multipart data".to_owned(),
            Message::MissingApplicationData => "Missing application data".to_owned(),
            Message::MissingJobData => "Missing job data".to_owned(),
            Message::MissingImageFile => "Missing image file".to_owned(),
            Message::ImageUploadFailed => "Image upload failed. Please provide a valid image.".to_owned(),
            Message::UserAlreadyExists => "User already exists".to_owned(),
            Message::InvalidCredentials => "Invalid credentials".to_owned(),
            Message::UserNotFound => "User not found".to_owned(),
            Message::InternalServerError => "Internal server error".to_owned(),
        }
    }
}

/// The body of an answer.
#[derive(Debug, PartialEq, Eq)]
pub enum Body<Id> {
    /// A fixed message as plain text.
    Plain(Message),
    /// Some other text, such as a store's error message, as plain text.
    PlainText(String),
    /// A fixed message as a JSON string.
    JsonMessage(Message),
    /// The JSON object `{"id": id}` for a stored record.
    Inserted(Id),
    /// The JSON object `{"userId": user_id, "token": token}` for a session.
    Session { user_id: String, token: String },
}

/// An answer to a request: an HTTP status and a body.
#[derive(Debug, PartialEq, Eq)]
pub struct Reply<Id> {
    pub status: u16,
    pub body: Body<Id>,
}

pub const OK: u16 = 200;
pub const CREATED: u16 = 201;
pub const BAD_REQUEST: u16 = 400;
pub const UNAUTHORIZED: u16 = 401;
pub const NOT_FOUND: u16 = 404;
pub const INTERNAL_SERVER_ERROR: u16 = 500;

/// A fixed plain-text message with status `status`.
pub open spec fn plain<Id>(status: u16, m: Message) -> Reply<Id> {
    Reply { status, body: Body::Plain(m) }
}

/// A fixed JSON-string message with status `status`.
pub open spec fn json_message<Id>(status: u16, m: Message) -> Reply<Id> {
    Reply { status, body: Body::JsonMessage(m) }
}

impl<Id> Reply<Id> {
    /// A fixed plain-text message with status `status`.
    pub fn plain(status: u16, m: Message) -> (r: Reply<Id>)
        ensures
            r == plain::<Id>(status, m),
    {
        Reply { status, body: Body::Plain(m) }
    }

    /// A fixed JSON-string message with status `status`.
    pub fn json_message(status: u16, m: Message) -> (r: Reply<Id>)
        ensures
            r == json_message::<Id>(status, m),
    {
        Reply { status, body: Body::JsonMessage(m) }
    }
}

} // verus!
