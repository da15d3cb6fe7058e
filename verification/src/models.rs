use vstd::prelude::*;

use crate::password::{hash_password, is_stored_hash, password_accepted, PasswordError};
use crate::scoring::MatchScore;
use crate::text::{ascii_lowercase, to_lowercase, unicode_lowercase};
use vstd::utf8::is_ascii_chars;

verus! {

/// The field a job belongs to.
#[derive(Clone, Copy, Debug, PartialEq, Eq, Structural)]
pub enum JobCategory {
    IT,
    Healthcare,
    Education,
    Engineering,
    Finance,
    Marketing,
    Sales,
    Legal,
}

/// How a job is contracted.
#[derive(Clone, Copy, Debug, PartialEq, Eq, Structural)]
pub enum JobType {
    FullTime,
    Contract,
}

/// Where a job is done.
#[derive(Clone, Copy, Debug, PartialEq, Eq, Structural)]
pub enum JobAvailability {
    Remote,
    Hybrid,
    Freelance,
    Office,
}

/// The availability that a lowercase name stands for, if any.
pub open spec fn availability_named(lower: Seq<char>) -> Option<JobAvailability> {
    if lower == "remote"@ {
        Some(JobAvailability::Remote)
    } else if lower == "hybrid"@ {
        Some(JobAvailability::Hybrid)
    } else if lower == "freelance"@ {
        Some(JobAvailability::Freelance)
    } else if lower == "office"@ {
        Some(JobAvailability::Office)
    } else {
        None
    }
}

/// The message with which an unknown availability name is refused.
pub open spec fn invalid_availability_message() -> Seq<char> {
    "Invalid job availability"@
}

/// What parsing gives for a name that is already lowercase.
pub open spec fn availability_result(lower: Seq<char>, r: Result<JobAvailability, &'static str>) -> bool {
    match availability_named(lower) {
        Some(a) => r == Ok::<JobAvailability, &'static str>(a),
        None => r is Err && r->Err_0@ == invalid_availability_message(),
    }
}

/// The name of an availability, as its variant is written.
pub open spec fn availability_name(a: JobAvailability) -> Seq<char> {
    match a {
        JobAvailability::Remote => "Remote"@,
        JobAvailability::Hybrid => "Hybrid"@,
        JobAvailability::Freelance => "Freelance"@,
        JobAvailability::Office => "Office"@,
    }
}

/// An availability's name parses back to it, in any mix of ASCII upper and
/// lower case: whatever `from_str` answers for ASCII text that lowercases
/// as the name does is `Ok` of that availability.
pub proof fn lemma_availability_name_round_trip(
    a: JobAvailability,
    input: Seq<char>,
    r: Result<JobAvailability, &'static str>,
)
    requires
        ascii_lowercase(input) == ascii_lowercase(availability_name(a)),
        availability_result(ascii_lowercase(input), r),
    ensures
        r == Ok::<JobAvailability, &'static str>(a),
{
    reveal_strlit("Remote");
    reveal_strlit("Hybrid");
    reveal_strlit("Freelance");
    reveal_strlit("Office");
    reveal_strlit("remote");
    reveal_strlit("hybrid");
    reveal_strlit("freelance");
    reveal_strlit("office");
    assert(ascii_lowercase("Remote"@) =~= "remote"@);
    assert(ascii_lowercase("Hybrid"@) =~= "hybrid"@);
    assert(ascii_lowercase("Freelance"@) =~= "freelance"@);
    assert(ascii_lowercase("Office"@) =~= "office"@);
    assert("remote"@[0] != "hybrid"@[0]);
    assert("remote"@[0] != "freelance"@[0]);
    assert("remote"@[0] != "office"@[0]);
    assert("hybrid"@[0] != "freelance"@[0]);
    assert("hybrid"@[0] != "office"@[0]);
    assert("freelance"@[0] != "office"@[0]);
}

impl JobAvailability {
    /// The availability named by `lower`, which must match one of "remote",
    /// "hybrid", "freelance" or "office" exactly.
    pub fn from_lowercase(lower: &str) -> (r: Result<JobAvailability, &'static str>)
        ensures
            availability_result(lower@, r),
    {
        let name = lower.to_owned();
        if name == "remote".to_owned() {
            Ok(JobAvailability::Remote)
        } else if name == "hybrid".to_owned() {
            Ok(JobAvailability::Hybrid)
        } else if name == "freelance".to_owned() {
            Ok(JobAvailability::Freelance)
        } else if name == "office".to_owned() {
            Ok(JobAvailability::Office)
        } else {
            Err("Invalid job availability")
        }
    }

    /// Parses an availability name regardless of case: the input is
    /// lowercased (as `str::to_lowercase` does) and then matched exactly.
    pub fn from_str(input: &str) -> (r: Result<JobAvailability, &'static str>)
        ensures
            availability_result(unicode_lowercase(input@), r),
            is_ascii_chars(input@) ==> availability_result(ascii_lowercase(input@), r),
    {
        let lower = to_lowercase(input);
        JobAvailability::from_lowercase(lower.as_str())
    }
}

/// A job as an employer posts it, before its image is uploaded.
#[derive(Debug)]
pub struct JobForm {
    pub job_title: String,
    pub job_description: String,
    pub category: JobCategory,
    /// The words that a matching resume should contain.
    pub tags: Option<Vec<String>>,
    pub job_type: JobType,
    pub job_availability: JobAvailability,
    pub job_duration: u32,
    pub contract_duration: u32,
    pub location: String,
}

/// A job ready to be stored: the posted form and the address of its image.
#[derive(Debug)]
pub struct JobRecord {
    pub form: JobForm,
    pub job_image: String,
}

/// An application as a candidate sends it, before the resume is uploaded.
#[derive(Debug)]
pub struct ApplicationForm {
    /// The job applied for, as the hex text of its id.
    pub job_id: String,
    pub full_name: String,
    pub email: String,
    pub cover_letter: Option<String>,
    pub address: String,
    pub country: String,
}

/// An application ready to be stored: the form, the address of the uploaded
/// resume, and how well the resume matches the job's tags.
#[derive(Debug)]
pub struct ApplicationRecord {
    pub form: ApplicationForm,
    pub resume: String,
    pub score: MatchScore,
}

/// A user as they sign up.  Before storage the password is replaced by its
/// bcrypt hash (`with_hashed_password`).
#[derive(Debug)]
pub struct NewUser {
    pub name: String,
    pub email: String,
    pub password: String,
    pub ip_address: String,
    pub location: String,
}

/// What login needs of a stored user: its id, as text, and its password hash.
#[derive(Debug)]
pub struct StoredUser {
    pub id: String,
    pub password_hash: String,
}

impl NewUser {
    /// The same user with the password replaced by its bcrypt hash, as it is
    /// stored: a bcrypt hash of cost `HASH_COST` that accepts the password it
    /// replaces.
    pub fn with_hashed_password(self) -> (r: Result<NewUser, PasswordError>)
        ensures
            r matches Ok(u) ==> {
                &&& u.name == self.name
                &&& u.email == self.email
                &&& u.ip_address == self.ip_address
                &&& u.location == self.location
                &&& password_accepted(self.password@, u.password@)
                &&& is_stored_hash(u.password@)
            },
            r matches Err(e) ==> e == PasswordError::HashingFailed,
    {
        match hash_password(self.password.as_str()) {
            Ok(hashed) => Ok(
                NewUser {
                    name: self.name,
                    email: self.email,
                    password: hashed,
                    ip_address: self.ip_address,
                    location: self.location,
                },
            ),
            Err(e) => Err(e),
        }
    }
}

impl std::str::FromStr for JobAvailability {
    type Err = &'static str;

    fn from_str(input: &str) -> (r: Result<JobAvailability, &'static str>)
        ensures
            availability_result(unicode_lowercase(input@), r),
            is_ascii_chars(input@) ==> availability_result(ascii_lowercase(input@), r),
    {
        JobAvailability::from_str(input)
    }
}

} // verus!
