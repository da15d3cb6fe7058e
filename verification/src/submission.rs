use vstd::prelude::*;

verus! {

/// How a part of a multipart upload is treated, by its name.
#[derive(Debug, Clone, Copy, PartialEq, Eq, Structural)]
pub enum PartKind {
    /// "data": the form, as JSON.
    Data,
    /// "image": the file to upload.
    Image,
    /// Any other name, or none: skipped.
    Other,
}

/// How a part named `name` is treated.
pub open spec fn kind_of(name: Option<Seq<char>>) -> PartKind {
    match name {
        Some(n) => if n == "data"@ {
            PartKind::Data
        } else if n == "image"@ {
            PartKind::Image
        } else {
            PartKind::Other
        },
        None => PartKind::Other,
    }
}

/// How a part named `name` is treated.
pub fn part_kind(name: Option<&str>) -> (k: PartKind)
    ensures
        k == kind_of(match name {
            Some(n) => Some(n@),
            None => None,
        }),
{
    match name {
        Some(n) => {
            let n = n.to_owned();
            if n == "data".to_owned() {
                PartKind::Data
            } else if n == "image".to_owned() {
                PartKind::Image
            } else {
                PartKind::Other
            }
        },
        None => PartKind::Other,
    }
}

/// One part of a multipart upload, as the handlers read it.
#[derive(Debug)]
pub enum Part<F> {
    /// The "data" part; `None` when it does not parse as a form.
    Data(Option<F>),
    /// The "image" part, saved at the given path.
    Image(String),
    /// A part under any other name, which is skipped.
    Other,
}

/// What a multipart upload has given so far: the last form parsed from a
/// "data" part and the path of the last "image" part.
#[derive(Debug)]
pub struct Submission<F> {
    pub data: Option<F>,
    pub image_path: Option<String>,
}

impl<F> Submission<F> {
    /// Nothing received yet.
    pub open spec fn empty() -> Submission<F> {
        Submission { data: None, image_path: None }
    }

    /// The submission after `part` arrives: a data part replaces the form
    /// (with `None` when it did not parse), an image part replaces the path.
    pub open spec fn received(self, part: Part<F>) -> Submission<F> {
        match part {
            Part::Data(d) => Submission { data: d, image_path: self.image_path },
            Part::Image(path) => Submission { data: self.data, image_path: Some(path) },
            Part::Other => self,
        }
    }

    /// Nothing received yet.
    pub fn new() -> (s: Submission<F>)
        ensures
            s == Submission::<F>::empty(),
    {
        Submission { data: None, image_path: None }
    }

    /// Takes in one more part.
    pub fn receive(self, part: Part<F>) -> (s: Submission<F>)
        ensures
            s == self.received(part),
    {
        match part {
            Part::Data(d) => Submission { data: d, image_path: self.image_path },
            Part::Image(path) => Submission { data: self.data, image_path: Some(path) },
            Part::Other => self,
        }
    }
}

} // verus!
