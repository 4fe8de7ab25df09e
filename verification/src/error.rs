use vstd::prelude::*;

verus! {

/// Errors the library reports.
#[derive(Debug)]
pub enum DetectError {
    /// The camera could not be opened, started or read.
    Camera(String),
    /// A configuration value would make the detector misbehave.
    Config(String),
    /// A file could not be read.
    Io(String),
}

impl DetectError {
    /// The human-readable detail carried by the error.
    pub open spec fn detail_view(&self) -> Seq<char> {
        match self {
            DetectError::Camera(m) => m@,
            DetectError::Config(m) => m@,
            DetectError::Io(m) => m@,
        }
    }

    /// The human-readable detail carried by the error.
    pub fn detail(&self) -> (d: &String)
        ensures
            d@ == self.detail_view(),
    {
        match self {
            DetectError::Camera(m) => m,
            DetectError::Config(m) => m,
            DetectError::Io(m) => m,
        }
    }
}

} // verus!
