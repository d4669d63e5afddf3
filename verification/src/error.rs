//! Errors of the program as a whole.

use vstd::prelude::*;

verus! {

#[derive(Debug)]
pub enum AppError {
    InvalidArgument(String),
}

impl AppError {
    pub open spec fn text(self) -> Seq<char> {
        match self {
            AppError::InvalidArgument(reason) => "invalid argument: "@ + reason@,
        }
    }

    pub fn message(&self) -> (r: String)
        ensures
            r@ == self.text(),
    {
        match self {
            AppError::InvalidArgument(reason) => {
                let mut out = "invalid argument: ".to_owned();
                out.append(reason.as_str());
                out
            },
        }
    }
}

} // verus!
