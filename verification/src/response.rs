//! The unified response shape: either a success payload, or one or more
//! errors. Internal failures dominate the rendered status, and when one is
//! present only the first of them is shown to the caller.

use vstd::pervasive::unreached;
use vstd::prelude::*;

use crate::error::{spec_is_internal, Error, StoreError};

verus! {

/// Unified response type: a payload, a single error, or a list of errors.
#[derive(Debug)]
pub enum TTResponse<T> {
    Data(T),
    Error(Error),
    Errors(Vec<Error>),
}

/// The index of the first internal error in the list, or -1 when none is
/// internal.
pub open spec fn spec_first_internal(s: Seq<Error>) -> int
    decreases s.len(),
{
    if s.len() == 0 {
        -1
    } else if spec_is_internal(s[0]) {
        0
    } else {
        let rest = spec_first_internal(s.drop_first());
        if rest == -1 {
            -1
        } else {
            rest + 1
        }
    }
}

/// The first internal error's index is in range and marks the first
/// internal entry.
pub proof fn lemma_first_internal(s: Seq<Error>)
    ensures
        spec_first_internal(s) == -1 ==> forall|i: int|
            0 <= i < s.len() ==> !spec_is_internal(#[trigger] s[i]),
        spec_first_internal(s) != -1 ==> {
            &&& 0 <= spec_first_internal(s) < s.len()
            &&& spec_is_internal(s[spec_first_internal(s)])
            &&& forall|i: int|
                0 <= i < spec_first_internal(s) ==> !spec_is_internal(#[trigger] s[i])
        },
    decreases s.len(),
{
    if s.len() > 0 && !spec_is_internal(s[0]) {
        let t = s.drop_first();
        lemma_first_internal(t);
        let r = spec_first_internal(t);
        if r == -1 {
            assert forall|i: int| 0 <= i < s.len() implies !spec_is_internal(s[i]) by {
                if i > 0 {
                    assert(t[i - 1] == s[i]);
                }
            }
        } else {
            assert(spec_first_internal(s) == r + 1);
            assert(s[r + 1] == t[r]);
            assert forall|i: int| 0 <= i < r + 1 implies !spec_is_internal(s[i]) by {
                if i > 0 {
                    assert(t[i - 1] == s[i]);
                }
            }
        }
    }
}

/// The index of the first internal error, if any.
fn first_internal_error(errors: &Vec<Error>) -> (r: Option<usize>)
    ensures
        match r {
            Some(i) => i == spec_first_internal(errors@) && i < errors@.len(),
            None => spec_first_internal(errors@) == -1,
        },
{
    let mut i: usize = 0;
    while i < errors.len()
        invariant
            0 <= i <= errors@.len(),
            forall|j: int| 0 <= j < i ==> !spec_is_internal(#[trigger] errors@[j]),
        decreases errors@.len() - i,
    {
        if errors[i].is_internal() {
            proof {
                lemma_first_internal(errors@);
                assert(spec_first_internal(errors@) == i);
            }
            return Some(i);
        }
        i = i + 1;
    }
    proof {
        lemma_first_internal(errors@);
        if spec_first_internal(errors@) != -1 {
            assert(spec_is_internal(errors@[spec_first_internal(errors@)]));
        }
    }
    None
}

impl<T> TTResponse<T> {
    /// The HTTP status this response is rendered with: 200 for a payload,
    /// 500 when an internal error is present, 400 otherwise.
    pub open spec fn spec_status_code(&self) -> int {
        match self {
            TTResponse::Data(_) => 200int,
            TTResponse::Error(e) => if spec_is_internal(*e) {
                500int
            } else {
                400int
            },
            TTResponse::Errors(es) => if spec_first_internal(es@) != -1 {
                500int
            } else {
                400int
            },
        }
    }

    /// The HTTP status this response is rendered with.
    pub fn status_code(&self) -> (r: u16)
        ensures
            r == self.spec_status_code(),
    {
        match self {
            TTResponse::Data(_) => 200,
            TTResponse::Error(e) => {
                if e.is_internal() {
                    500
                } else {
                    400
                }
            },
            TTResponse::Errors(es) => {
                if first_internal_error(es).is_some() {
                    500
                } else {
                    400
                }
            },
        }
    }

    /// The errors shown to the caller: when an internal error is present,
    /// only the first of them; otherwise all of them.
    pub fn visible_errors(self) -> (r: Vec<Error>)
        requires
            !(self is Data),
        ensures
            match self {
                TTResponse::Error(e) => r@.len() == 1 && r@[0] == e,
                TTResponse::Errors(es) => {
                    if spec_first_internal(es@) != -1 {
                        r@.len() == 1 && r@[0] == es@[spec_first_internal(es@)]
                    } else {
                        r@ == es@
                    }
                },
                TTResponse::Data(_) => false,
            },
    {
        match self {
            TTResponse::Data(_) => {
                proof {
                    assert(false);
                }
                unreached()
            },
            TTResponse::Error(e) => {
                let mut r: Vec<Error> = Vec::new();
                r.push(e);
                r
            },
            TTResponse::Errors(mut es) => {
                match first_internal_error(&es) {
                    Some(i) => {
                        let e = es.remove(i);
                        let mut r: Vec<Error> = Vec::new();
                        r.push(e);
                        r
                    },
                    None => es,
                }
            },
        }
    }

    /// Extracts the payload; for use where the response is known to carry
    /// one.
    pub fn unwrap_data(self) -> (r: T)
        requires
            self is Data,
        ensures
            self matches TTResponse::Data(d) && r == d,
    {
        match self {
            TTResponse::Data(d) => d,
            _ => {
                proof {
                    assert(false);
                }
                unreached()
            },
        }
    }

    /// Extracts the errors; for use where the response is known to carry
    /// some.
    pub fn unwrap_errors(self) -> (r: Vec<Error>)
        requires
            !(self is Data),
        ensures
            match self {
                TTResponse::Errors(es) => r == es,
                TTResponse::Error(e) => r@.len() == 1 && r@[0] == e,
                TTResponse::Data(_) => false,
            },
    {
        match self {
            TTResponse::Errors(es) => es,
            TTResponse::Error(e) => {
                let mut r: Vec<Error> = Vec::new();
                r.push(e);
                r
            },
            TTResponse::Data(_) => {
                proof {
                    assert(false);
                }
                unreached()
            },
        }
    }

    /// The response standing for a list of validation errors.
    pub fn from_errors(errors: Vec<Error>) -> (r: Self)
        ensures
            r matches TTResponse::Errors(es) && es == errors,
    {
        TTResponse::Errors(errors)
    }

    /// The response standing for a persistence failure.
    pub fn from_store_error(e: StoreError) -> (r: Self)
        ensures
            r matches TTResponse::Error(err) && err.message == e.message && spec_is_internal(err),
    {
        TTResponse::Error(Error::internal_error(e.message))
    }
}

} // verus!
