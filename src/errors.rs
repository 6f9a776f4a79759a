//! Error kinds of the library and how they surface to a caller.
use vstd::prelude::*;

verus! {

/// What went wrong while loading or searching; each kind carries its message.
pub enum CatError {
    /// A metadata file could not be parsed.
    TomlDe(String),
    /// Metadata could not be written out.
    TomlSer(String),
    /// Reading or writing a file failed, or a looked-up article is unknown.
    IO(String),
    /// Walking the article directory failed.
    Walker(String),
    /// Any other failure.
    Custom(String),
}

impl CatError {
    /// An internal error with the given message.
    pub fn internal(msg: String) -> (r: CatError)
        ensures
            r matches CatError::Custom(m) && m@ == msg@,
    {
        CatError::Custom(msg)
    }
}

/// What a request answers with when it fails.
pub enum RespError {
    NotFound,
    BadRequest,
    InternalServerError,
    Custom(String),
}

/// The answer that a failure of each kind turns into: a parse failure or a
/// failed walk is a missing page, an I/O or write failure an internal error,
/// and a custom failure keeps its message.
pub open spec fn resp_of(e: CatError) -> RespError {
    match e {
        CatError::TomlDe(_) | CatError::Walker(_) => RespError::NotFound,
        CatError::IO(_) | CatError::TomlSer(_) => RespError::InternalServerError,
        CatError::Custom(s) => RespError::Custom(s),
    }
}

impl From<CatError> for RespError {
    fn from(err: CatError) -> (r: RespError)
        ensures
            r == resp_of(err),
    {
        match err {
            CatError::TomlDe(_) | CatError::Walker(_) => RespError::NotFound,
            CatError::IO(_) | CatError::TomlSer(_) => RespError::InternalServerError,
            CatError::Custom(s) => RespError::Custom(s),
        }
    }
}

impl vstd::std_specs::convert::FromSpecImpl<CatError> for RespError {
    open spec fn obeys_from_spec() -> bool {
        true
    }

    open spec fn from_spec(err: CatError) -> RespError {
        resp_of(err)
    }
}

} // verus!
