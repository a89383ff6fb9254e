use vstd::prelude::*;

verus! {

/// Every way an invocation of the client can fail. Each variant is terminal
/// for the invocation that raised it: nothing is retried.
#[derive(Debug, Clone, Copy, PartialEq, Eq, Structural)]
pub enum Error {
    /// The account email or password was not supplied (or was empty).
    MissingConfiguration,
    /// The login endpoint answered 401: the account credentials are wrong.
    InvalidCredentials,
    /// A resource endpoint answered 401: the cached token is no longer valid.
    TokenExpired,
    /// The server answered with a status (or a login body) nothing here expects.
    UnexpectedResponse,
    /// A 2xx body did not have the shape the decoders require.
    UnexpectedResponseShape,
    /// A device entry carried a product id that is neither a hub nor a flap.
    UnknownDeviceCategory,
    /// A pet entry carried a position that is neither inside nor outside.
    InvalidPetPosition,
    /// The cached token file could not be read or written.
    FilesystemError,
}

/// The one-line description of an error, as the user sees it.
pub open spec fn message_spec(e: Error) -> Seq<char> {
    match e {
        Error::MissingConfiguration => "Please set the email and password environment variables"@,
        Error::InvalidCredentials => "Invalid credentials"@,
        Error::TokenExpired => "Need to grab a new token"@,
        Error::UnexpectedResponse => "Uh oh! Something unexpected happened."@,
        Error::UnexpectedResponseShape => "Hm, the response didn't match the shape we expected."@,
        Error::UnknownDeviceCategory => "This device is unknown!"@,
        Error::InvalidPetPosition => "Invalid pet position"@,
        Error::FilesystemError => "Cannot read or write the token file"@,
    }
}

impl Error {
    /// Human-readable description of the failure.
    pub fn message(&self) -> (r: String)
        ensures
            r@ == message_spec(*self),
    {
        match self {
            Error::MissingConfiguration => "Please set the email and password environment variables".to_owned(),
            Error::InvalidCredentials => "Invalid credentials".to_owned(),
            Error::TokenExpired => "Need to grab a new token".to_owned(),
            Error::UnexpectedResponse => "Uh oh! Something unexpected happened.".to_owned(),
            Error::UnexpectedResponseShape => "Hm, the response didn't match the shape we expected.".to_owned(),
            Error::UnknownDeviceCategory => "This device is unknown!".to_owned(),
            Error::InvalidPetPosition => "Invalid pet position".to_owned(),
            Error::FilesystemError => "Cannot read or write the token file".to_owned(),
        }
    }
}

} // verus!
