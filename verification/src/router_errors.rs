//! The router-side error taxonomy: quoting-library failures, router
//! failures, and the combined surface a router call reports, with the stable
//! numeric code of each.

use vstd::prelude::*;

verus! {

/// Failures of the pure quoting library.
#[derive(Clone, Copy, Debug, PartialEq, Eq, Structural)]
pub enum RaumFiLibraryError {
    /// The quoted amount must be positive.
    InsufficientAmount,
    /// Both reserves must be positive (or a product overflowed).
    InsufficientLiquidity,
    /// The swap input must be positive.
    InsufficientInputAmount,
    /// The requested swap output must be positive.
    InsufficientOutputAmount,
    /// A trading path needs at least two entries.
    InvalidPath,
    /// `token_a` and `token_b` have identical addresses.
    SortIdenticalTokens,
}

impl RaumFiLibraryError {
    /// The stable numeric code of this error on the wire.
    pub fn code(&self) -> (c: u32)
        ensures
            c == self.spec_code(),
    {
        match self {
            RaumFiLibraryError::InsufficientAmount => 301,
            RaumFiLibraryError::InsufficientLiquidity => 302,
            RaumFiLibraryError::InsufficientInputAmount => 303,
            RaumFiLibraryError::InsufficientOutputAmount => 304,
            RaumFiLibraryError::InvalidPath => 305,
            RaumFiLibraryError::SortIdenticalTokens => 306,
        }
    }

    /// Numeric code, at the specification level.
    pub open spec fn spec_code(self) -> u32 {
        match self {
            RaumFiLibraryError::InsufficientAmount => 301,
            RaumFiLibraryError::InsufficientLiquidity => 302,
            RaumFiLibraryError::InsufficientInputAmount => 303,
            RaumFiLibraryError::InsufficientOutputAmount => 304,
            RaumFiLibraryError::InvalidPath => 305,
            RaumFiLibraryError::SortIdenticalTokens => 306,
        }
    }
}

/// Failures of the router's own checks.
#[derive(Clone, Copy, Debug, PartialEq, Eq, Structural)]
pub enum RaumFiRouterError {
    /// Not yet initialized.
    NotInitialized,
    /// Negative amounts are not allowed.
    NegativeNotAllowed,
    /// The caller-supplied deadline has passed.
    DeadlineExpired,
    /// Already initialized.
    InitializeAlreadyInitialized,
    /// Less of token A than the stated minimum.
    InsufficientAAmount,
    /// Less of token B than the stated minimum.
    InsufficientBAmount,
    /// Final output below the stated minimum.
    InsufficientOutputAmount,
    /// Required input above the stated maximum.
    ExcessiveInputAmount,
    /// No pair exists between the two tokens.
    PairDoesNotExist,
}

impl RaumFiRouterError {
    /// The stable numeric code of this error on the wire.
    pub fn code(&self) -> (c: u32)
        ensures
            c == self.spec_code(),
    {
        match self {
            RaumFiRouterError::NotInitialized => 401,
            RaumFiRouterError::NegativeNotAllowed => 402,
            RaumFiRouterError::DeadlineExpired => 403,
            RaumFiRouterError::InitializeAlreadyInitialized => 404,
            RaumFiRouterError::InsufficientAAmount => 405,
            RaumFiRouterError::InsufficientBAmount => 406,
            RaumFiRouterError::InsufficientOutputAmount => 407,
            RaumFiRouterError::ExcessiveInputAmount => 408,
            RaumFiRouterError::PairDoesNotExist => 409,
        }
    }

    /// Numeric code, at the specification level.
    pub open spec fn spec_code(self) -> u32 {
        match self {
            RaumFiRouterError::NotInitialized => 401,
            RaumFiRouterError::NegativeNotAllowed => 402,
            RaumFiRouterError::DeadlineExpired => 403,
            RaumFiRouterError::InitializeAlreadyInitialized => 404,
            RaumFiRouterError::InsufficientAAmount => 405,
            RaumFiRouterError::InsufficientBAmount => 406,
            RaumFiRouterError::InsufficientOutputAmount => 407,
            RaumFiRouterError::ExcessiveInputAmount => 408,
            RaumFiRouterError::PairDoesNotExist => 409,
        }
    }
}

/// The combined error surface a router entry point reports: its own checks
/// and the quoting library's, each under a distinct code.
#[derive(Clone, Copy, Debug, PartialEq, Eq, Structural)]
pub enum RouterErrorsForLibrary {
    RouterNotInitialized,
    RouterNegativeNotAllowed,
    RouterDeadlineExpired,
    RouterInitializeAlreadyInitialized,
    RouterInsufficientAAmount,
    RouterInsufficientBAmount,
    RouterInsufficientOutputAmount,
    RouterExcessiveInputAmount,
    RouterPairDoesNotExist,
    LibraryInsufficientAmount,
    LibraryInsufficientLiquidity,
    LibraryInsufficientInputAmount,
    LibraryInsufficientOutputAmount,
    LibraryInvalidPath,
    LibrarySortIdenticalTokens,
}

impl RouterErrorsForLibrary {
    /// The stable numeric code of this error on the wire.
    pub fn code(&self) -> (c: u32)
        ensures
            c == self.spec_code(),
    {
        match self {
            RouterErrorsForLibrary::RouterNotInitialized => 501,
            RouterErrorsForLibrary::RouterNegativeNotAllowed => 502,
            RouterErrorsForLibrary::RouterDeadlineExpired => 503,
            RouterErrorsForLibrary::RouterInitializeAlreadyInitialized => 504,
            RouterErrorsForLibrary::RouterInsufficientAAmount => 505,
            RouterErrorsForLibrary::RouterInsufficientBAmount => 506,
            RouterErrorsForLibrary::RouterInsufficientOutputAmount => 507,
            RouterErrorsForLibrary::RouterExcessiveInputAmount => 508,
            RouterErrorsForLibrary::RouterPairDoesNotExist => 509,
            RouterErrorsForLibrary::LibraryInsufficientAmount => 510,
            RouterErrorsForLibrary::LibraryInsufficientLiquidity => 511,
            RouterErrorsForLibrary::LibraryInsufficientInputAmount => 512,
            RouterErrorsForLibrary::LibraryInsufficientOutputAmount => 513,
            RouterErrorsForLibrary::LibraryInvalidPath => 514,
            RouterErrorsForLibrary::LibrarySortIdenticalTokens => 515,
        }
    }

    /// Numeric code, at the specification level.
    pub open spec fn spec_code(self) -> u32 {
        match self {
            RouterErrorsForLibrary::RouterNotInitialized => 501,
            RouterErrorsForLibrary::RouterNegativeNotAllowed => 502,
            RouterErrorsForLibrary::RouterDeadlineExpired => 503,
            RouterErrorsForLibrary::RouterInitializeAlreadyInitialized => 504,
            RouterErrorsForLibrary::RouterInsufficientAAmount => 505,
            RouterErrorsForLibrary::RouterInsufficientBAmount => 506,
            RouterErrorsForLibrary::RouterInsufficientOutputAmount => 507,
            RouterErrorsForLibrary::RouterExcessiveInputAmount => 508,
            RouterErrorsForLibrary::RouterPairDoesNotExist => 509,
            RouterErrorsForLibrary::LibraryInsufficientAmount => 510,
            RouterErrorsForLibrary::LibraryInsufficientLiquidity => 511,
            RouterErrorsForLibrary::LibraryInsufficientInputAmount => 512,
            RouterErrorsForLibrary::LibraryInsufficientOutputAmount => 513,
            RouterErrorsForLibrary::LibraryInvalidPath => 514,
            RouterErrorsForLibrary::LibrarySortIdenticalTokens => 515,
        }
    }
}

impl From<RaumFiLibraryError> for RouterErrorsForLibrary {
    fn from(err: RaumFiLibraryError) -> Self {
        match err {
            RaumFiLibraryError::InsufficientAmount =>
                RouterErrorsForLibrary::LibraryInsufficientAmount,
            RaumFiLibraryError::InsufficientLiquidity =>
                RouterErrorsForLibrary::LibraryInsufficientLiquidity,
            RaumFiLibraryError::InsufficientInputAmount =>
                RouterErrorsForLibrary::LibraryInsufficientInputAmount,
            RaumFiLibraryError::InsufficientOutputAmount =>
                RouterErrorsForLibrary::LibraryInsufficientOutputAmount,
            RaumFiLibraryError::InvalidPath => RouterErrorsForLibrary::LibraryInvalidPath,
            RaumFiLibraryError::SortIdenticalTokens =>
                RouterErrorsForLibrary::LibrarySortIdenticalTokens,
        }
    }
}

impl vstd::std_specs::convert::FromSpecImpl<RaumFiLibraryError> for RouterErrorsForLibrary {
    open spec fn obeys_from_spec() -> bool {
        true
    }

    open spec fn from_spec(err: RaumFiLibraryError) -> RouterErrorsForLibrary {
        match err {
            RaumFiLibraryError::InsufficientAmount =>
                RouterErrorsForLibrary::LibraryInsufficientAmount,
            RaumFiLibraryError::InsufficientLiquidity =>
                RouterErrorsForLibrary::LibraryInsufficientLiquidity,
            RaumFiLibraryError::InsufficientInputAmount =>
                RouterErrorsForLibrary::LibraryInsufficientInputAmount,
            RaumFiLibraryError::InsufficientOutputAmount =>
                RouterErrorsForLibrary::LibraryInsufficientOutputAmount,
            RaumFiLibraryError::InvalidPath => RouterErrorsForLibrary::LibraryInvalidPath,
            RaumFiLibraryError::SortIdenticalTokens =>
                RouterErrorsForLibrary::LibrarySortIdenticalTokens,
        }
    }
}

impl From<RaumFiRouterError> for RouterErrorsForLibrary {
    fn from(err: RaumFiRouterError) -> Self {
        match err {
            RaumFiRouterError::NotInitialized => RouterErrorsForLibrary::RouterNotInitialized,
            RaumFiRouterError::NegativeNotAllowed =>
                RouterErrorsForLibrary::RouterNegativeNotAllowed,
            RaumFiRouterError::DeadlineExpired =>
                RouterErrorsForLibrary::RouterDeadlineExpired,
            RaumFiRouterError::InitializeAlreadyInitialized =>
                RouterErrorsForLibrary::RouterInitializeAlreadyInitialized,
            RaumFiRouterError::InsufficientAAmount =>
                RouterErrorsForLibrary::RouterInsufficientAAmount,
            RaumFiRouterError::InsufficientBAmount =>
                RouterErrorsForLibrary::RouterInsufficientBAmount,
            RaumFiRouterError::InsufficientOutputAmount =>
                RouterErrorsForLibrary::RouterInsufficientOutputAmount,
            RaumFiRouterError::ExcessiveInputAmount =>
                RouterErrorsForLibrary::RouterExcessiveInputAmount,
            RaumFiRouterError::PairDoesNotExist =>
                RouterErrorsForLibrary::RouterPairDoesNotExist,
        }
    }
}

impl vstd::std_specs::convert::FromSpecImpl<RaumFiRouterError> for RouterErrorsForLibrary {
    open spec fn obeys_from_spec() -> bool {
        true
    }

    open spec fn from_spec(err: RaumFiRouterError) -> RouterErrorsForLibrary {
        match err {
            RaumFiRouterError::NotInitialized => RouterErrorsForLibrary::RouterNotInitialized,
            RaumFiRouterError::NegativeNotAllowed =>
                RouterErrorsForLibrary::RouterNegativeNotAllowed,
            RaumFiRouterError::DeadlineExpired =>
                RouterErrorsForLibrary::RouterDeadlineExpired,
            RaumFiRouterError::InitializeAlreadyInitialized =>
                RouterErrorsForLibrary::RouterInitializeAlreadyInitialized,
            RaumFiRouterError::InsufficientAAmount =>
                RouterErrorsForLibrary::RouterInsufficientAAmount,
            RaumFiRouterError::InsufficientBAmount =>
                RouterErrorsForLibrary::RouterInsufficientBAmount,
            RaumFiRouterError::InsufficientOutputAmount =>
                RouterErrorsForLibrary::RouterInsufficientOutputAmount,
            RaumFiRouterError::ExcessiveInputAmount =>
                RouterErrorsForLibrary::RouterExcessiveInputAmount,
            RaumFiRouterError::PairDoesNotExist =>
                RouterErrorsForLibrary::RouterPairDoesNotExist,
        }
    }
}

} // verus!
