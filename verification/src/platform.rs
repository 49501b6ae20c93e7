//! The punchthrough protocol: a single-use capability token that lets
//! sandboxed code perform exactly one privileged operation whose success and
//! failure types are fixed per provider.

use vstd::prelude::*;

pub mod trivial_providers;

verus! {

/// How executing a punchthrough failed: either the capability is a stub and
/// reports which operation was requested, or the provider produced its own
/// failure payload, which this crate does not interpret.
pub enum PunchthroughError<F> {
    /// The capability is not implemented; the payload is the diagnostic
    /// label identifying which operation was requested.
    Unimplemented(&'static str),
    /// The provider's own failure payload.
    Failure(F),
}

/// A single-use privileged-operation token. Executing it consumes it, so it
/// can be used at most once; the success and failure payload types are fixed
/// by the implementing token type at compile time.
pub trait Punchthrough: Sized {
    /// What a successful execution yields.
    type ReturnSuccess;

    /// The provider-specific failure payload.
    type ReturnFailure;

    /// What executing this token yields: each token type commits to a
    /// relation between the consumed token and its outcome.
    spec fn execute_ensures(
        self,
        r: Result<Self::ReturnSuccess, PunchthroughError<Self::ReturnFailure>>,
    ) -> bool;

    /// Consume the token and perform the privileged operation.
    fn execute(self) -> (r: Result<
        Self::ReturnSuccess,
        PunchthroughError<Self::ReturnFailure>,
    >)
        ensures
            self.execute_ensures(r),
    ;
}

/// A capability factory: asked for a token, it either produces one or shows,
/// by producing none, that the capability does not exist.
pub trait PunchthroughProvider {
    /// The token type this provider commits to.
    type Punchthrough: Punchthrough;

    /// The token this provider hands out, if the capability exists.
    spec fn token_spec(&self) -> Option<Self::Punchthrough>;

    /// Ask the provider for its single-use token.
    fn get_punchthrough(&self) -> (r: Option<Self::Punchthrough>)
        ensures
            r == self.token_spec(),
    ;
}

} // verus!
