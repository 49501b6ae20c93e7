//! Implementations of trivial providers: one whose capability provably does
//! not exist, and one that compiles and runs but reports every request as
//! unimplemented while real infrastructure is still being set up.

use vstd::prelude::*;

use crate::platform::Punchthrough;
use crate::platform::PunchthroughError;
use crate::platform::PunchthroughProvider;

verus! {

/// A trivial provider, useful when no punchthrough is necessary: it never
/// hands out a token, and its token type cannot be constructed at all.
pub struct ImpossiblePunchthroughProvider {}

impl PunchthroughProvider for ImpossiblePunchthroughProvider {
    type Punchthrough = ImpossiblePunchthrough;

    open spec fn token_spec(&self) -> Option<ImpossiblePunchthrough> {
        None
    }

    fn get_punchthrough(&self) -> (r: Option<ImpossiblePunchthrough>) {
        None
    }
}

/// The impossible provider never hands a token out: call sites can be
/// generic over "does this capability exist" and rely on there being nothing
/// to execute.
pub proof fn lemma_impossible_token_never_provided(p: ImpossiblePunchthroughProvider)
    ensures
        p.token_spec() is None,
{
}

/// A [`Punchthrough`] for [`ImpossiblePunchthroughProvider`]: its only field
/// has the uninhabited type `core::convert::Infallible`, so no value of it
/// can ever exist and `execute` is unreachable by construction rather than
/// by a runtime check.
pub struct ImpossiblePunchthrough {
    never: core::convert::Infallible,
}

impl Punchthrough for ImpossiblePunchthrough {
    // `Infallible` has no value, so even the payload types promise that no
    // outcome of this operation can be observed.
    type ReturnSuccess = core::convert::Infallible;

    type ReturnFailure = core::convert::Infallible;

    open spec fn execute_ensures(
        self,
        r: Result<core::convert::Infallible, PunchthroughError<core::convert::Infallible>>,
    ) -> bool {
        true
    }

    fn execute(self) -> (r: Result<
        core::convert::Infallible,
        PunchthroughError<core::convert::Infallible>,
    >) {
        never_result(self.never)
    }
}

/// Relies on `core::convert::Infallible` having no value: no caller can ever
/// produce the argument, so this function can never be invoked, and the
/// empty match is its whole body.
#[verifier::external_body]
fn never_result(never: core::convert::Infallible) -> (r: Result<
    core::convert::Infallible,
    PunchthroughError<core::convert::Infallible>,
>) {
    match never {}
}

/// A trivial provider, useful when punchthroughs are necessary but should
/// simply be caught as "unimplemented" for the time being: its token always
/// fails with the diagnostic label the provider was constructed with.
pub struct IgnoredPunchthroughProvider {
    label: &'static str,
}

impl IgnoredPunchthroughProvider {
    /// The diagnostic label this provider stamps on every token.
    pub closed spec fn spec_label(&self) -> &'static str {
        self.label
    }

    /// Creates a provider whose tokens report the given capability label.
    pub fn new(label: &'static str) -> (r: Self)
        ensures
            r.spec_label() == label,
    {
        IgnoredPunchthroughProvider { label }
    }
}

impl PunchthroughProvider for IgnoredPunchthroughProvider {
    type Punchthrough = IgnoredPunchthrough;

    closed spec fn token_spec(&self) -> Option<IgnoredPunchthrough> {
        Some(IgnoredPunchthrough { data: self.label })
    }

    fn get_punchthrough(&self) -> (r: Option<IgnoredPunchthrough>) {
        Some(IgnoredPunchthrough { data: self.label })
    }
}

/// An ignored provider always hands a token out, stamped with the provider's
/// own diagnostic label.
pub proof fn lemma_ignored_token_label(p: IgnoredPunchthroughProvider)
    ensures
        p.token_spec() matches Some(t) && t.spec_label() == p.spec_label(),
{
}

/// A [`Punchthrough`] for [`IgnoredPunchthroughProvider`]: executing it
/// always returns the unimplemented failure carrying the diagnostic label it
/// was created with.
pub struct IgnoredPunchthrough {
    data: &'static str,
}

impl IgnoredPunchthrough {
    /// The diagnostic label this token will report.
    pub closed spec fn spec_label(&self) -> &'static str {
        self.data
    }
}

impl Punchthrough for IgnoredPunchthrough {
    type ReturnSuccess = Underspecified;

    type ReturnFailure = Underspecified;

    open spec fn execute_ensures(
        self,
        r: Result<Underspecified, PunchthroughError<Underspecified>>,
    ) -> bool {
        r == Err::<Underspecified, PunchthroughError<Underspecified>>(
            PunchthroughError::Unimplemented(self.spec_label()),
        )
    }

    fn execute(self) -> (r: Result<Underspecified, PunchthroughError<Underspecified>>) {
        Err(PunchthroughError::Unimplemented(self.data))
    }
}

/// An under-specified payload type: it exists so that [`IgnoredPunchthrough`]
/// can name success and failure payloads, but nothing in this crate ever
/// constructs a value of it, and its field is private so nothing outside can
/// either. A value of it in flight would indicate a broken contract.
pub struct Underspecified {
    __private: (),
}

} // verus!
