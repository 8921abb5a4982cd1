//! The user's choice of certificate checking on encrypted connections.
use vstd::prelude::*;

verus! {

/// Whether a server's certificate chain is checked against the known root
/// certificates.
#[derive(Debug, Clone, Copy, PartialEq, Eq, Structural)]
pub enum CertificateValidation {
    /// The server must present a valid chain to a known root certificate.
    Enabled,
    /// No certificate is checked, which leaves the connection open to
    /// tampering.
    DangerousDisabled,
}

impl CertificateValidation {
    /// Whether certificates are checked.
    pub open spec fn checks(self) -> bool {
        self is Enabled
    }

    /// The setting for a "verify certificates" flag.
    pub fn from_flag(verify: bool) -> (r: CertificateValidation)
        ensures
            r.checks() == verify,
    {
        if verify {
            CertificateValidation::Enabled
        } else {
            CertificateValidation::DangerousDisabled
        }
    }

    /// The setting as it is shown: whether certificates are checked.
    pub fn to_string(&self) -> (r: String)
        ensures
            r@ == if self.checks() {
                "true"@
            } else {
                "false"@
            },
    {
        match self {
            CertificateValidation::Enabled => String::from_str("true"),
            CertificateValidation::DangerousDisabled => String::from_str("false"),
        }
    }
}

impl From<bool> for CertificateValidation {
    fn from(value: bool) -> (r: CertificateValidation) {
        CertificateValidation::from_flag(value)
    }
}

impl vstd::std_specs::convert::FromSpecImpl<bool> for CertificateValidation {
    open spec fn obeys_from_spec() -> bool {
        true
    }

    open spec fn from_spec(v: bool) -> CertificateValidation {
        if v {
            CertificateValidation::Enabled
        } else {
            CertificateValidation::DangerousDisabled
        }
    }
}

} // verus!
