use vstd::prelude::*;
use vstd::string::StringExecFns;

verus! {

/// The identity attached to an authenticated request: the certificate's
/// Common Name as the principal id, its Organization as the group. The
/// only privileged group value is the literal `admin`.
#[derive(Debug, Clone)]
pub struct ClientAuth {
    pub id: String,
    pub group: String,
}

/// Why a request was rejected as unauthenticated. `InvalidOrganization`
/// carries the offending group value so the caller can emit its warning
/// event.
#[derive(Debug)]
pub enum AuthError {
    MissingCerts,
    EmptyCertList,
    InvalidCert,
    MissingCommonName,
    MissingOrganization,
    InvalidOrganization(String),
}

impl AuthError {
    /// The human-readable status message for this rejection.
    pub fn message(&self) -> (r: String)
        ensures
            match self {
                AuthError::MissingCerts => r@ == "Missing certs"@,
                AuthError::EmptyCertList => r@ == "Empty cert list"@,
                AuthError::InvalidCert => r@ == "One or more certs are invalid"@,
                AuthError::MissingCommonName => r@ == "Cert doesn't contain common name"@,
                AuthError::MissingOrganization => r@ == "Cert doesn't contain organization"@,
                AuthError::InvalidOrganization(_) => r@
                    == "The organization of the provided cert is not valid"@,
            },
    {
        match self {
            AuthError::MissingCerts => String::from_str("Missing certs"),
            AuthError::EmptyCertList => String::from_str("Empty cert list"),
            AuthError::InvalidCert => String::from_str("One or more certs are invalid"),
            AuthError::MissingCommonName => String::from_str("Cert doesn't contain common name"),
            AuthError::MissingOrganization => String::from_str("Cert doesn't contain organization"),
            AuthError::InvalidOrganization(_) => String::from_str(
                "The organization of the provided cert is not valid",
            ),
        }
    }
}

/// The subject fields that authorization reads from the first peer
/// certificate: the first Common Name and the first Organization, each
/// absent when the attribute is missing or is not UTF-8.
pub uninterp spec fn cert_subject_of(der: Seq<u8>) -> Option<(Option<Seq<char>>, Option<Seq<char>>)>;

pub open spec fn opt_str_view(s: Option<String>) -> Option<Seq<char>> {
    match s {
        Some(x) => Some(x@),
        None => None,
    }
}

/// Relies on x509_parser::parse_x509_certificate and on X509Name's
/// iter_common_name / iter_organization / as_str: the first CN and the
/// first O of the subject, a pure function of the DER bytes.
#[verifier::external_body]
fn parse_cert_subject(der: &[u8]) -> (r: Option<(Option<String>, Option<String>)>)
    ensures
        match r {
            None => cert_subject_of(der@) is None,
            Some(p) => cert_subject_of(der@) == Some((opt_str_view(p.0), opt_str_view(p.1))),
        },
{
    match x509_parser::parse_x509_certificate(der) {
        Err(_) => None,
        Ok((_, cert)) => {
            let cn = cert.subject().iter_common_name().next().and_then(|a| a.as_str().ok());
            let org = cert.subject().iter_organization().next().and_then(|a| a.as_str().ok());
            Some((cn.map(|s| s.to_owned()), org.map(|s| s.to_owned())))
        },
    }
}

/// The closed allowlist of certificate Organizations; unknown groups
/// never silently acquire privileges.
pub open spec fn group_allowed(org: Seq<char>) -> bool {
    org == "client"@ || org == "admin"@
}

/// A subject is admitted exactly when its Organization is in the
/// allowlist and its Common Name is present and non-empty.
pub open spec fn subject_admitted(cn: Option<Seq<char>>, org: Option<Seq<char>>) -> bool {
    &&& cn matches Some(c) && c.len() > 0
    &&& org matches Some(o) && group_allowed(o)
}

/// What authorization returns for the given subject fields (`None`
/// meaning the certificate did not parse): admitted subjects yield the
/// identity `ClientAuth { id: CN, group: O }`, every other subject a
/// specific rejection.
pub open spec fn auth_outcome(
    subject: Option<(Option<Seq<char>>, Option<Seq<char>>)>,
    r: Result<ClientAuth, AuthError>,
) -> bool {
    match subject {
        None => r == Err::<ClientAuth, AuthError>(AuthError::InvalidCert),
        Some(s) => {
            let cn = s.0;
            let org = s.1;
            &&& (r is Ok <==> subject_admitted(cn, org))
            &&& (r matches Ok(a) ==> a.id@ == cn.unwrap() && a.group@ == org.unwrap())
            &&& (!(cn matches Some(c) && c.len() > 0) ==> r == Err::<ClientAuth, AuthError>(
                AuthError::MissingCommonName,
            ))
            &&& ((cn matches Some(c) && c.len() > 0) && org is None ==> r == Err::<
                ClientAuth,
                AuthError,
            >(AuthError::MissingOrganization))
            &&& ((cn matches Some(c) && c.len() > 0) && org is Some && !group_allowed(org.unwrap())
                ==> (r matches Err(AuthError::InvalidOrganization(bad)) && bad@ == org.unwrap()))
        },
    }
}

/// Decides admission from the extracted subject fields alone: admitted
/// exactly when the Common Name is present and non-empty and the
/// Organization is `client` or `admin`; the admitted identity carries
/// the CN as id and the O as group.
pub fn validate_subject(common_name: Option<String>, organization: Option<String>) -> (r: Result<
    ClientAuth,
    AuthError,
>)
    ensures
        auth_outcome(Some((opt_str_view(common_name), opt_str_view(organization))), r),
{
    let cn = match common_name {
        Some(c) => {
            if c.as_str().is_empty() {
                return Err(AuthError::MissingCommonName);
            }
            c
        },
        None => {
            return Err(AuthError::MissingCommonName);
        },
    };
    let org = match organization {
        Some(o) => o,
        None => {
            return Err(AuthError::MissingOrganization);
        },
    };
    if org == String::from_str("client") || org == String::from_str("admin") {
        Ok(ClientAuth { id: cn, group: org })
    } else {
        Err(AuthError::InvalidOrganization(org))
    }
}

/// Parses one DER certificate and decides admission from its subject.
pub fn validate_cert(der: &Vec<u8>) -> (r: Result<ClientAuth, AuthError>)
    ensures
        auth_outcome(cert_subject_of(der@), r),
{
    match parse_cert_subject(der.as_slice()) {
        None => Err(AuthError::InvalidCert),
        Some((cn, org)) => validate_subject(cn, org),
    }
}

/// The inbound-request filter: no peer certificates rejects outright,
/// an empty list likewise, and otherwise the first certificate's
/// subject decides, as `auth_outcome` states.
pub fn authorization_interceptor(peer_certs: Option<&Vec<Vec<u8>>>) -> (r: Result<
    ClientAuth,
    AuthError,
>)
    ensures
        peer_certs is None ==> r == Err::<ClientAuth, AuthError>(AuthError::MissingCerts),
        peer_certs is Some && peer_certs.unwrap()@.len() == 0 ==> r == Err::<
            ClientAuth,
            AuthError,
        >(AuthError::EmptyCertList),
        peer_certs is Some && peer_certs.unwrap()@.len() > 0 ==> auth_outcome(
            cert_subject_of(peer_certs.unwrap()@[0]@),
            r,
        ),
{
    match peer_certs {
        None => Err(AuthError::MissingCerts),
        Some(certs) => {
            if certs.len() == 0 {
                Err(AuthError::EmptyCertList)
            } else {
                validate_cert(&certs[0])
            }
        },
    }
}

} // verus!
