//! The check of the `Host` header, which protects unauthenticated endpoints
//! from DNS rebinding.

use vstd::prelude::*;
use vstd::string::StringSliceAdditionalSpecFns;

verus! {

/// Permits requests only with the specified `Host` header.
#[derive(Clone, Copy, Debug)]
pub struct HostCheckWrap(pub &'static str);

/// A service behind the check of the `Host` header.
#[derive(Debug)]
pub struct HostCheckMiddleware<S> {
    pub permitted_host: &'static str,
    pub service: S,
}

/// Whether a request with the `Host` header `host`, if it has one, is let
/// through to a service that permits `permitted`: the header is there and
/// holds exactly the permitted bytes.
pub open spec fn host_permitted(permitted: Seq<u8>, host: Option<Seq<u8>>) -> bool {
    host == Some(permitted)
}

impl HostCheckWrap {
    /// Puts the check before `service`.
    pub fn new_transform<S>(&self, service: S) -> (middleware: HostCheckMiddleware<S>)
        ensures
            middleware.permitted_host == self.0,
            middleware.service == service,
    {
        HostCheckMiddleware { permitted_host: self.0, service }
    }
}

impl<S> HostCheckMiddleware<S> {
    /// Whether a request with this `Host` header is handed on to the service.
    /// One without the header, or with another host, is a bad request.
    pub fn permits(&self, host: Option<&[u8]>) -> (permitted: bool)
        ensures
            permitted == host_permitted(
                self.permitted_host.spec_bytes(),
                match host {
                    Some(bytes) => Some(bytes@),
                    None => None,
                },
            ),
    {
        let expected = self.permitted_host.as_bytes();
        match host {
            None => false,
            Some(bytes) => {
                if bytes.len() != expected.len() {
                    return false;
                }
                let mut i: usize = 0;
                while i < bytes.len()
                    invariant
                        i <= bytes.len(),
                        host == Some(bytes),
                        bytes@.len() == expected@.len(),
                        expected@ == self.permitted_host.spec_bytes(),
                        forall|j: int| 0 <= j < i ==> bytes@[j] == expected@[j],
                    decreases bytes.len() - i,
                {
                    if bytes[i] != expected[i] {
                        assert(bytes@[i as int] != expected@[i as int]);
                        return false;
                    }
                    i += 1;
                }
                assert(bytes@ =~= expected@);
                true
            },
        }
    }
}

} // verus!
