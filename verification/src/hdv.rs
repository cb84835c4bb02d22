//! The device host of a compute system, and the errors of the HDV layer.

use crate::hresult::HRESULT;
use vstd::prelude::*;

verus! {

/// Errors of the HDV layer.
#[derive(Clone, Copy, Debug, PartialEq, Eq, Structural)]
pub enum Error {
    /// The HDV API returned a failing code.
    Hdv(HRESULT),
    /// No HDV call is linked, so none was made.
    NotLinked,
}

/// A result code as a `Result`: a negative code is an error.
pub fn hr(code: HRESULT) -> (r: Result<(), Error>)
    ensures
        r == checked(code),
{
    if code >= 0 {
        Ok(())
    } else {
        Err(Error::Hdv(code))
    }
}

/// A result code as a `Result`.
pub open spec fn checked(code: HRESULT) -> Result<(), Error> {
    if code >= 0 {
        Ok(())
    } else {
        Err(Error::Hdv(code))
    }
}

/// A device host, bound to one compute system that its owner keeps.
#[derive(Debug, PartialEq, Eq, Structural)]
pub struct DeviceHost {
    /// HDV's opaque handle of the host.
    pub raw: usize,
}

impl DeviceHost {
    /// A device host for the compute system `hcs_system_id`, in this process. No
    /// such call is linked: a device host comes from the proxy path
    /// ([`DeviceHost::from_proxy`]).
    pub fn open(hcs_system_id: &str) -> (r: Result<DeviceHost, Error>)
        ensures
            r == Err::<DeviceHost, Error>(Error::NotLinked),
    {
        Err(Error::NotLinked)
    }

    /// The device host that `HdvInitializeDeviceHostForProxy` made, from its result
    /// code and the handle that it gave.
    pub fn from_proxy(code: HRESULT, raw: usize) -> (r: Result<DeviceHost, Error>)
        ensures
            r == if code >= 0 {
                Ok::<DeviceHost, Error>(DeviceHost { raw })
            } else {
                Err(Error::Hdv(code))
            },
    {
        match hr(code) {
            Ok(()) => Ok(DeviceHost { raw }),
            Err(e) => Err(e),
        }
    }
}

/// A result code is an error exactly if it is negative, and the error tells the code.
/// A device host comes of a call that succeeded, with the handle that it gave.
pub proof fn law_negative_codes_are_errors(
    code: HRESULT,
    raw: usize,
    r: Result<(), Error>,
    h: Result<DeviceHost, Error>,
)
    requires
        call_ensures(hr, (code,), r),
        call_ensures(DeviceHost::from_proxy, (code, raw), h),
    ensures
        r is Ok <==> code >= 0,
        h is Ok <==> code >= 0,
        r matches Err(e) ==> e == Error::Hdv(code),
        h matches Err(e) ==> e == Error::Hdv(code),
        h matches Ok(d) ==> d.raw == raw,
{
}

/// Opening a device host in this process is never linked.
pub proof fn law_open_is_not_linked(id: &str, r: Result<DeviceHost, Error>)
    requires
        call_ensures(DeviceHost::open, (id,), r),
    ensures
        r == Err::<DeviceHost, Error>(Error::NotLinked),
{
}

} // verus!
