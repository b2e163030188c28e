//! The per-invocation host environment and the guest-visible call
//! surface: the response slot, runtime data, the return-buffer
//! marshalling convention, gating of API and cache calls, and the emit
//! ("logback") host call under the depth budget.

use vstd::prelude::*;

use crate::functions::FunctionErrors;
use crate::messages::{LogSource, LogbacksAllowed, Message};
use crate::strutil::bytes_eq;
use vstd::string::StringSliceAdditionalSpecFns;

verus! {

/// The host-visible state of one sandbox instance.
pub struct HostEnv {
    /// The invoked module's name; emitted messages name it as source.
    pub module: String,
    /// The response slot read by the GET pipeline after the invocation.
    pub response: Option<Vec<u8>>,
    /// Forwarded headers and context for the guest to read.
    pub accessory_data: Vec<(Vec<u8>, Vec<u8>)>,
    /// Where the handled message came from.
    pub source: LogSource,
    /// The handled message's remaining logback budget.
    pub logbacks_allowed: LogbacksAllowed,
    /// Whether this invocation runs in test mode.
    pub test_mode: bool,
    /// Whether this module's declared response role enables the cache
    /// host calls.
    pub cache_enabled: bool,
}

impl HostEnv {
    /// The environment of a fresh instance: an empty response slot and
    /// the invocation's context.
    pub fn new(
        module: String,
        source: LogSource,
        accessory_data: Vec<(Vec<u8>, Vec<u8>)>,
        logbacks_allowed: LogbacksAllowed,
        test_mode: bool,
        cache_enabled: bool,
    ) -> (r: Self)
        ensures
            r.module == module,
            r.response is None,
            r.accessory_data == accessory_data,
            r.source == source,
            r.logbacks_allowed == logbacks_allowed,
            r.test_mode == test_mode,
            r.cache_enabled == cache_enabled,
    {
        HostEnv {
            module,
            response: None,
            accessory_data,
            source,
            logbacks_allowed,
            test_mode,
            cache_enabled,
        }
    }

    /// The `set_response` host call: writes the response slot,
    /// overwriting silently.
    pub fn set_response(&mut self, bytes: Vec<u8>)
        ensures
            *final(self) == (HostEnv { response: Some(bytes), ..*old(self) }),
    {
        self.response = Some(bytes);
    }

    /// Hands the response slot to the GET pipeline when the invocation
    /// is done, leaving the slot empty.
    pub fn take_response(&mut self) -> (r: Option<Vec<u8>>)
        ensures
            r == old(self).response,
            *final(self) == (HostEnv { response: None, ..*old(self) }),
    {
        let mut out: Option<Vec<u8>> = None;
        core::mem::swap(&mut out, &mut self.response);
        out
    }

    /// The `get_source` host call: where the handled message came from.
    pub fn get_source(&self) -> (r: &LogSource)
        ensures
            r == self.source,
    {
        &self.source
    }

    /// The `get_accessory` host call: the value under the first matching
    /// key, if any.
    pub fn get_accessory(&self, key: &Vec<u8>) -> (r: Option<&Vec<u8>>)
        ensures
            (match r {
                Some(v) => exists|i: int|
                    {
                        &&& 0 <= i < self.accessory_data@.len()
                        &&& (#[trigger] self.accessory_data@[i]).0@ == key@
                        &&& self.accessory_data@[i].1 == *v
                        &&& forall|j: int|
                            0 <= j < i ==> (#[trigger] self.accessory_data@[j]).0@ != key@
                    },
                None => forall|i: int|
                    0 <= i < self.accessory_data@.len() ==> (
                    #[trigger] self.accessory_data@[i]).0@ != key@,
            }),
    {
        let mut i: usize = 0;
        while i < self.accessory_data.len()
            invariant
                i <= self.accessory_data@.len(),
                forall|j: int|
                    0 <= j < i ==> (#[trigger] self.accessory_data@[j]).0@ != key@,
            decreases self.accessory_data@.len() - i,
        {
            if bytes_eq(&self.accessory_data[i].0, key) {
                return Some(&self.accessory_data[i].1);
            }
            i += 1;
        }
        None
    }

    /// The `log_back` host call: under a spent budget (`Limited(0)`) the
    /// emit is refused with `OperationNotAllowed`; otherwise the new
    /// message carries the decremented budget (`Unlimited` unchanged),
    /// this module as its source, and no accessory data.  The
    /// environment itself does not change.
    pub fn log_back(&self, type_: &String, data: &Vec<u8>) -> (r: Result<Message, FunctionErrors>)
        ensures
            r.is_ok() <==> self.logbacks_allowed.spec_can_emit(),
            (match r {
                Ok(m) => {
                    &&& m.type_@ == type_@
                    &&& m.data@ == data@
                    &&& m.accessory_data@ == Seq::<(Vec<u8>, Vec<u8>)>::empty()
                    &&& m.source == LogSource::Internal(self.module)
                    &&& m.logbacks_allowed == self.logbacks_allowed.spec_child()
                },
                Err(e) => e == FunctionErrors::OperationNotAllowed,
            }),
    {
        match self.logbacks_allowed.try_emit() {
            Ok(child) => {
                let data_copy = data.clone();
                proof {
                    assert(data_copy@ =~= data@);
                }
                Ok(
                    Message {
                        type_: type_.clone(),
                        data: data_copy,
                        accessory_data: Vec::new(),
                        source: LogSource::Internal(self.module.clone()),
                        logbacks_allowed: child,
                    },
                )
            },
            Err(e) => Err(e),
        }
    }
}

/// Relies on str::from_utf8: it succeeds exactly on valid UTF-8, and the
/// returned string slice is over these same bytes.
#[verifier::external_body]
fn bytes_to_str<'a>(bytes: &'a Vec<u8>) -> (r: Option<&'a str>)
    ensures
        (match r {
            Some(s) => s.spec_bytes() == bytes@ && vstd::utf8::valid_utf8(bytes@),
            None => !vstd::utf8::valid_utf8(bytes@),
        }),
{
    core::str::from_utf8(bytes.as_slice()).ok()
}

/// The string-parameter marshalling convention: a guest-supplied byte
/// range must be UTF-8, and anything else answers `ParametersNotUtf8`.
pub fn read_guest_string(bytes: &Vec<u8>) -> (r: Result<String, FunctionErrors>)
    ensures
        r.is_ok() <==> vstd::utf8::valid_utf8(bytes@),
        (match r {
            Ok(s) => vstd::utf8::encode_utf8(s@) == bytes@,
            Err(e) => e == FunctionErrors::ParametersNotUtf8,
        }),
{
    match bytes_to_str(bytes) {
        Some(s) => Ok(s.to_owned()),
        None => Err(FunctionErrors::ParametersNotUtf8),
    }
}

/// The byte-return marshalling convention: the host hands `data` to a
/// guest buffer of `capacity` bytes.  When the data fits (and its length
/// fits the signed return), the guest receives the byte count and the
/// bytes; otherwise it receives `ReturnBufferTooSmall` and nothing is
/// written.
pub fn marshal_return(data: &Vec<u8>, capacity: usize) -> (r: (i32, Vec<u8>))
    ensures
        data@.len() <= capacity && data@.len() <= i32::MAX ==> r.0 == data@.len() as i32 && r.1@
            == data@,
        data@.len() > capacity || data@.len() > i32::MAX ==> r.0
            == FunctionErrors::ReturnBufferTooSmall.spec_code() && r.1@ == Seq::<u8>::empty(),
{
    if data.len() <= capacity && data.len() <= i32::MAX as usize {
        let copy = data.clone();
        proof {
            assert(copy@ =~= data@);
        }
        (data.len() as i32, copy)
    } else {
        (FunctionErrors::ReturnBufferTooSmall.code(), Vec::new())
    }
}

/// Gates one API-dispatch host call: an absent backend answers
/// `ApiNotConfigured`, a test-mode invocation of a module not allowed to
/// run in test mode answers `TestMode`, and a failed per-module
/// permission check answers `OperationNotAllowed`, in that order.
pub fn check_api_call(configured: bool, test_mode: bool, test_mode_allowed: bool, permitted: bool)
    -> (r: Result<(), FunctionErrors>)
    ensures
        r.is_ok() <==> configured && (!test_mode || test_mode_allowed) && permitted,
        !configured ==> r == Err::<(), _>(FunctionErrors::ApiNotConfigured),
        configured && test_mode && !test_mode_allowed ==> r == Err::<(), _>(
            FunctionErrors::TestMode,
        ),
        configured && (!test_mode || test_mode_allowed) && !permitted ==> r == Err::<(), _>(
            FunctionErrors::OperationNotAllowed,
        ),
{
    if !configured {
        Err(FunctionErrors::ApiNotConfigured)
    } else if test_mode && !test_mode_allowed {
        Err(FunctionErrors::TestMode)
    } else if !permitted {
        Err(FunctionErrors::OperationNotAllowed)
    } else {
        Ok(())
    }
}

/// Gates the cache host calls: they answer `CacheDisabled` unless the
/// module has a declared response role.
pub fn check_cache_enabled(env: &HostEnv) -> (r: Result<(), FunctionErrors>)
    ensures
        r.is_ok() <==> env.cache_enabled,
        !env.cache_enabled ==> r == Err::<(), _>(FunctionErrors::CacheDisabled),
{
    if env.cache_enabled {
        Ok(())
    } else {
        Err(FunctionErrors::CacheDisabled)
    }
}

} // verus!
