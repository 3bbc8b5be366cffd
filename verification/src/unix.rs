//! The kernel control interface of the BSD and Solaris families, which gives
//! the host UUID as a NUL-terminated string.
//!
//! A value is read in two calls: the first, without a buffer, asks how long
//! the value is; the second, with a buffer of that length, fetches it. The
//! call itself is the caller's to make; what is made of its answers is
//! decided here.

use crate::error::AccessError;
use crate::source::{CTL_KERN, KERN_HOSTUUID};
use vstd::prelude::*;

verus! {

/// What the kernel answered to one call.
#[derive(Debug)]
pub struct KernelReply {
    /// What the call returned: zero, or an error code.
    pub status: i32,
    /// The length that the kernel reported: that of the value, in bytes.
    pub len: usize,
    /// The buffer after the call. A call without a buffer leaves it empty.
    pub bytes: Vec<u8>,
}

/// The result of a kernel exchange as plain values.
pub open spec fn bytes_model(result: Result<Vec<u8>, AccessError>) -> Result<Seq<u8>, AccessError> {
    match result {
        Ok(bytes) => Ok(bytes@),
        Err(e) => Err(e),
    }
}

/// A host UUID or its failure as plain values.
pub open spec fn text_model(result: Result<String, AccessError>) -> Result<Seq<char>, AccessError> {
    match result {
        Ok(text) => Ok(text@),
        Err(e) => Err(e),
    }
}

impl KernelReply {
    /// What the answer to the first call says: the length to make room for,
    /// or the error code of the call, as it came.
    pub open spec fn needed_of(self) -> Result<usize, AccessError> {
        if self.status != 0 {
            Err(AccessError::Os(self.status))
        } else {
            Ok(self.len)
        }
    }

    /// What the answer to the second call says: the bytes of the buffer up to
    /// the reported length, or the error code of the call, as it came.
    pub open spec fn value_of(self) -> Result<Seq<u8>, AccessError> {
        if self.status != 0 {
            Err(AccessError::Os(self.status))
        } else if self.len <= self.bytes@.len() {
            Ok(self.bytes@.subrange(0, self.len as int))
        } else {
            Ok(self.bytes@)
        }
    }

    /// Reads the answer to the first call.
    pub fn needed(&self) -> (needed: Result<usize, AccessError>)
        ensures
            needed == self.needed_of(),
    {
        if self.status != 0 {
            Err(AccessError::Os(self.status))
        } else {
            Ok(self.len)
        }
    }

    /// Reads the answer to the second call.
    pub fn into_value(self) -> (value: Result<Vec<u8>, AccessError>)
        ensures
            bytes_model(value) == self.value_of(),
    {
        if self.status != 0 {
            Err(AccessError::Os(self.status))
        } else {
            let mut bytes = self.bytes;
            bytes.truncate(self.len);
            Ok(bytes)
        }
    }
}

/// What the two answers of an exchange come to. The second answer counts only
/// where the first reported no error.
pub open spec fn exchange(size: KernelReply, value: KernelReply) -> Result<Seq<u8>, AccessError> {
    match size.needed_of() {
        Ok(_) => value.value_of(),
        Err(e) => Err(e),
    }
}

/// Whether `size` and `value` are answers that `kernel` can give in an
/// exchange on `mib`: `size` to the call without a buffer and, where that
/// reported no error, `value` to the call with room for the reported length.
pub open spec fn exchanged<const N: usize, F: Fn([i32; N], Option<usize>) -> KernelReply>(
    kernel: F,
    mib: [i32; N],
    size: KernelReply,
    value: KernelReply,
) -> bool {
    &&& call_ensures(kernel, (mib, None::<usize>), size)
    &&& size.status == 0 ==> call_ensures(kernel, (mib, Some(size.len)), value)
}

/// Reads the kernel setting that `mib` selects, through `kernel`, which
/// makes one call: with `None` it passes no buffer, with `Some(n)` a buffer
/// of `n` bytes.
///
/// The first call asks for the length, the second fetches the value into a
/// buffer of that length. An error code of either call ends the exchange and
/// is reported as it came.
pub fn sysctl<const N: usize, F: Fn([i32; N], Option<usize>) -> KernelReply>(
    mib: [i32; N],
    kernel: F,
) -> (result: Result<Vec<u8>, AccessError>)
    requires
        forall|room: Option<usize>| call_requires(kernel, (mib, room)),
    ensures
        exists|size: KernelReply, value: KernelReply| #[trigger]
            exchanged(kernel, mib, size, value) && bytes_model(result) == exchange(size, value),
{
    let size = kernel(mib, None);
    match size.needed() {
        Ok(needed) => {
            let value = kernel(mib, Some(needed));
            let ghost given = value;
            let result = value.into_value();
            proof {
                assert(exchanged(kernel, mib, size, given));
            }
            result
        },
        Err(e) => {
            proof {
                assert(exchanged(kernel, mib, size, size));
            }
            Err(e)
        },
    }
}

/// Whether `n` is where the text in `bytes` ends: at the first NUL, or at the
/// end where there is none.
pub open spec fn is_text_end(bytes: Seq<u8>, n: int) -> bool {
    &&& 0 <= n <= bytes.len()
    &&& n < bytes.len() ==> bytes[n] == 0
    &&& forall|j: int| 0 <= j < n ==> #[trigger] bytes[j] != 0
}

/// The length of the text in `bytes`.
pub open spec fn text_len(bytes: Seq<u8>) -> int {
    choose|n: int| is_text_end(bytes, n)
}

/// The text in a buffer that the kernel filled: the bytes before the first
/// NUL, each taken as the character with that code.
pub open spec fn text_before_nul(bytes: Seq<u8>) -> Seq<char> {
    Seq::new(text_len(bytes) as nat, |i: int| bytes[i] as char)
}

/// A buffer's text ends in one place only.
pub proof fn lemma_text_end_unique(bytes: Seq<u8>, n: int, m: int)
    requires
        is_text_end(bytes, n),
        is_text_end(bytes, m),
    ensures
        n == m,
{
    if n < m {
        assert(bytes[n] != 0);
    } else if m < n {
        assert(bytes[m] != 0);
    }
}

/// `String::push` of std: the character is appended and nothing else changes.
#[verifier::external_body]
fn push_char(text: &mut String, c: char)
    ensures
        final(text)@ == old(text)@.push(c),
{
    text.push(c)
}

/// Takes the text out of a buffer that the kernel filled.
pub fn text_until_nul(bytes: &[u8]) -> (text: String)
    ensures
        text@ == text_before_nul(bytes@),
{
    let mut text = String::new();
    let mut i: usize = 0;
    while i < bytes.len() && bytes[i] != 0
        invariant
            i <= bytes.len(),
            text@.len() == i,
            forall|j: int| 0 <= j < i ==> #[trigger] bytes@[j] != 0,
            forall|j: int| 0 <= j < i ==> #[trigger] text@[j] == bytes@[j] as char,
        decreases bytes.len() - i,
    {
        push_char(&mut text, bytes[i] as char);
        i += 1;
    }
    proof {
        assert(is_text_end(bytes@, i as int));
        lemma_text_end_unique(bytes@, i as int, text_len(bytes@));
        assert(text@ =~= text_before_nul(bytes@));
    }
    text
}

/// The selector of the host UUID: the kernel's own settings, and among them
/// the host UUID.
pub open spec fn host_uuid_mib() -> [i32; 2] {
    [CTL_KERN, KERN_HOSTUUID]
}

/// Reads the host UUID from the kernel control interface, through `kernel`
/// (see `sysctl`), and takes the text out of the buffer.
pub fn host_uuid<F: Fn([i32; 2], Option<usize>) -> KernelReply>(kernel: F) -> (result: Result<
    String,
    AccessError,
>)
    requires
        forall|room: Option<usize>| call_requires(kernel, (host_uuid_mib(), room)),
    ensures
        exists|size: KernelReply, value: KernelReply| #[trigger]
            exchanged(kernel, host_uuid_mib(), size, value) && text_model(result) == (
            match exchange(size, value) {
                Ok(bytes) => Ok(text_before_nul(bytes)),
                Err(e) => Err(e),
            }),
{
    let mib: [i32; 2] = [CTL_KERN, KERN_HOSTUUID];
    assert(mib == host_uuid_mib());
    match sysctl(mib, kernel) {
        Ok(bytes) => Ok(text_until_nul(bytes.as_slice())),
        Err(e) => Err(e),
    }
}

} // verus!
