//! What the library takes from the Vulkan bindings: result codes and the
//! size of an indirect draw record.

use vstd::prelude::*;

verus! {

/// How a Vulkan call ended, as far as the frame loop cares.
#[derive(Clone, Copy, Debug, PartialEq, Eq, Structural)]
pub enum CallOutcome {
    /// The call did what was asked.
    Success,
    /// The swapchain no longer matches the surface: recoverable by a resize.
    Stale,
    /// Anything else: the program cannot go on.
    Fatal,
}

/// `VK_SUCCESS`.
pub open spec fn success_code() -> i32 {
    0i32
}

/// `VK_SUBOPTIMAL_KHR`.
pub open spec fn suboptimal_code() -> i32 {
    1_000_001_003i32
}

/// `VK_ERROR_OUT_OF_DATE_KHR`.
pub open spec fn out_of_date_code() -> i32 {
    (-1_000_001_004i32) as i32
}

/// The outcome that a raw result code stands for.
pub open spec fn outcome_of(code: i32) -> CallOutcome {
    if code == success_code() {
        CallOutcome::Success
    } else if code == suboptimal_code() || code == out_of_date_code() {
        CallOutcome::Stale
    } else {
        CallOutcome::Fatal
    }
}

/// Trusted: `ash::vk::Result::as_raw` on the three constants `SUCCESS`,
/// `SUBOPTIMAL_KHR` and `ERROR_OUT_OF_DATE_KHR`, in this order. The contract
/// claims the numbers that the bindings define for them.
#[verifier::external_body]
fn result_codes() -> (r: (i32, i32, i32))
    ensures
        r.0 == success_code(),
        r.1 == suboptimal_code(),
        r.2 == out_of_date_code(),
{
    (
        ash::vk::Result::SUCCESS.as_raw(),
        ash::vk::Result::SUBOPTIMAL_KHR.as_raw(),
        ash::vk::Result::ERROR_OUT_OF_DATE_KHR.as_raw(),
    )
}

/// Trusted: `std::mem::size_of` of `ash::vk::DrawIndexedIndirectCommand`.
/// The contract claims 20: the record is five 32-bit fields laid out as in C.
#[verifier::external_body]
fn indirect_record_size() -> (r: usize)
    ensures
        r == 20,
{
    std::mem::size_of::<ash::vk::DrawIndexedIndirectCommand>()
}

/// The distance in bytes between two records of an indexed indirect draw.
pub open spec fn indexed_indirect_stride() -> u32 {
    20u32
}

/// The stride to hand to an indexed indirect draw.
pub fn indirect_stride() -> (r: u32)
    ensures
        r == indexed_indirect_stride(),
{
    let size: usize = indirect_record_size();
    size as u32
}

/// The result code of a call that returned an image: success, or a
/// suboptimal swapchain where the call said so.
pub open spec fn acquire_code_of(suboptimal: bool) -> i32 {
    if suboptimal {
        suboptimal_code()
    } else {
        success_code()
    }
}

/// The result code of a call that returned an image.
pub fn acquire_code(suboptimal: bool) -> (r: i32)
    ensures
        r == acquire_code_of(suboptimal),
{
    let codes: (i32, i32, i32) = result_codes();
    if suboptimal {
        codes.1
    } else {
        codes.0
    }
}

/// Sorts a raw result code into success, stale swapchain, or fatal.
pub fn classify_result(code: i32) -> (r: CallOutcome)
    ensures
        r == outcome_of(code),
{
    let codes: (i32, i32, i32) = result_codes();
    if code == codes.0 {
        CallOutcome::Success
    } else if code == codes.1 || code == codes.2 {
        CallOutcome::Stale
    } else {
        CallOutcome::Fatal
    }
}

} // verus!
