//! Values that may cross threads where the platform has threads.

use vstd::prelude::*;

verus! {

/// Something that can be sent to another thread. Web builds have no
/// threads and would drop the requirement; native builds keep it.
pub trait WasmNotSend: Send {}

impl<T: Send> WasmNotSend for T {}

} // verus!
