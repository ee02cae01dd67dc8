//! Serial-port discovery and configuration logic shared by the POSIX TTY
//! backend and the Win32 COM backend.
//!
//! The operating-system calls themselves (opening a device, locking it,
//! applying terminal attributes, overlapped transfers) live outside this
//! library; everything that decides *what* to ask of the OS and *how to
//! interpret* its answers lives here, with contracts.
use vstd::prelude::*;

pub mod com;
pub mod listing;
pub mod open;
pub mod text;
pub mod transfer;
pub mod tty;

verus! {

/// A discovered serial port: the key used to open it and a human-readable label.
///
/// On the TTY backend the key is the device's file name under the
/// by-path directory; on the COM backend it is the numeric COM index.
#[derive(Debug)]
pub struct SerialId<K> {
    pub key: K,
    pub comment: String,
}

impl<K: View> View for SerialId<K> {
    type V = (K::V, Seq<char>);

    open spec fn view(&self) -> (K::V, Seq<char>) {
        (self.key@, self.comment@)
    }
}

/// The views of the identities in `ids`, in order.
pub open spec fn ids_view<K: View>(ids: Seq<SerialId<K>>) -> Seq<(K::V, Seq<char>)> {
    ids.map_values(|id: SerialId<K>| id@)
}

} // verus!
