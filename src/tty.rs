//! The POSIX terminal backend: supported line speeds, raw-mode settings and
//! device enumeration.
use vstd::prelude::*;

use crate::open::OpenError;
use crate::text::{chars_of, string_from_chars};
use crate::listing::{filter_map, lemma_filter_map_same_set};
use crate::{ids_view, SerialId};

verus! {

/// The line speeds the TTY backend can program into the terminal attributes.
#[derive(Debug, Clone, Copy, PartialEq, Eq, Structural)]
pub enum BaudRate {
    B9600,
    B115200,
    B230400,
    B460800,
}

impl BaudRate {
    /// The speed in bits per second.
    pub open spec fn bits_per_second(self) -> u32 {
        match self {
            BaudRate::B9600 => 9600,
            BaudRate::B115200 => 115200,
            BaudRate::B230400 => 230400,
            BaudRate::B460800 => 460800,
        }
    }
}

/// The speed matching `baud`, if the TTY backend supports it.
pub open spec fn supported_baud(baud: u32) -> Option<BaudRate> {
    if baud == 9600 {
        Some(BaudRate::B9600)
    } else if baud == 115200 {
        Some(BaudRate::B115200)
    } else if baud == 230400 {
        Some(BaudRate::B230400)
    } else if baud == 460800 {
        Some(BaudRate::B460800)
    } else {
        None
    }
}

/// Maps a numeric baud value onto the fixed set of supported speeds; any
/// other value is rejected rather than coerced.
pub fn baud_rate_translate(baud: u32) -> (r: Option<BaudRate>)
    ensures
        r == supported_baud(baud),
        r matches Some(b) ==> b.bits_per_second() == baud,
{
    match baud {
        9600 => Some(BaudRate::B9600),
        115200 => Some(BaudRate::B115200),
        230400 => Some(BaudRate::B230400),
        460800 => Some(BaudRate::B460800),
        _ => None,
    }
}

/// The longest read timeout the terminal attributes can hold, in deciseconds.
pub const MAX_READ_TIMEOUT_DS: u8 = 255;

/// The terminal's inter-byte read timer for a timeout of `timeout`
/// milliseconds: whole deciseconds, capped at the largest value the
/// attributes can hold.
pub open spec fn read_timeout_ds(timeout: u32) -> u8 {
    if timeout / 100 > 255 {
        255
    } else {
        (timeout / 100) as u8
    }
}

/// The raw-mode terminal attributes a port is configured with.
///
/// All input, output and local processing is off; of the control flags only
/// those given here are set.
#[derive(Debug, Clone, Copy, PartialEq, Eq, Structural)]
pub struct TtySettings {
    /// The line speed.
    pub speed: BaudRate,
    /// Eight-bit characters (`CS8`).
    pub char_size_8: bool,
    /// The receiver is enabled (`CREAD`).
    pub receiver_enabled: bool,
    /// The line is local: modem control lines are ignored (`CLOCAL`).
    pub local_line: bool,
    /// The least number of bytes a read waits for (`VMIN`).
    pub min_chars: u8,
    /// The inter-byte read timer in deciseconds (`VTIME`).
    pub read_timeout_ds: u8,
}

/// The settings for line speed `speed` and a timeout of `timeout`
/// milliseconds: eight-bit raw characters, receiver on, local line, and a
/// read that returns once one byte is there or the timer runs out.
pub open spec fn tty_settings(speed: BaudRate, timeout: u32) -> TtySettings {
    TtySettings {
        speed,
        char_size_8: true,
        receiver_enabled: true,
        local_line: true,
        min_chars: 0,
        read_timeout_ds: read_timeout_ds(timeout),
    }
}

/// The directory whose entries name the serial devices by physical path.
pub open spec fn by_path_dir() -> Seq<char> {
    seq![
        '/', 'd', 'e', 'v', '/', 's', 'e', 'r', 'i', 'a', 'l', '/',
        'b', 'y', '-', 'p', 'a', 't', 'h', '/',
    ]
}

/// Everything needed to open and configure a TTY port.
#[derive(Debug)]
pub struct TtyPlan {
    /// The device path to open.
    pub path: String,
    /// The attributes to apply once it is open and locked.
    pub settings: TtySettings,
}

/// Plans the opening of the TTY port `key` at `baud` with a read timeout of
/// `timeout` milliseconds. A baud rate outside the supported set is refused
/// here, before any device is touched.
pub fn tty_open_plan(key: &str, baud: u32, timeout: u32) -> (r: Result<TtyPlan, OpenError>)
    ensures
        match supported_baud(baud) {
            None => r == Err::<TtyPlan, OpenError>(OpenError::UnsupportedBaud { baud }),
            Some(speed) => r matches Ok(p) && p.path@ == by_path_dir() + key@ && p.settings
                == tty_settings(speed, timeout),
        },
{
    let speed = match baud_rate_translate(baud) {
        Some(s) => s,
        None => {
            return Err(OpenError::UnsupportedBaud { baud });
        },
    };
    let deciseconds: u32 = timeout / 100;
    let read_timeout_ds: u8 = if deciseconds > 255 {
        MAX_READ_TIMEOUT_DS
    } else {
        deciseconds as u8
    };
    let settings = TtySettings {
        speed,
        char_size_8: true,
        receiver_enabled: true,
        local_line: true,
        min_chars: 0,
        read_timeout_ds,
    };
    let mut path = chars_of("/dev/serial/by-path/");
    proof {
        reveal_strlit("/dev/serial/by-path/");
    }
    assert(path@ =~= by_path_dir());
    let mut rest = chars_of(key);
    path.append(&mut rest);
    Ok(TtyPlan { path: string_from_chars(&path), settings })
}

/// The identity a by-path directory entry describes: its file name serves
/// as both key and comment. Entries whose name could not be read (or is not
/// valid Unicode) are given as `None` and describe nothing.
pub open spec fn tty_entry_id(e: Option<Seq<char>>) -> Option<(Seq<char>, Seq<char>)> {
    match e {
        Some(n) => Some((n, n)),
        None => None,
    }
}

/// The views of directory entries.
pub open spec fn entries_view(entries: Seq<Option<String>>) -> Seq<Option<Seq<char>>> {
    entries.map_values(
        |e: Option<String>|
            match e {
                Some(n) => Some(n@),
                None => None,
            },
    )
}

/// The identities a listing of the by-path directory yields, in listing order.
pub open spec fn tty_ids(entries: Seq<Option<Seq<char>>>) -> Seq<(Seq<char>, Seq<char>)> {
    filter_map(entries, |e: Option<Seq<char>>| tty_entry_id(e))
}

/// The port identities for the entries of the by-path directory, in the
/// order the directory listed them. An unreadable directory is listed as
/// having no entries, so it yields no identities.
pub fn tty_ids_from_entries(entries: &Vec<Option<String>>) -> (r: Vec<SerialId<String>>)
    ensures
        ids_view(r@) == tty_ids(entries_view(entries@)),
{
    let ghost ev = entries_view(entries@);
    let mut out: Vec<SerialId<String>> = Vec::new();
    let mut i: usize = 0;
    while i < entries.len()
        invariant
            i <= entries.len(),
            ev == entries_view(entries@),
            ids_view(out@) == tty_ids(ev.take(i as int)),
        decreases entries.len() - i,
    {
        assert(ev.take(i + 1).drop_last() =~= ev.take(i as int));
        match &entries[i] {
            Some(name) => {
                out.push(SerialId { key: name.clone(), comment: name.clone() });
            },
            None => {},
        }
        assert(ids_view(out@) =~= tty_ids(ev.take(i + 1)));
        i = i + 1;
    }
    assert(ev.take(entries.len() as int) =~= ev);
    out
}

/// Listing the same set of directory entries, in any order, yields the
/// same set of identities.
pub proof fn lemma_tty_list_same_set(a: Seq<Option<Seq<char>>>, b: Seq<Option<Seq<char>>>)
    requires
        a.to_set() == b.to_set(),
    ensures
        tty_ids(a).to_set() == tty_ids(b).to_set(),
{
    lemma_filter_map_same_set(a, b, |e: Option<Seq<char>>| tty_entry_id(e));
}

} // verus!
