//! The Win32 COM backend: decoding and parsing of device friendly names,
//! device paths and line settings.
use vstd::prelude::*;

use crate::text::{
    chars_of, decimal, decimal_chars, digits_value, is_digit, is_digit_run, lemma_decimal_digits, parse_u8_digits, string_from_chars,
};
use crate::listing::{filter_map, lemma_filter_map_same_set};
use crate::transfer::{transfer_count, transfer_result};
use crate::{ids_view, SerialId};
use encoding::all::GBK;
use encoding::{DecoderTrap, Encoding};

verus! {

/// Whether the three characters of `s` starting at `i` spell `COM`.
pub open spec fn is_com_at(s: Seq<char>, i: int) -> bool {
    &&& 0 <= i
    &&& i + 3 <= s.len()
    &&& s[i] == 'C'
    &&& s[i + 1] == 'O'
    &&& s[i + 2] == 'M'
}

/// The start of the last `COM` in `s` that starts before `end`.
pub open spec fn last_com_before(s: Seq<char>, end: int) -> Option<int>
    decreases end,
{
    if end <= 0 {
        None
    } else if is_com_at(s, end - 1) {
        Some(end - 1)
    } else {
        last_com_before(s, end - 1)
    }
}

/// The port a friendly name such as `USB Serial Port (COM7)` describes, as
/// `(index, comment)`.
///
/// The last `COM` in the name marks the index: the characters after it, up to
/// but not including the final character, must be decimal digits naming a
/// value that fits in a byte. The comment is what precedes `COM`, less the
/// two separator characters before it. Any other name describes no port.
pub open spec fn friendly_name_id(s: Seq<char>) -> Option<(u8, Seq<char>)> {
    match last_com_before(s, s.len() as int) {
        None => None,
        Some(m) => {
            let digits = s.subrange(m + 3, s.len() - 1);
            if m >= 2 && m + 3 < s.len() && is_digit_run(digits) && digits_value(digits) <= 255 {
                Some((digits_value(digits) as u8, s.subrange(0, m - 2)))
            } else {
                None
            }
        },
    }
}

/// The last `COM` found before `end` does start there, and before `end`.
pub proof fn lemma_last_com_found(s: Seq<char>, end: int)
    ensures
        last_com_before(s, end) matches Some(m) ==> is_com_at(s, m) && m < end,
    decreases end,
{
    if end > 0 && !is_com_at(s, end - 1) {
        lemma_last_com_found(s, end - 1);
    }
}

/// A `COM` at `m` with none after it (before `end`) is the last one.
pub proof fn lemma_last_com_is(s: Seq<char>, m: int, end: int)
    requires
        is_com_at(s, m),
        m < end,
        forall|k: int| m < k < end ==> !is_com_at(s, k),
    ensures
        last_com_before(s, end) == Some(m),
    decreases end,
{
    if end - 1 > m {
        lemma_last_com_is(s, m, end - 1);
    }
}

/// Whether `COM` directly followed by a decimal digit occurs in `s`.
pub open spec fn has_com_digit(s: Seq<char>) -> bool {
    exists|i: int| #[trigger] is_com_at(s, i) && i + 3 < s.len() && is_digit(s[i + 3])
}

/// The friendly name that the device manager shows for a port: the comment,
/// a space, and the COM index in parentheses.
pub open spec fn friendly_name_of(comment: Seq<char>, index: u8) -> Seq<char> {
    comment + seq![' ', '(', 'C', 'O', 'M'] + decimal(index as nat) + seq![')']
}

/// Parsing a friendly name of the form `<comment> (COM<index>)` gives back
/// exactly that index and that comment, whatever the comment holds.
pub proof fn lemma_friendly_name_round_trip(comment: Seq<char>, index: u8)
    ensures
        friendly_name_id(friendly_name_of(comment, index)) == Some((index, comment)),
{
    let s = friendly_name_of(comment, index);
    let d = decimal(index as nat);
    let m: int = comment.len() as int + 2;
    lemma_decimal_digits(index as nat);
    assert(s.len() == m + 3 + d.len() + 1);
    assert(is_com_at(s, m));
    assert forall|k: int| m < k < s.len() implies !is_com_at(s, k) by {
        if k + 3 <= s.len() {
            if k < m + 3 {
                assert(s[k] != 'C');
            } else {
                assert(s[k] == d[k - m - 3]);
                assert(is_digit(d[k - m - 3]));
            }
        }
    }
    lemma_last_com_is(s, m, s.len() as int);
    assert(s.subrange(m + 3, s.len() - 1) =~= d);
    assert(s.subrange(0, m - 2) =~= comment);
}

/// A name in which `COM` is never directly followed by a digit describes
/// no port: such entries are dropped, never misread.
pub proof fn lemma_friendly_name_needs_com_digit(s: Seq<char>)
    requires
        !has_com_digit(s),
    ensures
        friendly_name_id(s) is None,
{
    lemma_last_com_found(s, s.len() as int);
    if let Some(m) = last_com_before(s, s.len() as int) {
        let digits = s.subrange(m + 3, s.len() - 1);
        if is_digit_run(digits) && m + 3 < s.len() {
            assert(digits[0] == s[m + 3]);
            assert(is_com_at(s, m) && m + 3 < s.len() && is_digit(s[m + 3]));
        }
    }
}

/// The view of an optional COM identity.
pub open spec fn com_id_view(r: Option<SerialId<u8>>) -> Option<(u8, Seq<char>)> {
    match r {
        Some(id) => Some(id@),
        None => None,
    }
}

/// The start of the last `COM` in `s`.
fn find_last_com(s: &Vec<char>) -> (r: Option<usize>)
    ensures
        match r {
            Some(k) => last_com_before(s@, s@.len() as int) == Some(k as int),
            None => last_com_before(s@, s@.len() as int) is None,
        },
        r matches Some(k) ==> is_com_at(s@, k as int),
{
    let n = s.len();
    let mut i: usize = n;
    while i > 0
        invariant
            i <= n == s@.len(),
            last_com_before(s@, n as int) == last_com_before(s@, i as int),
        decreases i,
    {
        let j = i - 1;
        if n >= 3 && j <= n - 3 && s[j] == 'C' && s[j + 1] == 'O' && s[j + 2] == 'M' {
            return Some(j);
        }
        i = j;
    }
    None
}

/// The first `k` characters of `s`.
fn take_chars(s: &Vec<char>, k: usize) -> (r: Vec<char>)
    requires
        k <= s.len(),
    ensures
        r@ == s@.take(k as int),
{
    let mut out: Vec<char> = Vec::new();
    let mut i: usize = 0;
    while i < k
        invariant
            i <= k <= s.len(),
            out@ == s@.take(i as int),
        decreases k - i,
    {
        out.push(s[i]);
        i = i + 1;
        assert(out@ =~= s@.take(i as int));
    }
    out
}

/// Parses a device friendly name into the COM index and comment it
/// describes; names without a well-formed `COM<digits>` suffix give `None`.
pub fn parse_friendly_name(name: &str) -> (r: Option<SerialId<u8>>)
    ensures
        com_id_view(r) == friendly_name_id(name@),
{
    let s = chars_of(name);
    match find_last_com(&s) {
        None => None,
        Some(m) => {
            let n = s.len();
            assert(is_com_at(s@, m as int));
            if m >= 2 && m + 3 < n {
                match parse_u8_digits(&s, m + 3, n - 1) {
                    Some(key) => {
                        let comment = string_from_chars(&take_chars(&s, m - 2));
                        Some(SerialId { key, comment })
                    },
                    None => None,
                }
            } else {
                None
            }
        },
    }
}

/// What the `encoding` crate's GBK codec makes of a byte string, or `None`
/// where the bytes are not well-formed. The codec decodes with the GB 18030
/// decoder, so four-byte GB 18030 sequences are accepted too.
pub uninterp spec fn gbk_decoded(b: Seq<u8>) -> Option<Seq<char>>;

/// Whether every byte of `b` is below 0x80.
pub open spec fn all_ascii(b: Seq<u8>) -> bool {
    forall|i: int| 0 <= i < b.len() ==> #[trigger] b[i] < 0x80
}

/// The characters with the codes of the bytes of `b`.
pub open spec fn ascii_chars(b: Seq<u8>) -> Seq<char> {
    b.map_values(|x: u8| x as char)
}

/// Relies on `encoding::all::GBK.decode(_, DecoderTrap::Strict)`: the text
/// is a function of the bytes alone, and a malformed sequence makes the
/// decode fail instead of being replaced. Bytes below 0x80 decode to the
/// same characters, so ASCII input (the empty input included) decodes to
/// itself.
#[verifier::external_body]
fn decode_gbk(b: &[u8]) -> (r: Option<String>)
    ensures
        r is None <==> gbk_decoded(b@) is None,
        r matches Some(s) ==> gbk_decoded(b@) == Some(s@),
        r matches Some(s) ==> (all_ascii(b@) ==> s@ == ascii_chars(b@)),
        all_ascii(b@) ==> r is Some,
{
    GBK.decode(b, DecoderTrap::Strict).ok()
}

/// What lossy UTF-8 decoding makes of a byte string.
pub uninterp spec fn utf8_lossy(b: Seq<u8>) -> Seq<char>;

/// Relies on `String::from_utf8_lossy`: the text is a function of the bytes
/// alone, with each malformed sequence replaced by U+FFFD.
#[verifier::external_body]
fn decode_utf8_lossy(b: &[u8]) -> (r: String)
    ensures
        r@ == utf8_lossy(b@),
{
    String::from_utf8_lossy(b).into_owned()
}

/// The bytes of a NUL-terminated string held in `b`: those before the first
/// zero byte, or all of `b` where it holds none.
pub open spec fn c_string(b: Seq<u8>) -> Seq<u8>
    decreases b.len(),
{
    if b.len() == 0 || b[0] == 0 {
        Seq::empty()
    } else {
        seq![b[0]] + c_string(b.drop_first())
    }
}

/// The friendly-name text of a raw registry property: its NUL-terminated
/// bytes decoded as GBK, or as lossy UTF-8 where they are not GBK.
pub open spec fn property_text(raw: Seq<u8>) -> Seq<char> {
    match gbk_decoded(c_string(raw)) {
        Some(t) => t,
        None => utf8_lossy(c_string(raw)),
    }
}

/// The identity a raw friendly-name property describes, if any.
pub open spec fn property_id(raw: Seq<u8>) -> Option<(u8, Seq<char>)> {
    friendly_name_id(property_text(raw))
}

/// The identities a sequence of raw friendly-name properties yields, in
/// enumeration order.
pub open spec fn com_ids(props: Seq<Seq<u8>>) -> Seq<(u8, Seq<char>)> {
    filter_map(props, |p: Seq<u8>| property_id(p))
}

/// The bytes of `b` before its first zero byte.
pub fn c_string_bytes(b: &[u8]) -> (r: Vec<u8>)
    ensures
        r@ == c_string(b@),
{
    let mut out: Vec<u8> = Vec::new();
    let mut i: usize = 0;
    assert(b@.skip(0) =~= b@);
    assert(b@.take(0) + c_string(b@) =~= c_string(b@));
    while i < b.len() && b[i] != 0
        invariant
            i <= b.len(),
            out@ == b@.take(i as int),
            c_string(b@) == b@.take(i as int) + c_string(b@.skip(i as int)),
        decreases b.len() - i,
    {
        let ghost rest = b@.skip(i as int);
        assert(rest.drop_first() =~= b@.skip(i + 1));
        out.push(b[i]);
        i = i + 1;
        assert(out@ =~= b@.take(i as int));
        assert(b@.take(i as int) =~= b@.take(i - 1) + seq![rest[0]]);
    }
    assert(c_string(b@.skip(i as int)) =~= Seq::<u8>::empty());
    assert(out@ =~= c_string(b@));
    out
}

/// The identity described by a raw friendly-name property read from the
/// device registry: the NUL-terminated bytes are decoded (GBK first, lossy
/// UTF-8 as the fallback) and the text is parsed as a friendly name.
pub fn com_id_from_property(raw: &[u8]) -> (r: Option<SerialId<u8>>)
    ensures
        com_id_view(r) == property_id(raw@),
        raw@.len() == 0 || raw@[0] == 0 ==> r is None,
{
    let bytes = c_string_bytes(raw);
    let text = match decode_gbk(bytes.as_slice()) {
        Some(t) => t,
        None => decode_utf8_lossy(bytes.as_slice()),
    };
    proof {
        if raw@.len() == 0 || raw@[0] == 0 {
            assert(ascii_chars(bytes@) =~= Seq::<char>::empty());
            assert(last_com_before(text@, 0) is None);
        }
    }
    parse_friendly_name(text.as_str())
}

/// The identities for the friendly-name properties of the enumerated COM
/// devices, in enumeration order; properties that name no COM port are
/// dropped.
pub fn com_ids_from_properties(props: &Vec<Vec<u8>>) -> (r: Vec<SerialId<u8>>)
    ensures
        ids_view(r@) == com_ids(props@.map_values(|p: Vec<u8>| p@)),
{
    let ghost pv = props@.map_values(|p: Vec<u8>| p@);
    let mut out: Vec<SerialId<u8>> = Vec::new();
    let mut i: usize = 0;
    while i < props.len()
        invariant
            i <= props.len(),
            pv == props@.map_values(|p: Vec<u8>| p@),
            ids_view(out@) == com_ids(pv.take(i as int)),
        decreases props.len() - i,
    {
        assert(pv.take(i + 1).drop_last() =~= pv.take(i as int));
        match com_id_from_property(props[i].as_slice()) {
            Some(id) => out.push(id),
            None => {},
        }
        assert(ids_view(out@) =~= com_ids(pv.take(i + 1)));
        i = i + 1;
    }
    assert(pv.take(props.len() as int) =~= pv);
    out
}

/// Enumerating the same set of friendly-name properties, in any order,
/// yields the same set of identities.
pub proof fn lemma_com_list_same_set(a: Seq<Seq<u8>>, b: Seq<Seq<u8>>)
    requires
        a.to_set() == b.to_set(),
    ensures
        com_ids(a).to_set() == com_ids(b).to_set(),
{
    lemma_filter_map_same_set(a, b, |p: Seq<u8>| property_id(p));
}

/// The inter-byte read interval, in milliseconds, every COM port is given.
pub const READ_INTERVAL_TIMEOUT_MS: u32 = 5;

/// The device control block and timeouts a COM port is configured with.
#[derive(Debug, Clone, Copy, PartialEq, Eq, Structural)]
pub struct ComSettings {
    /// `DCB::BaudRate`: passed through as given.
    pub baud: u32,
    /// `DCB::ByteSize`.
    pub byte_size: u8,
    /// `COMMTIMEOUTS::ReadIntervalTimeout`, in milliseconds.
    pub read_interval_timeout: u32,
    /// `COMMTIMEOUTS::ReadTotalTimeoutConstant`, in milliseconds.
    pub read_total_timeout_constant: u32,
}

/// The settings for `baud` and a read timeout of `timeout` milliseconds.
pub open spec fn com_settings(baud: u32, timeout: u32) -> ComSettings {
    ComSettings {
        baud,
        byte_size: 8,
        read_interval_timeout: 5,
        read_total_timeout_constant: timeout,
    }
}

/// The extended-length device path of COM port `index`, as in `\\.\COM7`.
pub open spec fn com_device_path(index: u8) -> Seq<char> {
    seq!['\\', '\\', '.', '\\', 'C', 'O', 'M'] + decimal(index as nat)
}

/// Everything needed to open and configure a COM port.
#[derive(Debug)]
pub struct ComPlan {
    /// The device path to open.
    pub path: String,
    /// The settings to apply once it is open.
    pub settings: ComSettings,
}

/// Plans the opening of COM port `index` at `baud` with a read timeout of
/// `timeout` milliseconds. Any baud value is passed on to the device, which
/// may refuse it when the settings are applied.
pub fn com_open_plan(index: u8, baud: u32, timeout: u32) -> (r: ComPlan)
    ensures
        r.path@ == com_device_path(index),
        r.settings == com_settings(baud, timeout),
{
    let mut path = chars_of("\\\\.\\COM");
    proof {
        reveal_strlit("\\\\.\\COM");
    }
    assert(path@ =~= seq!['\\', '\\', '.', '\\', 'C', 'O', 'M']);
    let mut digits = decimal_chars(index);
    path.append(&mut digits);
    let settings = ComSettings {
        baud,
        byte_size: 8,
        read_interval_timeout: READ_INTERVAL_TIMEOUT_MS,
        read_total_timeout_constant: timeout,
    };
    ComPlan { path: string_from_chars(&path), settings }
}

/// What an overlapped read or write reported at its latest stage.
#[derive(Debug, Clone, Copy, PartialEq, Eq, Structural)]
pub enum TransferEvent {
    /// The read or write was issued: it either `completed` at once, or
    /// failed, `pending` telling whether the failure is only that the
    /// operation is still in progress.
    Issued { completed: bool, pending: bool },
    /// The wait on the completion event returned; `signalled` tells whether
    /// the event was signalled.
    Waited { signalled: bool },
    /// The overlapped result was queried; `ok` tells whether it succeeded.
    Fetched { ok: bool },
}

/// What to do next in an overlapped read or write.
#[derive(Debug, Clone, Copy, PartialEq, Eq, Structural)]
pub enum TransferAction {
    /// Wait for the completion event.
    Wait,
    /// Query the overlapped result.
    Fetch,
    /// The transfer is over: the byte count, or `None` on failure or when
    /// nothing moved (a read that timed out).
    Finish(Option<usize>),
}

/// The next step of a blocking overlapped transfer on a buffer of
/// `requested` bytes, `len` being the byte count the latest call reported.
/// A transfer that completes at issue or on query finishes with
/// `transfer_result(requested, len)`; a pending operation is waited for and
/// then queried; any other outcome finishes with `None`.
pub fn overlapped_next(event: TransferEvent, requested: usize, len: u32) -> (a: TransferAction)
    ensures
        a == match event {
            TransferEvent::Issued { completed, pending } => if completed {
                TransferAction::Finish(transfer_result(requested, len as usize))
            } else if pending {
                TransferAction::Wait
            } else {
                TransferAction::Finish(None)
            },
            TransferEvent::Waited { signalled } => if signalled {
                TransferAction::Fetch
            } else {
                TransferAction::Finish(None)
            },
            TransferEvent::Fetched { ok } => if ok {
                TransferAction::Finish(transfer_result(requested, len as usize))
            } else {
                TransferAction::Finish(None)
            },
        },
{
    match event {
        TransferEvent::Issued { completed, pending } => {
            if completed {
                TransferAction::Finish(transfer_count(requested, len as usize))
            } else if pending {
                TransferAction::Wait
            } else {
                TransferAction::Finish(None)
            }
        },
        TransferEvent::Waited { signalled } => {
            if signalled {
                TransferAction::Fetch
            } else {
                TransferAction::Finish(None)
            }
        },
        TransferEvent::Fetched { ok } => {
            if ok {
                TransferAction::Finish(transfer_count(requested, len as usize))
            } else {
                TransferAction::Finish(None)
            }
        },
    }
}

} // verus!
