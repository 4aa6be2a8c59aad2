//! The decisions of packet capture: which device to open for an interface,
//! and what to do with each read from it.
use vstd::prelude::*;
use crate::models::NetworkEvent;
use crate::parser::{PacketParser, ethernet_headers, event_from, headers_decodable, yields_event};
use crate::text::{chars_equal, chars_of, push_str, string_of};

verus! {

/// A capture device as listed: its name and, where it has one, its
/// description.
pub struct DeviceEntry {
    pub name: String,
    pub desc: Option<String>,
}

/// Whether a device answers to `interface`, by name or by description.
pub open spec fn device_matches(d: DeviceEntry, interface: Seq<char>) -> bool {
    d.name@ == interface || (d.desc matches Some(t) && t@ == interface)
}

/// The message when no device answers to an interface.
pub open spec fn not_found_text(interface: Seq<char>) -> Seq<char> {
    "Interface not found: "@ + interface
}

fn same(a: &str, b: &str) -> (r: bool)
    ensures
        r == (a@ == b@),
{
    chars_equal(&chars_of(a), &chars_of(b))
}

/// The device to open for `interface`: the first listed whose name or
/// description is `interface`.
pub fn device_for(devices: &Vec<DeviceEntry>, interface: &str) -> (r: Result<usize, String>)
    ensures
        r matches Ok(i) ==> i < devices.len() && device_matches(devices@[i as int], interface@)
            && forall|j: int| 0 <= j < i ==> !device_matches(#[trigger] devices@[j], interface@),
        r matches Err(m) ==> m@ == not_found_text(interface@) && forall|j: int|
            0 <= j < devices.len() ==> !device_matches(#[trigger] devices@[j], interface@),
{
    let mut i: usize = 0;
    while i < devices.len()
        invariant
            i <= devices.len(),
            forall|j: int| 0 <= j < i ==> !device_matches(#[trigger] devices@[j], interface@),
        decreases devices.len() - i,
    {
        let d = &devices[i];
        let by_desc = match &d.desc {
            Some(t) => same(t.as_str(), interface),
            None => false,
        };
        if same(d.name.as_str(), interface) || by_desc {
            return Ok(i);
        }
        i = i + 1;
    }
    let mut m = string_of("Interface not found: ");
    push_str(&mut m, interface);
    Err(m)
}

/// What one read from a capture device gave.
pub enum CaptureRead {
    /// A frame.
    Packet(Vec<u8>),
    /// Nothing arrived before the read timed out.
    TimedOut,
    /// The device failed.
    Failed,
}

/// What the capture loop does next.
pub enum CaptureStep {
    /// Hands the event on.
    Deliver(NetworkEvent),
    /// Reads again: the frame gave no event, or the read timed out.
    ReadAgain,
    /// Stops capturing: the device failed.
    Stop,
}

/// The step after a read: a frame that gives an event is delivered (frames
/// whose DNS payload cannot be decoded give none), a frame without one and a
/// timeout lead to another read, a failure stops the capture.
pub fn capture_step(parser: &PacketParser, read: CaptureRead) -> (step: CaptureStep)
    ensures
        read matches CaptureRead::Failed ==> step is Stop,
        read matches CaptureRead::TimedOut ==> step is ReadAgain,
        read matches CaptureRead::Packet(data) ==> match ethernet_headers(data@) {
            Some(h) => if yields_event(h) && headers_decodable(h) {
                step matches CaptureStep::Deliver(ev) && event_from(ev, h, data@.len())
            } else {
                step is ReadAgain
            },
            None => step is ReadAgain,
        },
{
    match read {
        CaptureRead::Packet(data) => match parser.try_parse(data.as_slice()) {
            Some(ev) => CaptureStep::Deliver(ev),
            None => CaptureStep::ReadAgain,
        },
        CaptureRead::TimedOut => CaptureStep::ReadAgain,
        CaptureRead::Failed => CaptureStep::Stop,
    }
}

} // verus!
