//! The daemon event stream: received bus messages, already projected to
//! plain values by the embedding application, are filtered and decoded
//! into typed signals here.
//!
//! Non-signal messages are dropped silently. Only five member names are
//! recognized; any other member is dropped rather than erroring, so newer
//! daemons stay compatible. A payload that does not decode to the shape
//! its member calls for skips that one message without ending the stream.
//! The stream ends the moment the shared cancellation flag is observed
//! cleared, checked once per received message.

use vstd::prelude::*;
use crate::device::Device;

verus! {

/// One value of an open-ended property bag, as far as this client reads
/// them; anything else is carried as `Other`.
#[derive(Debug, PartialEq)]
pub enum PropValue {
    Bool(bool),
    Uint64(u64),
    Text(String),
    TextList(Vec<String>),
    Other,
}

/// A decoded daemon event. Each instance is terminal and self-contained.
#[derive(Debug, PartialEq)]
pub enum Signal {
    /// Some value on the interface or the number of devices has changed.
    Changed,
    /// A device has been added.
    DeviceAdded(Device),
    /// A device has been changed.
    DeviceChanged(Device),
    /// A device has been removed.
    DeviceRemoved(Device),
    /// A property on an interface has changed.
    PropertiesChanged {
        /// The interface the change happened on.
        interface: String,
        /// The changed property values, keyed by property name.
        changed: Vec<(String, PropValue)>,
        /// The property names whose values were invalidated.
        invalidated: Vec<String>,
    },
}

/// A signal message's payload after projection to plain values. The
/// projection is fallible: a payload that does not fit the shape its
/// member calls for arrives as `Malformed` with its diagnostic text.
#[derive(Debug, PartialEq)]
pub enum SignalBody {
    /// No arguments (or none this client reads).
    Empty,
    /// A full device record.
    DeviceRecord(Device),
    /// A structured properties-changed notification.
    Properties {
        interface: String,
        changed: Vec<(String, PropValue)>,
        invalidated: Vec<String>,
    },
    /// The payload did not decode against the expected shape.
    Malformed(String),
}

/// A signal-class message: its member name and projected payload.
#[derive(Debug, PartialEq)]
pub struct RawSignal {
    pub member: String,
    pub body: SignalBody,
}

/// One item pulled from the bus connection.
#[derive(Debug, PartialEq)]
pub enum BusItem {
    /// A method return, an error, or nothing: never surfaced.
    NonSignal,
    /// A signal-class message.
    Signal(RawSignal),
}

/// The signal a raw message decodes to: `None` for an unrecognized
/// member, and for a recognized member whose payload has the wrong
/// shape. Exactly five member names are recognized.
pub open spec fn spec_decode(s: RawSignal) -> Option<Signal> {
    if s.member@ == "Changed"@ {
        Some(Signal::Changed)
    } else if s.member@ == "DeviceAdded"@ {
        match s.body {
            SignalBody::DeviceRecord(d) => Some(Signal::DeviceAdded(d)),
            _ => None,
        }
    } else if s.member@ == "DeviceChanged"@ {
        match s.body {
            SignalBody::DeviceRecord(d) => Some(Signal::DeviceChanged(d)),
            _ => None,
        }
    } else if s.member@ == "DeviceRemoved"@ {
        match s.body {
            SignalBody::DeviceRecord(d) => Some(Signal::DeviceRemoved(d)),
            _ => None,
        }
    } else if s.member@ == "PropertiesChanged"@ {
        match s.body {
            SignalBody::Properties { interface, changed, invalidated } => Some(
                Signal::PropertiesChanged { interface, changed, invalidated },
            ),
            _ => None,
        }
    } else {
        None
    }
}

/// Decodes one signal message, per `spec_decode`.
pub fn decode_signal(s: RawSignal) -> (r: Option<Signal>)
    ensures
        r == spec_decode(s),
{
    let RawSignal { member, body } = s;
    if member.eq(&String::from_str("Changed")) {
        Some(Signal::Changed)
    } else if member.eq(&String::from_str("DeviceAdded")) {
        match body {
            SignalBody::DeviceRecord(d) => Some(Signal::DeviceAdded(d)),
            _ => None,
        }
    } else if member.eq(&String::from_str("DeviceChanged")) {
        match body {
            SignalBody::DeviceRecord(d) => Some(Signal::DeviceChanged(d)),
            _ => None,
        }
    } else if member.eq(&String::from_str("DeviceRemoved")) {
        match body {
            SignalBody::DeviceRecord(d) => Some(Signal::DeviceRemoved(d)),
            _ => None,
        }
    } else if member.eq(&String::from_str("PropertiesChanged")) {
        match body {
            SignalBody::Properties { interface, changed, invalidated } => Some(
                Signal::PropertiesChanged { interface, changed, invalidated },
            ),
            _ => None,
        }
    } else {
        None
    }
}

/// What the stream does with one received item under the given flag
/// value.
#[derive(Debug, PartialEq)]
pub enum StreamStep {
    /// The flag was observed cleared: the stream ends here.
    Ended,
    /// The item is dropped; the stream goes on.
    Skipped,
    /// The item decodes to a signal, yielded to the caller.
    Yielded(Signal),
}

/// The stream's decision for one item: it ends exactly when the flag is
/// cleared, drops non-signal messages and undecodable ones, and yields
/// decoded signals.
pub open spec fn spec_stream_step(live: bool, item: BusItem) -> StreamStep {
    if !live {
        StreamStep::Ended
    } else {
        match item {
            BusItem::NonSignal => StreamStep::Skipped,
            BusItem::Signal(rs) => match spec_decode(rs) {
                Some(sig) => StreamStep::Yielded(sig),
                None => StreamStep::Skipped,
            },
        }
    }
}

/// Processes one received item. The flag value is the one observed just
/// before this item was filtered: a cleared flag ends the stream within
/// one message's latency, and nothing but `Ended` can end it.
pub fn stream_step(live: bool, item: BusItem) -> (r: StreamStep)
    ensures
        r == spec_stream_step(live, item),
        r is Ended <==> !live,
{
    if !live {
        return StreamStep::Ended;
    }
    match item {
        BusItem::NonSignal => StreamStep::Skipped,
        BusItem::Signal(rs) => match decode_signal(rs) {
            Some(sig) => StreamStep::Yielded(sig),
            None => StreamStep::Skipped,
        },
    }
}

/// The signals yielded over a whole run: `items` are the received bus
/// items in order and `live[k]` is the flag value observed before item
/// `k` was processed.
pub open spec fn spec_stream_signals(items: Seq<BusItem>, live: Seq<bool>) -> Seq<Signal>
    decreases items.len(),
{
    if items.len() == 0 || live.len() == 0 {
        Seq::empty()
    } else if !live[0] {
        Seq::empty()
    } else {
        let rest = spec_stream_signals(items.skip(1), live.skip(1));
        match spec_stream_step(true, items[0]) {
            StreamStep::Yielded(sig) => seq![sig] + rest,
            _ => rest,
        }
    }
}

/// Once the cancellation flag is observed cleared, no later item
/// contributes anything: the stream equals its prefix before that
/// observation.
pub proof fn lemma_cancellation_truncates(items: Seq<BusItem>, live: Seq<bool>, k: int)
    requires
        items.len() == live.len(),
        0 <= k < items.len(),
        !live[k],
    ensures
        spec_stream_signals(items, live) == spec_stream_signals(items.take(k), live.take(k)),
    decreases k,
{
    if k == 0 {
        assert(spec_stream_signals(items, live) == Seq::<Signal>::empty());
    } else {
        if !live[0] {
        } else {
            lemma_cancellation_truncates(items.skip(1), live.skip(1), k - 1);
            assert(items.skip(1).take(k - 1) =~= items.take(k).skip(1));
            assert(live.skip(1).take(k - 1) =~= live.take(k).skip(1));
            assert(items.take(k)[0] == items[0]);
            assert(live.take(k)[0] == live[0]);
        }
    }
}

/// Dropping one message — a non-signal item, an unrecognized member, or
/// a payload that failed to decode — never ends the stream: the yielded
/// sequence continues exactly as if the remaining items were processed
/// on their own.
pub proof fn lemma_skip_preserves_rest(items: Seq<BusItem>, live: Seq<bool>)
    requires
        items.len() == live.len(),
        items.len() > 0,
        live[0],
        !(spec_stream_step(true, items[0]) is Yielded),
    ensures
        spec_stream_signals(items, live) == spec_stream_signals(items.skip(1), live.skip(1)),
{
}

/// Every yielded signal comes from a signal-class item that decoded
/// under a recognized member: an unrecognized member name never appears
/// in the yielded sequence.
pub proof fn lemma_yields_only_decoded(items: Seq<BusItem>, live: Seq<bool>)
    requires
        items.len() == live.len(),
    ensures
        forall|j: int|
            #![trigger spec_stream_signals(items, live)[j]]
            0 <= j < spec_stream_signals(items, live).len() ==> exists|k: int|
                0 <= k < items.len() && ((#[trigger] items[k]) matches BusItem::Signal(rs)
                    && spec_decode(rs) == Some(spec_stream_signals(items, live)[j])),
    decreases items.len(),
{
    let out = spec_stream_signals(items, live);
    if items.len() == 0 || !live[0] {
    } else {
        lemma_yields_only_decoded(items.skip(1), live.skip(1));
        let rest = spec_stream_signals(items.skip(1), live.skip(1));
        assert forall|j: int| #![trigger out[j]] 0 <= j < out.len() implies exists|k: int|
            0 <= k < items.len() && ((#[trigger] items[k]) matches BusItem::Signal(rs)
                && spec_decode(rs) == Some(out[j])) by {
            match spec_stream_step(true, items[0]) {
                StreamStep::Yielded(sig) => {
                    if j == 0 {
                        assert(items[0] matches BusItem::Signal(rs) && spec_decode(rs) == Some(
                            out[0],
                        ));
                    } else {
                        let kk = choose|kk: int|
                            0 <= kk < items.skip(1).len() && ((#[trigger] items.skip(1)[kk]) matches
                                BusItem::Signal(rs) && spec_decode(rs) == Some(rest[j - 1]));
                        assert(items[kk + 1] == items.skip(1)[kk]);
                    }
                },
                _ => {
                    let kk = choose|kk: int|
                        0 <= kk < items.skip(1).len() && ((#[trigger] items.skip(1)[kk]) matches
                            BusItem::Signal(rs) && spec_decode(rs) == Some(rest[j]));
                    assert(items[kk + 1] == items.skip(1)[kk]);
                },
            }
        }
    }
}

/// Runs the stream's decision over a whole sequence of received items,
/// consuming each item it processes; `live[k]` is the flag value
/// observed before item `k`. Yields exactly `spec_stream_signals`; once
/// the flag is observed cleared the unprocessed tail is left in place.
pub fn collect_signals(items: &mut Vec<BusItem>, live: &Vec<bool>) -> (r: Vec<Signal>)
    requires
        old(items)@.len() == live@.len(),
    ensures
        r@ == spec_stream_signals(old(items)@, live@),
        exists|k: int| 0 <= k <= old(items)@.len() && final(items)@ == old(items)@.skip(k),
{
    let ghost orig_items = items@;
    let ghost orig_live = live@;
    let mut out: Vec<Signal> = Vec::new();
    let mut i: usize = 0;
    let mut stopped = false;
    let n_total: usize = items.len();
    proof {
        assert(orig_items.skip(0) =~= orig_items);
        assert(orig_live.skip(0) =~= orig_live);
        assert(Seq::<Signal>::empty() + spec_stream_signals(orig_items, orig_live)
            =~= spec_stream_signals(orig_items, orig_live));
    }
    while !stopped && items.len() > 0
        invariant
            orig_items.len() == n_total,
            i + items@.len() == orig_items.len(),
            orig_items.len() == orig_live.len(),
            items@ == orig_items.skip(i as int),
            live@ == orig_live,
            !stopped ==> spec_stream_signals(orig_items, orig_live) == out@
                + spec_stream_signals(items@, orig_live.skip(i as int)),
            stopped ==> spec_stream_signals(orig_items, orig_live) == out@,
        decreases items@.len(),
    {
        let ghost pre_items = items@;
        let ghost pre_live = orig_live.skip(i as int);
        let l = live[i];
        let item = items.remove(0);
        proof {
            assert(pre_live[0] == orig_live[i as int]);
            assert(items@ =~= pre_items.skip(1));
            assert(items@ =~= orig_items.skip(i + 1));
            assert(pre_live.skip(1) =~= orig_live.skip(i + 1));
        }
        match stream_step(l, item) {
            StreamStep::Ended => {
                proof {
                    assert(!pre_live[0]);
                    assert(spec_stream_signals(pre_items, pre_live) == Seq::<Signal>::empty());
                    assert(out@ + Seq::<Signal>::empty() =~= out@);
                }
                stopped = true;
            },
            StreamStep::Yielded(sig) => {
                proof {
                    assert(spec_stream_signals(pre_items, pre_live) == seq![sig]
                        + spec_stream_signals(items@, orig_live.skip(i + 1)));
                    assert(out@ + (seq![sig] + spec_stream_signals(items@, orig_live.skip(i + 1)))
                        =~= out@.push(sig) + spec_stream_signals(items@, orig_live.skip(i + 1)));
                }
                out.push(sig);
            },
            StreamStep::Skipped => {
                proof {
                    assert(spec_stream_signals(pre_items, pre_live) == spec_stream_signals(
                        items@,
                        orig_live.skip(i + 1),
                    ));
                }
            },
        }
        i = i + 1;
    }
    proof {
        if !stopped {
            assert(spec_stream_signals(items@, orig_live.skip(i as int))
                == Seq::<Signal>::empty());
            assert(out@ + Seq::<Signal>::empty() =~= out@);
        }
    }
    out
}

} // verus!
