//! The sample-delivery bridge: a strict request/reply protocol between the
//! real-time audio callback and the thread that owns the oscillator, carried
//! over two bounded one-directional channels.

use vstd::prelude::*;
use crossbeam::channel::{Receiver, RecvError, SendError, Sender};
use crate::waveform::ONE;
use crate::oscillator::{sample_at, Oscillator};

verus! {

#[verifier::external_type_specification]
#[verifier::external_body]
#[verifier::reject_recursive_types(T)]
pub struct ExSender<T>(Sender<T>);

#[verifier::external_type_specification]
#[verifier::external_body]
#[verifier::reject_recursive_types(T)]
pub struct ExReceiver<T>(Receiver<T>);

#[verifier::external_type_specification]
#[verifier::external_body]
#[verifier::reject_recursive_types(T)]
pub struct ExSendError<T>(SendError<T>);

#[verifier::external_type_specification]
#[verifier::external_body]
pub struct ExRecvError(RecvError);

/// Relies on crossbeam's `bounded`: it makes a channel with room for `cap`
/// messages (a rendezvous channel for `cap == 0`). It panics only when the
/// capacity is too large to lay out, which the bound here rules out.
pub assume_specification<T>[ crossbeam::channel::bounded::<T> ](cap: usize) -> (Sender<T>, Receiver<T>)
    requires
        cap <= 1048576,
;

/// Relies on crossbeam's `Sender::send`: it blocks until the message is queued,
/// or fails once every receiver is gone.
pub assume_specification<T>[ Sender::<T>::send ](s: &Sender<T>, msg: T) -> Result<(), SendError<T>>;

/// Relies on crossbeam's `Receiver::recv`: it blocks until a message arrives,
/// or fails once the channel is empty and every sender is gone.
pub assume_specification<T>[ Receiver::<T>::recv ](r: &Receiver<T>) -> Result<T, RecvError>;

/// The largest channel capacity that `link` accepts.
pub const MAX_CAPACITY: usize = 1048576;

/// The capacity of each bridge channel: headroom, not pipelining depth, since
/// at most one request is outstanding.
pub const CHANNEL_CAPACITY: usize = 1000;

/// The frequency of the tone played, in Hz.
pub const TONE_FREQUENCY: u32 = 220;

/// The number of entries in the tone's wavetable.
pub const TABLE_SIZE: usize = 64;

/// The numerator of the fixed gain applied to every sample handed out.
pub const GAIN_NUM: u32 = 1;

/// The denominator of the fixed gain applied to every sample handed out.
pub const GAIN_DEN: u32 = 10;

/// The one message the callback sends: it needs a sample.
#[derive(Clone, Copy, Debug, PartialEq, Eq, Structural)]
pub enum AudioThreadMessage {
    RequestSample,
}

/// The one message the generator sends: a computed sample.
#[derive(Clone, Copy, Debug, PartialEq, Eq, Structural)]
pub enum MainThreadMessage {
    Sample(i32),
}

/// A broken rendezvous: the peer on one of the channels is gone.
#[derive(Clone, Copy, Debug, PartialEq, Eq, Structural)]
pub enum BridgeError {
    /// The request channel failed: no request could be sent, or none can come.
    RequestChannelClosed,
    /// The reply channel failed: no reply could be sent, or none can come.
    ReplyChannelClosed,
}

/// Why a generator could not be made.
#[derive(Clone, Copy, Debug, PartialEq, Eq, Structural)]
pub enum GeneratorError {
    /// The gain `num / den` must have `den > 0` and must not exceed one.
    InvalidGain,
}

/// `s · num / den`, rounded towards zero.
pub open spec fn scaled(s: int, num: int, den: int) -> int {
    if s >= 0 {
        (s * num) / den
    } else {
        -((-s * num) / den)
    }
}

/// Scales a unit-range amplitude by the gain `num / den`, rounding towards zero.
pub fn scale(sample: i32, num: u32, den: u32) -> (r: i32)
    requires
        0 < den,
        num <= den,
        -ONE <= sample <= ONE,
    ensures
        r == scaled(sample as int, num as int, den as int),
        -ONE <= r <= ONE,
{
    let magnitude: u64 = if sample >= 0 {
        sample as u64
    } else {
        (-(sample as i64)) as u64
    };
    assert(magnitude * num <= magnitude * den) by (nonlinear_arith)
        requires num <= den, magnitude >= 0;
    assert(magnitude * den <= ONE * u32::MAX) by (nonlinear_arith)
        requires magnitude <= ONE, den <= u32::MAX;
    let q: u64 = magnitude * (num as u64) / (den as u64);
    proof {
        vstd::arithmetic::div_mod::lemma_div_is_ordered(
            (magnitude * num) as int,
            (magnitude * den) as int,
            den as int,
        );
        vstd::arithmetic::div_mod::lemma_div_by_multiple(magnitude as int, den as int);
    }
    if sample >= 0 {
        q as i32
    } else {
        -(q as i32)
    }
}

/// The generation side's state: the oscillator it alone owns, and the fixed
/// gain `num / den` applied to every sample it hands out.
pub struct Generator<'a> {
    osc: Oscillator<'a>,
    gain_num: u32,
    gain_den: u32,
}

impl<'a> Generator<'a> {
    /// The oscillator driven.
    pub closed spec fn oscillator(&self) -> Oscillator<'a> {
        self.osc
    }

    /// The gain's numerator.
    pub closed spec fn gain_num(&self) -> nat {
        self.gain_num as nat
    }

    /// The gain's denominator.
    pub closed spec fn gain_den(&self) -> nat {
        self.gain_den as nat
    }

    pub open spec fn wf(&self) -> bool {
        &&& self.oscillator().wf()
        &&& 0 < self.gain_den()
        &&& self.gain_num() <= self.gain_den()
    }

    /// The reply to the next request.
    pub open spec fn reply(&self) -> i32 {
        scaled(self.oscillator().current() as int, self.gain_num() as int, self.gain_den() as int) as i32
    }

    /// The replies that the next `k` requests draw, one at a time.
    pub open spec fn replies(&self, k: nat) -> Seq<i32> {
        let o = self.oscillator();
        replies(o.table(), o.phase(), o.increment(), o.rate(), self.gain_num(), self.gain_den(), k)
    }

    /// `next` has the gain of `self` and its oscillator one step ahead.
    pub open spec fn stepped_to(&self, next: &Generator) -> bool {
        &&& self.oscillator().stepped_to(&next.oscillator())
        &&& next.gain_num() == self.gain_num()
        &&& next.gain_den() == self.gain_den()
    }

    /// `other` is in the same state as `self`.
    pub open spec fn same_as(&self, other: &Generator) -> bool {
        &&& self.oscillator().same_as(&other.oscillator())
        &&& other.gain_num() == self.gain_num()
        &&& other.gain_den() == self.gain_den()
    }

    /// A generator over `osc` with the gain `gain_num / gain_den`, which must
    /// have a positive denominator and not exceed one.
    pub fn new(osc: Oscillator<'a>, gain_num: u32, gain_den: u32) -> (r: Result<Generator<'a>, GeneratorError>)
        requires
            osc.wf(),
        ensures
            (gain_den == 0 || gain_num > gain_den) <==> r is Err,
            r is Err ==> r == Err::<Generator<'a>, GeneratorError>(GeneratorError::InvalidGain),
            r matches Ok(g) ==> {
                &&& g.wf()
                &&& g.oscillator().same_as(&osc)
                &&& g.gain_num() == gain_num
                &&& g.gain_den() == gain_den
            },
    {
        if gain_den == 0 || gain_num > gain_den {
            return Err(GeneratorError::InvalidGain);
        }
        Ok(Generator { osc, gain_num, gain_den })
    }

    /// Answers one request: advances the oscillator one step and replies with
    /// its sample scaled by the gain.
    pub fn respond(&mut self, request: AudioThreadMessage) -> (r: MainThreadMessage)
        requires
            old(self).wf(),
        ensures
            final(self).wf(),
            old(self).stepped_to(&*final(self)),
            r == MainThreadMessage::Sample(old(self).reply()),
            -ONE <= old(self).reply() <= ONE,
    {
        match request {
            AudioThreadMessage::RequestSample => {
                let s = self.osc.next();
                MainThreadMessage::Sample(scale(s, self.gain_num, self.gain_den))
            },
        }
    }
}

/// The callback's ends of the bridge: it sends requests and receives replies.
pub struct CallbackLink {
    requests: Sender<AudioThreadMessage>,
    replies: Receiver<MainThreadMessage>,
}

/// The generator's ends of the bridge: it receives requests and sends replies.
pub struct GeneratorLink {
    requests: Receiver<AudioThreadMessage>,
    replies: Sender<MainThreadMessage>,
}

/// Makes the two bounded channels of a bridge, each with room for `capacity`
/// messages, and hands each side its ends.
pub fn link(capacity: usize) -> (r: (CallbackLink, GeneratorLink))
    requires
        capacity <= MAX_CAPACITY,
{
    let (request_tx, request_rx) = crossbeam::channel::bounded(capacity);
    let (reply_tx, reply_rx) = crossbeam::channel::bounded(capacity);
    (
        CallbackLink { requests: request_tx, replies: reply_rx },
        GeneratorLink { requests: request_rx, replies: reply_tx },
    )
}

/// What the callback makes of what arrived on the reply channel: the sample
/// carried, or a broken rendezvous when the generator is gone.
pub fn decode_reply(reply: Result<MainThreadMessage, RecvError>) -> (r: Result<i32, BridgeError>)
    ensures
        reply matches Ok(MainThreadMessage::Sample(v)) ==> r == Ok::<i32, BridgeError>(v),
        reply is Err ==> r == Err::<i32, BridgeError>(BridgeError::ReplyChannelClosed),
{
    match reply {
        Ok(MainThreadMessage::Sample(v)) => Ok(v),
        Err(_) => Err(BridgeError::ReplyChannelClosed),
    }
}

impl CallbackLink {
    /// Pairs a request sender with a reply receiver.
    pub fn new(requests: Sender<AudioThreadMessage>, replies: Receiver<MainThreadMessage>) -> (r: CallbackLink) {
        CallbackLink { requests, replies }
    }

    /// One rendezvous: sends a request, then blocks until its reply arrives.
    /// Which sample comes back is the generator's to decide.
    pub fn next_sample(&self) -> (r: Result<i32, BridgeError>) {
        match self.requests.send(AudioThreadMessage::RequestSample) {
            Ok(()) => decode_reply(self.replies.recv()),
            Err(_) => Err(BridgeError::RequestChannelClosed),
        }
    }
}

impl GeneratorLink {
    /// Pairs a request receiver with a reply sender.
    pub fn new(requests: Receiver<AudioThreadMessage>, replies: Sender<MainThreadMessage>) -> (r: GeneratorLink) {
        GeneratorLink { requests, replies }
    }

    /// Serves one request: blocks until it arrives, answers it from `generator`
    /// and sends the reply. When no request can come the generator is left as
    /// it was; otherwise it has taken exactly one step, whether or not the reply
    /// could be sent.
    pub fn serve_one(&self, generator: &mut Generator) -> (r: Result<(), BridgeError>)
        requires
            old(generator).wf(),
        ensures
            final(generator).wf(),
            r == Err::<(), BridgeError>(BridgeError::RequestChannelClosed) ==> old(generator).same_as(&*final(generator)),
            r != Err::<(), BridgeError>(BridgeError::RequestChannelClosed) ==> old(generator).stepped_to(&*final(generator)),
    {
        match self.requests.recv() {
            Err(_) => Err(BridgeError::RequestChannelClosed),
            Ok(request) => {
                let reply = generator.respond(request);
                match self.replies.send(reply) {
                    Ok(()) => Ok(()),
                    Err(_) => Err(BridgeError::ReplyChannelClosed),
                }
            },
        }
    }
}

/// The replies that `k` requests, issued one at a time, draw from a generator
/// whose oscillator reads `table` from the phase `phase / rate`.
pub open spec fn replies(table: Seq<i32>, phase: nat, increment: nat, rate: nat, num: nat, den: nat, k: nat) -> Seq<i32>
    decreases k,
{
    if k == 0 {
        Seq::empty()
    } else {
        seq![scaled(sample_at(table, phase, rate) as int, num as int, den as int) as i32]
            + replies(table, (phase + increment) % rate, increment, rate, num, den, (k - 1) as nat)
    }
}

/// Answering a request sends the first of the replies due and leaves the
/// generator owing the rest: if `respond` took `g` to `next` (its `ensures`),
/// the reply it sent, `g.reply()`, heads `g.replies(k + 1)`, and `next.replies(k)`
/// is what follows.
pub proof fn lemma_respond_advances_replies(g: &Generator, next: &Generator, k: nat)
    requires
        g.wf(),
        g.stepped_to(next),
    ensures
        g.replies(k + 1) == seq![g.reply()] + next.replies(k),
        g.replies(k + 1)[0] == g.reply(),
{
    let o = g.oscillator();
    assert(g.replies(k + 1) == seq![g.reply()] + replies(
        o.table(), (o.phase() + o.increment()) % o.rate(), o.increment(), o.rate(),
        g.gain_num(), g.gain_den(), k));
}

/// Requests issued one at a time get exactly as many replies, in order, and
/// the `j`-th reply is the gain applied to the `j`-th sample that the
/// oscillator yields when driven directly.
pub proof fn lemma_replies_in_order(g: &Generator, k: nat)
    requires
        g.wf(),
    ensures
        g.replies(k).len() == k,
        forall|j: int| 0 <= j < k ==> #[trigger] g.replies(k)[j]
            == scaled(g.oscillator().sample_after(j as nat) as int, g.gain_num() as int, g.gain_den() as int) as i32,
{
    let o = g.oscillator();
    lemma_replies_from(o.table(), o.phase(), o.increment(), o.rate(), g.gain_num(), g.gain_den(), k);
}

proof fn lemma_replies_from(table: Seq<i32>, phase: nat, increment: nat, rate: nat, num: nat, den: nat, k: nat)
    requires
        rate > 0,
    ensures
        ({
            let rs = replies(table, phase, increment, rate, num, den, k);
            &&& rs.len() == k
            &&& forall|j: int| 0 <= j < k ==> #[trigger] rs[j] == scaled(
                sample_at(table, crate::oscillator::phase_after(phase, increment, rate, j as nat), rate) as int,
                num as int,
                den as int,
            ) as i32
        }),
    decreases k,
{
    if k > 0 {
        let q = (phase + increment) % rate;
        lemma_replies_from(table, q, increment, rate, num, den, (k - 1) as nat);
        let rs = replies(table, phase, increment, rate, num, den, k);
        let rest = replies(table, q, increment, rate, num, den, (k - 1) as nat);
        assert forall|j: int| 0 <= j < k implies #[trigger] rs[j] == scaled(
            sample_at(table, crate::oscillator::phase_after(phase, increment, rate, j as nat), rate) as int,
            num as int,
            den as int,
        ) as i32 by {
            if j > 0 {
                assert(rs[j] == rest[j - 1]);
                crate::oscillator::lemma_phase_shift(phase, increment, rate, (j - 1) as nat);
            }
        }
    }
}

} // verus!
