//! Request and reply on top of a frame carrier.
//!
//! A [`Client`] sends a [`Request`], waits for the frame whose command word
//! is the request's plus one, and hands it back typed. Frames that arrive
//! while it waits are kept and can be drained with [`Client::take_pending`],
//! because a charger keeps talking once polling has started.
//!
//! Waiting and sending are the carrier's business; what this module decides
//! is what each arriving frame means, when a request is sent again, and what
//! each reply says about the request it answers.

use std::time::Duration;

use vstd::prelude::*;

use crate::frame::byte_sum;
use crate::link::LinkError;
use crate::request::{irreversible, Request, WRITE_APP_BLOCK};
use crate::response::{
    parse_result, response_word, Electrical, HardwareInfo, InnerResistance, LimitParameters,
    OneKeyLaunch, Response, Temperature, WorkState,
};
use crate::types::{BatteryKind, LinkType, TaskType};

verus! {

/// How long to wait for a reply before giving up, in milliseconds.
///
/// The app allows a second per exchange (`BleMng3.COMMUNICATION_TIMEOUT`).
pub const DEFAULT_TIMEOUT_MS: u64 = 1500;

/// How long the app leaves between polled packets (`BLE_DO_SLEEP_TIME`), in
/// milliseconds.
pub const POLL_INTERVAL_MS: u64 = 150;

/// How many extra times to resend a request that drew no reply.
///
/// A charger swallows the first control frame after a bind, and drops the odd
/// packet otherwise. The Android app resends a pending command on every tick
/// until it is acknowledged; this is the bounded version of that.
pub const RETRIES: usize = 3;

/// The rotation the app's CM1620 screen polls, in order.
pub open spec fn poll_cycle(channel: u8) -> Seq<Request> {
    seq![
        Request::Electrical { channel },
        Request::Temperature { channel },
        Request::WorkState { channel },
        Request::LimitParameters,
        Request::InnerResistance { channel: 0 },
        Request::InnerResistance { channel: 1 },
    ]
}

/// The rotation the app's CM1620 screen polls, in order.
///
/// One packet goes out per tick, so a full pass takes six ticks.
pub fn default_poll_cycle(channel: u8) -> (r: Vec<Request>)
    ensures
        r@ == poll_cycle(channel),
{
    let r = vec![
        Request::Electrical { channel },
        Request::Temperature { channel },
        Request::WorkState { channel },
        Request::LimitParameters,
        Request::InnerResistance { channel: 0 },
        Request::InnerResistance { channel: 1 },
    ];
    assert(r@ == poll_cycle(channel));
    r
}

/// Something that went wrong talking to a charger.
#[derive(Debug)]
pub enum ClientError {
    /// The link failed.
    Link(LinkError),
    /// No reply arrived before the deadline.
    Timeout {
        /// The command word that went unanswered.
        command: u8,
        /// How long the client waited.
        timeout: Duration,
    },
    /// A reply arrived but was not the shape the request expected. This means
    /// the firmware disagrees with the app the protocol was read from.
    Unexpected {
        /// The command word that was sent.
        command: u8,
        /// What came back.
        got: Box<Response>,
    },
    /// The charger refused a task.
    TaskRejected {
        /// The channel the task was for.
        channel: u8,
        /// The charger's code. The app has no table for these beyond zero
        /// meaning success.
        code: u8,
    },
    /// The charger refused a setting write.
    Rejected {
        /// Which write was refused.
        what: &'static str,
        /// The charger's status byte. Zero means success.
        state: u8,
    },
    /// The charger refused the client identifier.
    BindRefused,
    /// A firmware image did not divide into whole blocks.
    BadImageLength(usize),
}

/// The error for a reply of the wrong kind to command `command`.
pub open spec fn unexpected_spec(command: u8, got: Response) -> ClientError {
    ClientError::Unexpected { command, got: Box::new(got) }
}

fn unexpected(command: u8, got: Response) -> (r: ClientError)
    ensures
        r == unexpected_spec(command, got),
{
    ClientError::Unexpected { command, got: Box::new(got) }
}

/// How many times a request goes out before its caller hears of a timeout:
/// once for the requests that must not be repeated, otherwise once plus
/// [`RETRIES`].
pub open spec fn attempts_for(request: Request) -> nat {
    if irreversible(request) {
        1
    } else {
        (RETRIES + 1) as nat
    }
}

/// What filing one decoded frame that arrived while waiting for reply word
/// `want` does: the queued frames afterwards, and the reply if this was it.
pub open spec fn file_step(pending: Seq<Response>, want: Option<u8>, frame: Response) -> (
    Seq<Response>,
    Option<Response>,
) {
    if want is None || response_word(frame) == want->0 {
        (pending, Some(frame))
    } else {
        (pending.push(frame), None)
    }
}

/// Filing frames in the order they arrive, until the reply comes: `None`
/// stands for a frame that did not decode, which is skipped. The queued
/// frames afterwards, and the reply if one came.
pub open spec fn file_all(pending: Seq<Response>, want: Option<u8>, frames: Seq<Option<Response>>) -> (
    Seq<Response>,
    Option<Response>,
)
    decreases frames.len(),
{
    if frames.len() == 0 {
        (pending, None)
    } else {
        match frames[0] {
            None => file_all(pending, want, frames.skip(1)),
            Some(f) => {
                let (p, r) = file_step(pending, want, f);
                if r is Some {
                    (p, r)
                } else {
                    file_all(p, want, frames.skip(1))
                }
            },
        }
    }
}

/// The frames that decoded, in order.
pub open spec fn decoded(frames: Seq<Option<Response>>) -> Seq<Response>
    decreases frames.len(),
{
    if frames.len() == 0 {
        Seq::empty()
    } else {
        match frames[0] {
            Some(f) => seq![f] + decoded(frames.skip(1)),
            None => decoded(frames.skip(1)),
        }
    }
}

/// The connection state a client keeps between requests: how long to wait
/// for a reply, and the frames that arrived while it waited for another.
pub struct Client {
    timeout: Duration,
    pending: Vec<Response>,
}

impl Client {
    /// The frames received while waiting for replies, oldest first.
    pub closed spec fn pending(self) -> Seq<Response> {
        self.pending@
    }

    /// How long the client waits for a reply.
    pub closed spec fn wait(self) -> Duration {
        self.timeout
    }

    /// A client that waits `timeout` for each reply and holds no frames yet.
    pub fn new(timeout: Duration) -> (r: Client)
        ensures
            r.wait() == timeout,
            r.pending() == Seq::<Response>::empty(),
    {
        Client { timeout, pending: Vec::new() }
    }

    /// Sets how long to wait for a reply.
    pub fn set_timeout(&mut self, timeout: Duration)
        ensures
            final(self).wait() == timeout,
            final(self).pending() == old(self).pending(),
    {
        self.timeout = timeout;
    }

    /// How long the client waits for a reply.
    pub fn timeout(&self) -> (r: Duration)
        ensures
            r == self.wait(),
    {
        self.timeout
    }

    /// Takes every frame received while waiting for replies.
    pub fn take_pending(&mut self) -> (r: Vec<Response>)
        ensures
            r@ == old(self).pending(),
            final(self).pending() == Seq::<Response>::empty(),
            final(self).wait() == old(self).wait(),
    {
        let mut r: Vec<Response> = Vec::new();
        std::mem::swap(&mut r, &mut self.pending);
        r
    }

    /// The oldest frame received while waiting, if any, taken off the queue.
    pub fn next_pending(&mut self) -> (r: Option<Response>)
        ensures
            old(self).pending().len() == 0 ==> r is None && final(self).pending() == old(self).pending(),
            old(self).pending().len() > 0 ==> r == Some(old(self).pending()[0]) && final(self).pending() == old(self).pending().drop_first(),
            final(self).wait() == old(self).wait(),
    {
        if self.pending.len() == 0 {
            None
        } else {
            let first = self.pending.remove(0);
            assert(self.pending@ == old(self).pending().drop_first());
            Some(first)
        }
    }

    /// Files a decoded frame that arrived while waiting for reply word
    /// `want`. The reply comes back; anything else is queued. With no reply
    /// word, as for an identify, whatever arrives is the reply.
    pub fn file_frame(&mut self, want: Option<u8>, frame: Response) -> (r: Option<Response>)
        ensures
            (want is None || response_word(frame) == want->0) ==> r == Some(frame) && final(self).pending() == old(self).pending(),
            !(want is None || response_word(frame) == want->0) ==> r is None && final(self).pending() == old(self).pending().push(frame),
            (final(self).pending(), r) == file_step(old(self).pending(), want, frame),
            final(self).wait() == old(self).wait(),
    {
        let is_reply = match want {
            None => true,
            Some(word) => frame.command_word() == word,
        };
        if is_reply {
            Some(frame)
        } else {
            self.pending.push(frame);
            None
        }
    }

    /// Handles one frame `DATA` field that arrived while waiting for reply
    /// word `want`: a field that does not decode is ignored, and a decoded
    /// frame is filed as [`Client::file_frame`] does.
    pub fn on_frame(&mut self, want: Option<u8>, data: &[u8]) -> (r: Option<Response>)
        ensures
            data@.len() == 0 ==> r is None && final(self).pending() == old(self).pending(),
            data@.len() > 0 ==> exists|frame: Response|
                #![trigger parse_result(data@, Some(frame))]
                {
                    &&& parse_result(data@, Some(frame))
                    &&& (want is None || response_word(frame) == want->0) ==> r == Some(frame)
                        && final(self).pending() == old(self).pending()
                    &&& !(want is None || response_word(frame) == want->0) ==> r is None && final(self).pending() == old(self).pending().push(frame)
                    &&& (final(self).pending(), r) == file_step(old(self).pending(), want, frame)
                },
            final(self).wait() == old(self).wait(),
    {
        match Response::parse(data) {
            None => None,
            Some(frame) => {
                let ghost f = frame;
                let r = self.file_frame(want, frame);
                assert(parse_result(data@, Some(f)));
                r
            },
        }
    }

    /// How many times `request` goes out before a timeout is reported.
    pub fn attempts(request: &Request) -> (r: usize)
        ensures
            r == attempts_for(*request),
    {
        if request.is_retryable() {
            RETRIES + 1
        } else {
            1
        }
    }

    /// Whether a request is sent again after its `tries`-th attempt ended
    /// with `outcome`: only a timeout is retried, and only while attempts
    /// remain.
    pub fn resend(request: &Request, tries: usize, outcome: &Result<Response, ClientError>) -> (r:
        bool)
        ensures
            r == (outcome matches Err(ClientError::Timeout { .. }) && tries < attempts_for(
                *request,
            )),
    {
        let timed_out = match outcome {
            Err(ClientError::Timeout { .. }) => true,
            _ => false,
        };
        timed_out && tries < Self::attempts(request)
    }

    /// The error for a request with command word `command` that drew no reply.
    pub fn timed_out(&self, command: u8) -> (r: ClientError)
        ensures
            r == (ClientError::Timeout { command, timeout: self.wait() }),
    {
        ClientError::Timeout { command, timeout: self.timeout }
    }
}


// ---- what each reply says ----------------------------------------------------------------

/// What a reply to a bind says: the charger accepted the identifier, refused
/// it, or answered with something else.
pub fn bind_outcome(got: Response) -> (r: Result<(), ClientError>)
    ensures
        got matches Response::Bind { bound } ==> (bound ==> r is Ok) && (!bound ==> r
            == Err::<(), ClientError>(ClientError::BindRefused)),
        !(got is Bind) ==> r == Err::<(), ClientError>(unexpected_spec(0x18, got)),
{
    match got {
        Response::Bind { bound: true } => Ok(()),
        Response::Bind { bound: false } => Err(ClientError::BindRefused),
        got => Err(unexpected(0x18, got)),
    }
}

/// What a reply to a hardware query holds.
pub fn hardware_info_outcome(got: Response) -> (r: Result<HardwareInfo, ClientError>)
    ensures
        got matches Response::HardwareInfo(info) ==> r == Ok::<HardwareInfo, ClientError>(*info),
        !(got is HardwareInfo) ==> r == Err::<HardwareInfo, ClientError>(
            unexpected_spec(0xE0, got),
        ),
{
    match got {
        Response::HardwareInfo(info) => Ok(*info),
        got => Err(unexpected(0xE0, got)),
    }
}

/// What a reply to an electrical query holds.
pub fn electrical_outcome(got: Response) -> (r: Result<Electrical, ClientError>)
    ensures
        got matches Response::Electrical(e) ==> r == Ok::<Electrical, ClientError>(e),
        !(got is Electrical) ==> r == Err::<Electrical, ClientError>(unexpected_spec(0xE4, got)),
{
    match got {
        Response::Electrical(e) => Ok(e),
        got => Err(unexpected(0xE4, got)),
    }
}

/// What a reply to a work state query holds.
pub fn work_state_outcome(got: Response) -> (r: Result<WorkState, ClientError>)
    ensures
        got matches Response::WorkState(w) ==> r == Ok::<WorkState, ClientError>(*w),
        !(got is WorkState) ==> r == Err::<WorkState, ClientError>(unexpected_spec(0xE6, got)),
{
    match got {
        Response::WorkState(w) => Ok(*w),
        got => Err(unexpected(0xE6, got)),
    }
}

/// What a reply to a temperature query holds.
pub fn temperature_outcome(got: Response) -> (r: Result<Temperature, ClientError>)
    ensures
        got matches Response::Temperature(t) ==> r == Ok::<Temperature, ClientError>(t),
        !(got is Temperature) ==> r == Err::<Temperature, ClientError>(
            unexpected_spec(0xE8, got),
        ),
{
    match got {
        Response::Temperature(t) => Ok(t),
        got => Err(unexpected(0xE8, got)),
    }
}

/// What a reply to an internal resistance query holds.
pub fn inner_resistance_outcome(got: Response) -> (r: Result<InnerResistance, ClientError>)
    ensures
        got matches Response::InnerResistance(ir) ==> r == Ok::<InnerResistance, ClientError>(ir),
        !(got is InnerResistance) ==> r == Err::<InnerResistance, ClientError>(
            unexpected_spec(0xFA, got),
        ),
{
    match got {
        Response::InnerResistance(ir) => Ok(ir),
        got => Err(unexpected(0xFA, got)),
    }
}

/// What a reply to a limits query holds.
pub fn limits_outcome(got: Response) -> (r: Result<LimitParameters, ClientError>)
    ensures
        got matches Response::LimitParameters(l) ==> r == Ok::<LimitParameters, ClientError>(l),
        !(got is LimitParameters) ==> r == Err::<LimitParameters, ClientError>(
            unexpected_spec(0xE2, got),
        ),
{
    match got {
        Response::LimitParameters(l) => Ok(l),
        got => Err(unexpected(0xE2, got)),
    }
}

/// What a reply to a one-key launch query holds.
pub fn one_key_launch_outcome(got: Response) -> (r: Result<OneKeyLaunch, ClientError>)
    ensures
        got matches Response::OneKeyLaunch(o) ==> r == Ok::<OneKeyLaunch, ClientError>(o),
        !(got is OneKeyLaunch) ==> r == Err::<OneKeyLaunch, ClientError>(
            unexpected_spec(0xD4, got),
        ),
{
    match got {
        Response::OneKeyLaunch(o) => Ok(o),
        got => Err(unexpected(0xD4, got)),
    }
}

/// What a reply to a task set says: zero accepts the task, any other code
/// is the charger's refusal for the channel it names.
pub fn task_outcome(got: Response) -> (r: Result<(), ClientError>)
    ensures
        got matches Response::TaskAck { channel, error_code } ==> (error_code == 0 ==> r is Ok) && (
        error_code != 0 ==> r == Err::<(), ClientError>(
            ClientError::TaskRejected { channel, code: error_code },
        )),
        !(got is TaskAck) ==> r == Err::<(), ClientError>(unexpected_spec(0xEA, got)),
{
    match got {
        Response::TaskAck { error_code: 0, .. } => Ok(()),
        Response::TaskAck { channel, error_code } => Err(
            ClientError::TaskRejected { channel, code: error_code },
        ),
        got => Err(unexpected(0xEA, got)),
    }
}

/// What a reply to a rename says.
pub fn name_outcome(got: Response) -> (r: Result<(), ClientError>)
    ensures
        got matches Response::NameAck { state } ==> (state == 0 ==> r is Ok) && (state != 0 ==> r
            == Err::<(), ClientError>(ClientError::Rejected { what: "the new name", state })),
        !(got is NameAck) ==> r == Err::<(), ClientError>(unexpected_spec(0xC0, got)),
{
    match got {
        Response::NameAck { state: 0 } => Ok(()),
        Response::NameAck { state } => Err(ClientError::Rejected { what: "the new name", state }),
        got => Err(unexpected(0xC0, got)),
    }
}

/// What a reply to a limits write says.
pub fn set_limits_outcome(got: Response) -> (r: Result<(), ClientError>)
    ensures
        got matches Response::LimitParametersAck { state } ==> (state == 0 ==> r is Ok) && (state
            != 0 ==> r == Err::<(), ClientError>(
            ClientError::Rejected { what: "the power limits", state },
        )),
        !(got is LimitParametersAck) ==> r == Err::<(), ClientError>(unexpected_spec(0xD0, got)),
{
    match got {
        Response::LimitParametersAck { state: 0 } => Ok(()),
        Response::LimitParametersAck { state } => Err(
            ClientError::Rejected { what: "the power limits", state },
        ),
        got => Err(unexpected(0xD0, got)),
    }
}

/// What a reply to a one-key launch write says.
pub fn set_one_key_launch_outcome(got: Response) -> (r: Result<(), ClientError>)
    ensures
        got matches Response::OneKeyLaunchAck { state } ==> (state == 0 ==> r is Ok) && (state != 0
            ==> r == Err::<(), ClientError>(
            ClientError::Rejected { what: "the one-key launch profile", state },
        )),
        !(got is OneKeyLaunchAck) ==> r == Err::<(), ClientError>(unexpected_spec(0xD2, got)),
{
    match got {
        Response::OneKeyLaunchAck { state: 0 } => Ok(()),
        Response::OneKeyLaunchAck { state } => Err(
            ClientError::Rejected { what: "the one-key launch profile", state },
        ),
        got => Err(unexpected(0xD2, got)),
    }
}

/// What a reboot's exchange comes to: the charger restarts at once, so a
/// missing reply is success too.
pub fn reboot_outcome(outcome: Result<Response, ClientError>) -> (r: Result<(), ClientError>)
    ensures
        outcome is Ok ==> r is Ok,
        outcome matches Err(ClientError::Timeout { .. }) ==> r is Ok,
        (outcome matches Err(e) && !(e is Timeout)) ==> r == Err::<(), ClientError>(
            outcome->Err_0,
        ),
{
    match outcome {
        Ok(_) => Ok(()),
        Err(ClientError::Timeout { .. }) => Ok(()),
        Err(e) => Err(e),
    }
}

/// The request that stops the task on a channel. The remaining task fields
/// are ignored by the charger for a stop, so this sends the same
/// placeholders the app does.
pub fn stop_request(channel: u8) -> (r: Request)
    ensures
        r == (Request::SetTask {
            channel,
            task: TaskType::Stop,
            battery: BatteryKind::LiHv,
            link: LinkType::SerialOnly,
            work_current_ma: 0,
            cell_count: 0,
            full_charged_volt_mv: 0,
        }),
{
    Request::SetTask {
        channel,
        task: TaskType::Stop,
        battery: BatteryKind::LiHv,
        link: LinkType::SerialOnly,
        work_current_ma: 0,
        cell_count: 0,
        full_charged_volt_mv: 0,
    }
}

/// One pass of everything the app's charger screen shows.
#[derive(Debug, Clone, PartialEq)]
pub struct Telemetry {
    /// Live voltages and currents.
    pub electrical: Electrical,
    /// Charger and probe temperatures.
    pub temperature: Temperature,
    /// Task state and progress.
    pub work_state: WorkState,
    /// Power and current ceilings.
    pub limits: LimitParameters,
    /// Per-cell internal resistance.
    pub resistance: InnerResistance,
}


// ---- writing firmware --------------------------------------------------------------------

/// The wrapping 32 bit sum of an image's bytes, as the bootloader checks it.
pub open spec fn image_checksum(image: Seq<u8>) -> u32 {
    (byte_sum(image) % 0x1_0000_0000) as u32
}

/// Whether an image of `len` bytes is a whole, non-zero number of blocks.
pub open spec fn whole_blocks(len: nat) -> bool {
    len > 0 && len % (WRITE_APP_BLOCK as nat) == 0
}

/// The `i`-th block of an image.
pub open spec fn image_block(image: Seq<u8>, i: int) -> Seq<u8> {
    image.subrange(128 * i, 128 * i + 128)
}

/// The requests that write `image` at `start`, in order: enter the
/// bootloader, erase the region, write each block at its own address, and
/// have the bootloader check the sum.
pub open spec fn flash_plan(start: u32, image: Seq<u8>, r: Seq<Request>) -> bool {
    let total = (image.len() / 128) as int;
    let size = image.len() as u32;
    &&& r.len() == total + 3
    &&& r[0] == Request::EnterBootloader
    &&& r[1] == (Request::EraseApp { start_address: start, size })
    &&& forall|i: int|
        0 <= i < total ==> (#[trigger] r[i + 2] matches Request::WriteApp { start_address, data }
            && start_address == start + 128 * i && data@ == image_block(image, i))
    &&& r[total + 2] == (Request::ChecksumApp {
        start_address: start,
        size,
        checksum: image_checksum(image),
    })
}

/// Checks an image's length before any traffic: it must be a whole, non-zero
/// number of [`WRITE_APP_BLOCK`] byte blocks.
pub fn check_image(len: usize) -> (r: Result<(), ClientError>)
    ensures
        whole_blocks(len as nat) ==> r is Ok,
        !whole_blocks(len as nat) ==> r == Err::<(), ClientError>(ClientError::BadImageLength(len)),
{
    if len == 0 || len % WRITE_APP_BLOCK != 0 {
        Err(ClientError::BadImageLength(len))
    } else {
        Ok(())
    }
}

/// The wrapping 32 bit sum of an image's bytes.
pub fn checksum_of(image: &[u8]) -> (r: u32)
    ensures
        r == image_checksum(image@),
{
    let mut acc: u32 = 0;
    let mut i: usize = 0;
    while i < image.len()
        invariant
            i <= image@.len(),
            acc == byte_sum(image@.take(i as int)) % 0x1_0000_0000,
        decreases image.len() - i,
    {
        let b = image[i];
        proof {
            let t = image@.take(i + 1);
            assert(t.drop_last() == image@.take(i as int));
            let s = byte_sum(image@.take(i as int));
            vstd::arithmetic::div_mod::lemma_add_mod_noop(s as int, b as int, 0x1_0000_0000);
            vstd::arithmetic::div_mod::lemma_small_mod(b as nat, 0x1_0000_0000);
            if acc + b < 0x1_0000_0000 {
                vstd::arithmetic::div_mod::lemma_small_mod((acc + b) as nat, 0x1_0000_0000);
            } else {
                assert(((acc + b) as int) % 0x1_0000_0000 == acc + b - 0x1_0000_0000);
            }
        }
        acc = acc.wrapping_add(b as u32);
        i = i + 1;
    }
    assert(image@.take(image@.len() as int) == image@);
    acc
}

/// The requests that write a firmware image at `start_address`: enter the
/// bootloader, erase, write each block, verify.
///
/// The image must be a whole number of [`WRITE_APP_BLOCK`] byte blocks; the
/// length is checked before anything is built. This rewrites the charger's
/// firmware and a failure part way through can leave it unbootable.
pub fn firmware_requests(start_address: u32, image: &[u8]) -> (r: Result<Vec<Request>, ClientError>)
    requires
        whole_blocks(image@.len()) ==> start_address + image@.len() - 128 <= u32::MAX,
    ensures
        !whole_blocks(image@.len()) ==> r == Err::<Vec<Request>, ClientError>(
            ClientError::BadImageLength(image@.len() as usize),
        ),
        whole_blocks(image@.len()) ==> (r matches Ok(v) && flash_plan(start_address, image@, v@)),
{
    match check_image(image.len()) {
        Err(e) => {
            return Err(e);
        },
        Ok(()) => {},
    }
    #[verifier::truncate]
    let size = image.len() as u32;
    let total = image.len() / WRITE_APP_BLOCK;
    let mut out: Vec<Request> = Vec::new();
    out.push(Request::EnterBootloader);
    out.push(Request::EraseApp { start_address, size });
    let mut index: usize = 0;
    while index < total
        invariant
            total == image@.len() / 128,
            image@.len() % 128 == 0,
            image@.len() > 0,
            start_address + image@.len() - 128 <= u32::MAX,
            index <= total,
            out@.len() == index + 2,
            out@[0] == Request::EnterBootloader,
            out@[1] == (Request::EraseApp { start_address, size }),
            forall|i: int|
                0 <= i < index ==> (#[trigger] out@[i + 2] matches Request::WriteApp {
                    start_address: a,
                    data,
                } && a == start_address + 128 * i && data@ == image_block(image@, i)),
        decreases total - index,
    {
        let base = index * WRITE_APP_BLOCK;
        assert(base + 128 <= image@.len()) by (nonlinear_arith)
            requires
                index < total,
                total == image@.len() / 128,
                image@.len() % 128 == 0,
                base == index * 128,
        ;
        let mut block = [0u8; 128];
        let mut j: usize = 0;
        while j < WRITE_APP_BLOCK
            invariant
                base + 128 <= image.len(),
                j <= 128,
                forall|m: int| 0 <= m < j ==> block@[m] == image@[base + m],
            decreases 128 - j,
        {
            block[j] = image[base + j];
            j = j + 1;
        }
        assert(block@ == image_block(image@, index as int));
        let offset = base as u32;
        out.push(Request::WriteApp { start_address: start_address + offset, data: Box::new(block) });
        index = index + 1;
    }
    let checksum = checksum_of(image);
    out.push(Request::ChecksumApp { start_address, size, checksum });
    assert(out@[total + 2] == (Request::ChecksumApp {
        start_address,
        size,
        checksum: image_checksum(image@),
    }));
    Ok(out)
}

/// The bytes the first `n` block writes of a plan carry, in order.
pub open spec fn written(r: Seq<Request>, n: nat) -> Seq<u8>
    decreases n,
{
    if n == 0 {
        Seq::empty()
    } else {
        written(r, (n - 1) as nat) + match r[n + 1int] {
            Request::WriteApp { data, .. } => data@,
            _ => Seq::empty(),
        }
    }
}

/// A firmware write's block writes, taken in order, carry the whole image,
/// each block to the address just past the one before.
pub proof fn law_flash_writes_the_whole_image(start: u32, image: Seq<u8>, r: Seq<Request>)
    requires
        whole_blocks(image.len()),
        flash_plan(start, image, r),
    ensures
        written(r, image.len() / 128) == image,
{
    let total = image.len() / 128;
    assert forall|n: nat| n <= total implies #[trigger] written(r, n) == image.take(128 * (n as int)) by {
        lemma_written_prefix(start, image, r, n);
    }
    assert(128 * total == image.len()) by (nonlinear_arith)
        requires
            total == image.len() / 128,
            image.len() % 128 == 0,
    ;
    assert(image.take(image.len() as int) == image);
}

proof fn lemma_written_prefix(start: u32, image: Seq<u8>, r: Seq<Request>, n: nat)
    requires
        whole_blocks(image.len()),
        flash_plan(start, image, r),
        n <= image.len() / 128,
    ensures
        written(r, n) == image.take(128 * (n as int)),
    decreases n,
{
    if n == 0 {
        assert(image.take(0) == Seq::<u8>::empty());
    } else {
        let m = (n - 1) as nat;
        lemma_written_prefix(start, image, r, m);
        assert(128 * n <= image.len()) by (nonlinear_arith)
            requires
                n <= image.len() / 128,
        ;
        let i = m as int;
        assert(r[i + 2] matches Request::WriteApp { start_address, data } && data@ == image_block(
            image,
            i,
        ));
        assert(image.take(128 * (n as int)) == image.take(128 * (m as int)) + image_block(image, i));
    }
}

/// Whether a request is one of the steps of a firmware write.
pub open spec fn flash_step(step: Request) -> bool {
    ||| step is EnterBootloader
    ||| step is EraseApp
    ||| step is WriteApp
    ||| step is ChecksumApp
}

/// What the reply to one step of a firmware write says: zero is success,
/// any other status is the bootloader's refusal, and a reply of another kind
/// is unexpected.
pub fn flash_outcome(step: &Request, got: Response) -> (r: Result<(), ClientError>)
    requires
        flash_step(*step),
    ensures
        step is EnterBootloader ==> {
            &&& got matches Response::BootloaderAck { state } ==> (state == 0 ==> r is Ok) && (state
                != 0 ==> r == Err::<(), ClientError>(
                ClientError::Rejected { what: "entering the bootloader", state },
            ))
            &&& !(got is BootloaderAck) ==> r == Err::<(), ClientError>(
                unexpected_spec(0xF0, got),
            )
        },
        step is EraseApp ==> {
            &&& got matches Response::EraseAck { result, .. } ==> (result == 0 ==> r is Ok) && (
            result != 0 ==> r == Err::<(), ClientError>(
                ClientError::Rejected { what: "erasing the firmware region", state: result },
            ))
            &&& !(got is EraseAck) ==> r == Err::<(), ClientError>(unexpected_spec(0xF2, got))
        },
        step is WriteApp ==> {
            &&& got matches Response::WriteAck { state, .. } ==> (state == 0 ==> r is Ok) && (state
                != 0 ==> r == Err::<(), ClientError>(
                ClientError::Rejected { what: "writing a firmware block", state },
            ))
            &&& !(got is WriteAck) ==> r == Err::<(), ClientError>(unexpected_spec(0xF4, got))
        },
        step is ChecksumApp ==> {
            &&& got matches Response::ChecksumAck { state, .. } ==> (state == 0 ==> r is Ok) && (
            state != 0 ==> r == Err::<(), ClientError>(
                ClientError::Rejected { what: "the firmware checksum", state },
            ))
            &&& !(got is ChecksumAck) ==> r == Err::<(), ClientError>(unexpected_spec(0xF6, got))
        },
{
    match step {
        Request::EnterBootloader => match got {
            Response::BootloaderAck { state: 0 } => Ok(()),
            Response::BootloaderAck { state } => Err(
                ClientError::Rejected { what: "entering the bootloader", state },
            ),
            got => Err(unexpected(0xF0, got)),
        },
        Request::EraseApp { .. } => match got {
            Response::EraseAck { result: 0, .. } => Ok(()),
            Response::EraseAck { result, .. } => Err(
                ClientError::Rejected { what: "erasing the firmware region", state: result },
            ),
            got => Err(unexpected(0xF2, got)),
        },
        Request::WriteApp { .. } => match got {
            Response::WriteAck { state: 0, .. } => Ok(()),
            Response::WriteAck { state, .. } => Err(
                ClientError::Rejected { what: "writing a firmware block", state },
            ),
            got => Err(unexpected(0xF4, got)),
        },
        _ => match got {
            Response::ChecksumAck { state: 0, .. } => Ok(()),
            Response::ChecksumAck { state, .. } => Err(
                ClientError::Rejected { what: "the firmware checksum", state },
            ),
            got => Err(unexpected(0xF6, got)),
        },
    }
}

/// While a client waits for reply word `w`, the frames that are not the
/// reply are queued after those already waiting, in the order they arrived;
/// frames that did not decode are skipped; the reply ends the wait and is
/// handed back. [`Client::take_pending`] then hands the queue over and
/// empties it.
pub proof fn law_waiting_queues_in_arrival_order(
    pending: Seq<Response>,
    w: u8,
    before: Seq<Option<Response>>,
    reply: Response,
)
    requires
        forall|i: int|
            0 <= i < before.len() ==> (#[trigger] before[i] matches Some(f) ==> response_word(f)
                != w),
        response_word(reply) == w,
    ensures
        file_all(pending, Some(w), before.push(Some(reply))) == (
            pending + decoded(before),
            Some(reply),
        ),
    decreases before.len(),
{
    let all = before.push(Some(reply));
    if before.len() == 0 {
        assert(all.skip(1) == Seq::<Option<Response>>::empty());
        assert(all[0] == Some(reply));
        assert(pending + Seq::<Response>::empty() == pending);
    } else {
        let rest = before.skip(1);
        assert(all.skip(1) == rest.push(Some(reply)));
        assert(all[0] == before[0]);
        assert forall|i: int| 0 <= i < rest.len() implies (#[trigger] rest[i] matches Some(f)
            ==> response_word(f) != w) by {
            assert(rest[i] == before[i + 1]);
        }
        match before[0] {
            None => {
                law_waiting_queues_in_arrival_order(pending, w, rest, reply);
            },
            Some(f) => {
                law_waiting_queues_in_arrival_order(pending.push(f), w, rest, reply);
                assert(pending.push(f) + decoded(rest) == pending + (seq![f] + decoded(rest)));
            },
        }
    }
}

} // verus!
