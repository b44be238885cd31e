//! The wire port: a full-duplex byte channel to the device. A port is
//! modeled by the bytes the host has written so far (`sent`) and the bytes
//! the device will deliver (`avail`); every protocol layer is verified
//! against that model. A scripted port replays a fixed transcript and is
//! the model's witness; a backend over real hardware implements the same
//! trait outside the library.
use vstd::prelude::*;

use crate::error::Error;

verus! {

broadcast use crate::bytes::lemma_prefix_reflexive, crate::bytes::lemma_prefix_chain;

/// Stage the connected port speaks for.
#[derive(Debug, Clone, Copy, PartialEq, Eq, Structural)]
pub enum ConnectionType {
    /// The boot ROM.
    Brom,
    /// The OEM preloader.
    Preloader,
    /// A running Download Agent.
    Da,
}

/// The USB vendor identifier of the known ports.
pub const MTK_VID: u16 = 0x0E8D;

/// The connection kind a known USB identifier pair maps to: the boot ROM
/// product, the preloader product, or the two agent products.
pub open spec fn spec_known_port_kind(vid: u16, pid: u16) -> Option<ConnectionType> {
    if vid == 0x0E8D {
        if pid == 0x0003 {
            Some(ConnectionType::Brom)
        } else if pid == 0x2000 {
            Some(ConnectionType::Preloader)
        } else if pid == 0x2001 || pid == 0x2002 {
            Some(ConnectionType::Da)
        } else {
            None
        }
    } else {
        None
    }
}

/// Looks a USB identifier pair up in the table of known ports.
pub fn known_port_kind(vid: u16, pid: u16) -> (r: Option<ConnectionType>)
    ensures
        r == spec_known_port_kind(vid, pid),
{
    if vid != MTK_VID {
        return None;
    }
    match pid {
        0x0003 => Some(ConnectionType::Brom),
        0x2000 => Some(ConnectionType::Preloader),
        0x2001 => Some(ConnectionType::Da),
        0x2002 => Some(ConnectionType::Da),
        _ => None,
    }
}

/// The negotiated baud rate of a connection kind: 115200 towards the boot
/// ROM, 921600 towards preloader and agent.
pub open spec fn spec_default_baud(kind: ConnectionType) -> u32 {
    if kind is Brom {
        115200
    } else {
        921600
    }
}

/// The baud rate used for a connection kind.
pub fn default_baud(kind: ConnectionType) -> (r: u32)
    ensures
        r == spec_default_baud(kind),
{
    match kind {
        ConnectionType::Brom => 115200,
        _ => 921600,
    }
}

/// The seven-byte CDC line-coding payload: the baud rate little-endian,
/// one stop bit, no parity, eight data bits.
pub fn build_line_coding(baudrate: u32) -> (r: Vec<u8>)
    ensures
        r@ == crate::bytes::le32_bytes(baudrate) + seq![0u8, 0u8, 8u8],
{
    let mut out: Vec<u8> = Vec::new();
    crate::bytes::push_le32(&mut out, baudrate);
    out.push(0x00);
    out.push(0x00);
    out.push(0x08);
    assert(out@ =~= crate::bytes::le32_bytes(baudrate) + seq![0u8, 0u8, 8u8]);
    out
}

/// A byte channel to the device. `sent` and `avail` model the transcript:
/// what the host wrote, and what the device has yet to deliver. Every
/// method keeps the connection kind and baud rate; reads consume the front
/// of `avail` and writes append to `sent`. Nothing is promised of a failed
/// call's effect on `avail`.
pub trait MtkPort: Sized {
    /// The bytes written to the device so far. A backend outside the
    /// library leaves the default model; the scripted port refines it.
    open spec fn sent(&self) -> Seq<u8> {
        Seq::empty()
    }

    /// The bytes the device will deliver next.
    open spec fn avail(&self) -> Seq<u8> {
        Seq::empty()
    }

    /// The stage this port is connected to.
    open spec fn kind(&self) -> ConnectionType {
        ConnectionType::Brom
    }

    /// The negotiated baud rate.
    open spec fn baud(&self) -> u32 {
        0
    }

    /// Writes all of `data` to the device. Even a failed write only ever
    /// appends: what was sent before the call opens what is sent after it.
    /// A transport can only fail as a transport: with a stall or a timeout.
    fn write_all(&mut self, data: &[u8]) -> (r: Result<(), Error>)
        ensures
            final(self).kind() == old(self).kind(),
            final(self).baud() == old(self).baud(),
            old(self).sent().is_prefix_of(final(self).sent()),
            r is Ok ==> final(self).sent() == old(self).sent() + data@ && final(self).avail()
                == old(self).avail(),
            r is Err ==> r->Err_0 is Io || r->Err_0 is Timeout,
    ;

    /// Reads exactly `n` bytes, blocking up to the port's timeout.
    fn read_exact(&mut self, n: usize) -> (r: Result<Vec<u8>, Error>)
        ensures
            final(self).kind() == old(self).kind(),
            final(self).baud() == old(self).baud(),
            final(self).sent() == old(self).sent(),
            r is Ok ==> n <= old(self).avail().len() && r->Ok_0@ == old(self).avail().take(
                n as int,
            ) && final(self).avail() == old(self).avail().skip(n as int),
            r is Err ==> r->Err_0 is Io || r->Err_0 is Timeout,
    ;

    /// Reads exactly `n` bytes, giving up after `timeout_ms` milliseconds.
    /// A failed timed read delivers nothing: the pending stream stands as
    /// it was, so a later read sees the same bytes.
    fn read_exact_timeout(&mut self, n: usize, timeout_ms: u64) -> (r: Result<Vec<u8>, Error>)
        ensures
            final(self).kind() == old(self).kind(),
            final(self).baud() == old(self).baud(),
            final(self).sent() == old(self).sent(),
            r is Ok ==> n <= old(self).avail().len() && r->Ok_0@ == old(self).avail().take(
                n as int,
            ) && final(self).avail() == old(self).avail().skip(n as int),
            r is Err ==> r->Err_0 is Io || r->Err_0 is Timeout,
            r is Err ==> final(self).avail() == old(self).avail(),
    ;

    /// Pushes buffered output to the device.
    fn flush(&mut self) -> (r: Result<(), Error>)
        ensures
            final(self).kind() == old(self).kind(),
            final(self).baud() == old(self).baud(),
            final(self).sent() == old(self).sent(),
            final(self).avail() == old(self).avail(),
    ;

    /// Issues a USB control transfer towards the device; a no-op over a
    /// serial line. The bulk transcript is untouched.
    fn ctrl_out(&mut self, request_type: u8, request: u8, value: u16, index: u16, data: &[u8]) -> (r:
        Result<(), Error>)
        ensures
            final(self).kind() == old(self).kind(),
            final(self).baud() == old(self).baud(),
            final(self).sent() == old(self).sent(),
            final(self).avail() == old(self).avail(),
    ;

    /// Issues a USB control transfer from the device; a no-op over a serial
    /// line. The bulk transcript is untouched.
    fn ctrl_in(&mut self, request_type: u8, request: u8, value: u16, index: u16, len: usize) -> (r:
        Result<Vec<u8>, Error>)
        ensures
            final(self).kind() == old(self).kind(),
            final(self).baud() == old(self).baud(),
            final(self).sent() == old(self).sent(),
            final(self).avail() == old(self).avail(),
            r is Ok ==> r->Ok_0@.len() <= len,
    ;

    /// The stage this port is connected to.
    fn get_connection_type(&self) -> (r: ConnectionType)
        ensures
            r == self.kind(),
    ;

    /// The negotiated baud rate.
    fn get_baudrate(&self) -> (r: u32)
        ensures
            r == self.baud(),
    ;
}

/// A port that replays a fixed device transcript: reads consume `input`
/// from `pos`, writes land in `output`. It stands in for a device in tests
/// and is the witness that the port model is implementable.
pub struct ReplayPort {
    /// The bytes the scripted device delivers, in order.
    pub input: Vec<u8>,
    /// How many of them are already consumed.
    pub pos: usize,
    /// Everything the host wrote.
    pub output: Vec<u8>,
    /// The stage the scripted device speaks for.
    pub connection_type: ConnectionType,
    /// The pretended baud rate.
    pub baudrate: u32,
}

impl ReplayPort {
    /// A scripted port that will deliver `input` and starts with nothing
    /// written.
    pub fn new(input: Vec<u8>, connection_type: ConnectionType, baudrate: u32) -> (r: ReplayPort)
        ensures
            r.avail() == input@,
            r.sent() == Seq::<u8>::empty(),
            r.kind() == connection_type,
            r.baud() == baudrate,
    {
        let r = ReplayPort { input, pos: 0, output: Vec::new(), connection_type, baudrate };
        assert(r.avail() =~= r.input@);
        r
    }

    /// The bytes the host has written so far.
    pub fn written(&self) -> (r: &Vec<u8>)
        ensures
            r@ == self.sent(),
    {
        &self.output
    }

    /// Delivers the next `n` scripted bytes; a script too short to serve
    /// them is a timeout that delivers nothing.
    fn take_bytes(&mut self, n: usize) -> (r: Result<Vec<u8>, Error>)
        ensures
            final(self).kind() == old(self).kind(),
            final(self).baud() == old(self).baud(),
            final(self).sent() == old(self).sent(),
            r is Ok ==> n <= old(self).avail().len() && r->Ok_0@ == old(self).avail().take(
                n as int,
            ) && final(self).avail() == old(self).avail().skip(n as int),
            r is Err ==> r->Err_0 is Timeout && final(self).avail() == old(self).avail(),
    {
        if self.pos > self.input.len() || n > self.input.len() - self.pos {
            return Err(Error::Timeout);
        }
        let out = crate::dafile::copy_range(self.input.as_slice(), self.pos, self.pos + n);
        proof {
            assert(out@ =~= old(self).avail().take(n as int));
        }
        self.pos = self.pos + n;
        proof {
            assert(self.avail() =~= old(self).avail().skip(n as int));
        }
        Ok(out)
    }

    /// How many scripted bytes are still undelivered.
    pub fn remaining(&self) -> (r: usize)
        ensures
            r == self.avail().len(),
    {
        if self.pos <= self.input.len() {
            self.input.len() - self.pos
        } else {
            0
        }
    }
}

impl MtkPort for ReplayPort {
    open spec fn sent(&self) -> Seq<u8> {
        self.output@
    }

    open spec fn avail(&self) -> Seq<u8> {
        if self.pos <= self.input@.len() {
            self.input@.skip(self.pos as int)
        } else {
            Seq::empty()
        }
    }

    open spec fn kind(&self) -> ConnectionType {
        self.connection_type
    }

    open spec fn baud(&self) -> u32 {
        self.baudrate
    }

    fn write_all(&mut self, data: &[u8]) -> (r: Result<(), Error>)
    {
        let mut i: usize = 0;
        while i < data.len()
            invariant
                i <= data@.len(),
                self.output@ == old(self).output@ + data@.take(i as int),
                self.input == old(self).input,
                self.pos == old(self).pos,
                self.connection_type == old(self).connection_type,
                self.baudrate == old(self).baudrate,
            decreases data@.len() - i,
        {
            self.output.push(data[i]);
            assert(self.output@ =~= old(self).output@ + data@.take(i + 1));
            i = i + 1;
        }
        assert(self.output@ =~= old(self).output@ + data@);
        proof {
            crate::bytes::lemma_prefix_append(old(self).output@, data@);
        }
        Ok(())
    }

    fn read_exact(&mut self, n: usize) -> (r: Result<Vec<u8>, Error>)
    {
        self.take_bytes(n)
    }

    fn read_exact_timeout(&mut self, n: usize, timeout_ms: u64) -> (r: Result<Vec<u8>, Error>)
    {
        self.take_bytes(n)
    }

    fn flush(&mut self) -> (r: Result<(), Error>) {
        Ok(())
    }

    fn ctrl_out(&mut self, request_type: u8, request: u8, value: u16, index: u16, data: &[u8]) -> (r:
        Result<(), Error>)
    {
        Ok(())
    }

    fn ctrl_in(&mut self, request_type: u8, request: u8, value: u16, index: u16, len: usize) -> (r:
        Result<Vec<u8>, Error>)
    {
        Ok(Vec::new())
    }

    fn get_connection_type(&self) -> (r: ConnectionType) {
        self.connection_type
    }

    fn get_baudrate(&self) -> (r: u32) {
        self.baudrate
    }
}

/// A byte of the four-byte greeting the host sends to the boot ROM.
pub open spec fn spec_greeting_byte(b: u8) -> bool {
    b == 0xA0 || b == 0x0A || b == 0x50 || b == 0x05
}

/// Byte `i` of the four-byte greeting the host sends to the boot ROM.
pub open spec fn spec_handshake_tx(i: int) -> u8 {
    seq![0xA0u8, 0x0Au8, 0x50u8, 0x05u8][i]
}

/// Byte `i` of the reply the boot ROM owes: the ones-complement of the
/// greeting.
pub open spec fn spec_handshake_rx(i: int) -> u8 {
    seq![0x5Fu8, 0xF5u8, 0xAFu8, 0xFAu8][i]
}

/// Whether the handshake machine completes on the pending reply stream
/// `av`, starting at `step`: an echoed greeting byte at the first step
/// completes at once; the expected complement advances, the fourth
/// completing; any other byte restarts the sequence.
pub open spec fn spec_handshake_done(av: Seq<u8>, step: int) -> bool
    recommends
        0 <= step < 4,
    decreases av.len(),
{
    if av.len() == 0 {
        false
    } else if step == 0 && av[0] == 0xA0 {
        true
    } else if av[0] == spec_handshake_rx(step) {
        step == 3 || spec_handshake_done(av.skip(1), step + 1)
    } else {
        spec_handshake_done(av.skip(1), 0)
    }
}

/// How many reply bytes the machine consumes before completing on `av`
/// from `step`; the whole stream when it never completes.
pub open spec fn spec_handshake_consumed(av: Seq<u8>, step: int) -> int
    recommends
        0 <= step < 4,
    decreases av.len(),
{
    if av.len() == 0 {
        0
    } else if step == 0 && av[0] == 0xA0 {
        1
    } else if av[0] == spec_handshake_rx(step) {
        if step == 3 {
            1
        } else {
            1 + spec_handshake_consumed(av.skip(1), step + 1)
        }
    } else {
        1 + spec_handshake_consumed(av.skip(1), 0)
    }
}

/// The handshake machine never consumes more than the stream holds.
pub proof fn lemma_handshake_consumed_bounds(av: Seq<u8>, step: int)
    ensures
        0 <= spec_handshake_consumed(av, step) <= av.len(),
    decreases av.len(),
{
    if av.len() == 0 {
    } else if step == 0 && av[0] == 0xA0 {
    } else if av[0] == spec_handshake_rx(step) {
        if step != 3 {
            lemma_handshake_consumed_bounds(av.skip(1), step + 1);
        }
    } else {
        lemma_handshake_consumed_bounds(av.skip(1), 0);
    }
}

/// Where the handshake stands after one reply byte.
#[derive(Debug, Clone, Copy, PartialEq, Eq, Structural)]
pub enum HandshakeProgress {
    /// The exchange is complete.
    Done,
    /// The exchange continues at this step.
    Step(u8),
}

/// Advances the handshake by one observed reply byte: an echoed greeting
/// byte at the first step means the device is already past the handshake;
/// the expected complement advances one step, the fourth completing the
/// exchange; any other byte restarts from the beginning.
pub fn handshake_step(step: u8, byte: u8) -> (r: HandshakeProgress)
    requires
        step < 4,
    ensures
        step == 0 && byte == 0xA0 ==> r is Done,
        !(step == 0 && byte == 0xA0) && byte == spec_handshake_rx(step as int) ==> (if step == 3 {
            r is Done
        } else {
            r == HandshakeProgress::Step((step + 1) as u8)
        }),
        byte != spec_handshake_rx(step as int) && !(step == 0 && byte == 0xA0) ==> r
            == HandshakeProgress::Step(0),
{
    if step == 0 && byte == 0xA0 {
        return HandshakeProgress::Done;
    }
    let expected: u8 = if step == 0 {
        0x5F
    } else if step == 1 {
        0xF5
    } else if step == 2 {
        0xAF
    } else {
        0xFA
    };
    if byte == expected {
        if step == 3 {
            HandshakeProgress::Done
        } else {
            HandshakeProgress::Step(step + 1)
        }
    } else {
        HandshakeProgress::Step(0)
    }
}

/// Number of times the handshake restarts or retries before giving up.
pub const HANDSHAKE_MAX_RETRIES: u32 = 100;

/// Drives the boot-ROM handshake over a port: sends the greeting one byte
/// at a time, checks each reply through `handshake_step`, restarts on a
/// mismatch, and gives up after the retry budget. A port already in agent
/// stage needs no handshake; towards a preloader an extra greeting byte is
/// sent first as a wake-up.
#[verifier::loop_isolation(false)]
pub fn brom_handshake<P: MtkPort>(port: &mut P) -> (r: Result<(), Error>)
    ensures
        final(port).kind() == old(port).kind(),
        final(port).baud() == old(port).baud(),
        old(port).sent().is_prefix_of(final(port).sent()),
        old(port).kind() is Da ==> r is Ok && final(port).sent() == old(port).sent()
            && final(port).avail() == old(port).avail(),
        r is Ok && !(old(port).kind() is Da) ==> final(port).sent().len() > old(
            port,
        ).sent().len(),
        r is Ok ==> forall|i: int|
            old(port).sent().len() <= i < final(port).sent().len() ==> spec_greeting_byte(
                #[trigger] final(port).sent()[i],
            ),
        r is Ok && !(old(port).kind() is Da) ==> spec_handshake_done(old(port).avail(), 0)
            && final(port).avail() == old(port).avail().skip(
            spec_handshake_consumed(old(port).avail(), 0),
        ),
{
    match port.get_connection_type() {
        ConnectionType::Da => {
            return Ok(());
        },
        ConnectionType::Preloader => {
            let wake: Vec<u8> = vec![0xA0u8];
            if let Err(e) = port.write_all(wake.as_slice()) {
                return Err(e);
            }
        },
        ConnectionType::Brom => {},
    }
    let tx: Vec<u8> = vec![0xA0u8, 0x0Au8, 0x50u8, 0x05u8];
    let ghost av0 = port.avail();
    let ghost mut consumed: int = 0;
    let mut step: u8 = 0;
    let mut retries: u32 = 0;
    loop
        invariant
            step < 4,
            tx@ == seq![0xA0u8, 0x0Au8, 0x50u8, 0x05u8],
            retries <= HANDSHAKE_MAX_RETRIES,
            !(old(port).kind() is Da),
            port.kind() == old(port).kind(),
            port.baud() == old(port).baud(),
            old(port).sent().is_prefix_of(port.sent()),
            forall|i: int|
                old(port).sent().len() <= i < port.sent().len() ==> spec_greeting_byte(
                    #[trigger] port.sent()[i],
                ),
            av0 == old(port).avail(),
            0 <= consumed <= av0.len(),
            port.avail() == av0.skip(consumed),
            spec_handshake_done(av0, 0) == spec_handshake_done(port.avail(), step as int),
            spec_handshake_consumed(av0, 0) == consumed + spec_handshake_consumed(
                port.avail(),
                step as int,
            ),
        decreases HANDSHAKE_MAX_RETRIES - retries, 4 - step,
    {
        let ghost pre = port.sent();
        let one: Vec<u8> = vec![tx[step as usize]];
        if let Err(e) = port.write_all(one.as_slice()) {
            return Err(e);
        }
        proof {
            assert(port.sent() == pre + one@);
            crate::bytes::lemma_prefix_trans(old(port).sent(), pre, port.sent());
            assert forall|i: int|
                old(port).sent().len() <= i < port.sent().len() implies spec_greeting_byte(
                #[trigger] port.sent()[i],
            ) by {
                if i < pre.len() {
                    assert(port.sent()[i] == pre[i]);
                } else {
                    assert(port.sent()[i] == one@[i - pre.len()]);
                }
            };
            assert(port.sent().len() > old(port).sent().len());
        }
        let ghost av_h = port.avail();
        match port.read_exact_timeout(1, 100) {
            Ok(reply) => {
                let byte = reply[0];
                proof {
                    assert(byte == av_h[0]);
                    assert(port.avail() =~= av_h.skip(1));
                    consumed = consumed + 1;
                    assert(port.avail() =~= av0.skip(consumed));
                }
                match handshake_step(step, byte) {
                    HandshakeProgress::Done => {
                        proof {
                            assert(spec_handshake_done(av_h, step as int));
                            assert(spec_handshake_consumed(av_h, step as int) == 1);
                        }
                        return Ok(());
                    },
                    HandshakeProgress::Step(next) => {
                        proof {
                            if next == 0 {
                                assert(spec_handshake_done(av_h, step as int)
                                    == spec_handshake_done(av_h.skip(1), 0));
                                assert(spec_handshake_consumed(av_h, step as int) == 1
                                    + spec_handshake_consumed(av_h.skip(1), 0));
                            } else {
                                assert(next == step + 1);
                                assert(spec_handshake_done(av_h, step as int)
                                    == spec_handshake_done(av_h.skip(1), step + 1));
                                assert(spec_handshake_consumed(av_h, step as int) == 1
                                    + spec_handshake_consumed(av_h.skip(1), step + 1));
                            }
                        }
                        if next == 0 {
                            if retries >= HANDSHAKE_MAX_RETRIES {
                                return Err(Error::Timeout);
                            }
                            retries = retries + 1;
                            step = 0;
                        } else {
                            step = next;
                        }
                    },
                }
            },
            Err(_) => {
                if retries >= HANDSHAKE_MAX_RETRIES {
                    return Err(Error::Timeout);
                }
                retries = retries + 1;
            },
        }
    }
}

} // verus!
