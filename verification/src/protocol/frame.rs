//! Frames: a header of twelve bytes and a payload, within limits.
use vstd::prelude::*;

use crate::protocol::message::{
    class_code, class_of_code, current_version, message_class, Message, MessageClass,
    ProtocolVersion,
};
use crate::words::{decimal, decimal_text, join2, join4};

verus! {

/// The bytes `HMT2` that every frame starts with.
pub const FRAME_MAGIC: [u8; 4] = [72, 77, 84, 50];

pub const HEADER_LEN: usize = 12;

#[derive(Clone, Copy, Debug, PartialEq, Eq, Structural)]
pub enum FrameError {
    BadMagic,
    UnknownClass(u8),
    LengthOverflow,
    ClassLimit { class: MessageClass, length: usize, limit: usize },
    AggregateLimit { requested: usize, available: usize },
    ClassMismatch { header: MessageClass, payload: MessageClass },
}

/// The name of a class.
pub open spec fn class_name(class: MessageClass) -> Seq<char> {
    match class {
        MessageClass::Control => "Control"@,
        MessageClass::Pty => "Pty"@,
        MessageClass::Fs => "Fs"@,
        MessageClass::Process => "Process"@,
        MessageClass::Lsp => "Lsp"@,
        MessageClass::Git => "Git"@,
        MessageClass::Container => "Container"@,
        MessageClass::Relay => "Relay"@,
    }
}

fn class_text(class: MessageClass) -> (text: &'static str)
    ensures
        text@ == class_name(class),
{
    match class {
        MessageClass::Control => "Control",
        MessageClass::Pty => "Pty",
        MessageClass::Fs => "Fs",
        MessageClass::Process => "Process",
        MessageClass::Lsp => "Lsp",
        MessageClass::Git => "Git",
        MessageClass::Container => "Container",
        MessageClass::Relay => "Relay",
    }
}

/// What an error says.
pub open spec fn frame_error_text(error: FrameError) -> Seq<char> {
    match error {
        FrameError::BadMagic => "invalid frame magic"@,
        FrameError::UnknownClass(code) => "unknown frame class "@ + decimal(code as nat),
        FrameError::LengthOverflow => "frame payload length cannot be represented"@,
        FrameError::ClassLimit { class, length, limit } => class_name(class) + " frame length "@
            + decimal(length as nat) + " exceeds cap "@ + decimal(limit as nat),
        FrameError::AggregateLimit { requested, available } =>
            "aggregate frame budget exceeded: requested "@ + decimal(requested as nat)
            + ", available "@ + decimal(available as nat),
        FrameError::ClassMismatch { header, payload } => "frame class "@ + class_name(header)
            + " does not match decoded message class "@ + class_name(payload),
    }
}

impl FrameError {
    pub fn text(self) -> (text: String)
        ensures
            text@ == frame_error_text(self),
    {
        match self {
            FrameError::BadMagic => "invalid frame magic".to_owned(),
            FrameError::UnknownClass(code) => {
                let code = decimal_text(code as u64);
                join2("unknown frame class ", code.as_str())
            },
            FrameError::LengthOverflow => "frame payload length cannot be represented".to_owned(),
            FrameError::ClassLimit { class, length, limit } => {
                let length = decimal_text(length as u64);
                let limit = decimal_text(limit as u64);
                let mut text = join4(
                    class_text(class),
                    " frame length ",
                    length.as_str(),
                    " exceeds cap ",
                );
                text.push_str(limit.as_str());
                text
            },
            FrameError::AggregateLimit { requested, available } => {
                let requested = decimal_text(requested as u64);
                let available = decimal_text(available as u64);
                join4(
                    "aggregate frame budget exceeded: requested ",
                    requested.as_str(),
                    ", available ",
                    available.as_str(),
                )
            },
            FrameError::ClassMismatch { header, payload } => join4(
                "frame class ",
                class_text(header),
                " does not match decoded message class ",
                class_text(payload),
            ),
        }
    }
}

#[derive(Clone, Copy, Debug, PartialEq, Eq, Structural)]
pub struct FrameHeader {
    pub version: ProtocolVersion,
    pub class: MessageClass,
    pub flags: u8,
    pub payload_len: u32,
}

/// A number in big-endian bytes.
pub open spec fn big_endian(n: u32) -> Seq<u8> {
    seq![
        (n / 16777216) as u8,
        (n / 65536 % 256) as u8,
        (n / 256 % 256) as u8,
        (n % 256) as u8,
    ]
}

/// The number that four big-endian bytes stand for.
pub open spec fn from_big_endian(bytes: Seq<u8>) -> int {
    bytes[0] * 16777216 + bytes[1] * 65536 + bytes[2] * 256 + bytes[3]
}

/// The bytes of a header: magic, version, class, flags and payload length.
pub open spec fn header_bytes(h: FrameHeader) -> Seq<u8> {
    seq![72u8, 77, 84, 50, h.version.major, h.version.minor, class_code(h.class), h.flags]
        + big_endian(h.payload_len)
}

/// The header that twelve bytes stand for.
pub open spec fn decoded_header(bytes: Seq<u8>) -> Result<FrameHeader, FrameError> {
    if bytes.subrange(0, 4) != seq![72u8, 77, 84, 50] {
        Err(FrameError::BadMagic)
    } else {
        match class_of_code(bytes[6]) {
            Err(e) => Err(e),
            Ok(class) => Ok(
                FrameHeader {
                    version: ProtocolVersion { major: bytes[4], minor: bytes[5] },
                    class,
                    flags: bytes[7],
                    payload_len: from_big_endian(bytes.subrange(8, 12)) as u32,
                },
            ),
        }
    }
}

/// Decoding the bytes of a header gives the header.
pub proof fn header_round_trip(h: FrameHeader)
    ensures
        header_bytes(h).len() == HEADER_LEN,
        decoded_header(header_bytes(h)) == Ok::<FrameHeader, FrameError>(h),
{
    let b = header_bytes(h);
    assert(b.subrange(0, 4) =~= seq![72u8, 77, 84, 50]);
    assert(b.subrange(8, 12) =~= big_endian(h.payload_len));
}

/// Four bytes are the digits of the number that they stand for.
proof fn lemma_digits(a: int, b: int, c: int, d: int)
    requires
        0 <= a < 256,
        0 <= b < 256,
        0 <= c < 256,
        0 <= d < 256,
    ensures
        ({
            let n = a * 16777216 + b * 65536 + c * 256 + d;
            &&& n / 16777216 == a
            &&& n / 65536 % 256 == b
            &&& n / 256 % 256 == c
            &&& n % 256 == d
            &&& 0 <= n <= 0xffff_ffff
        }),
{
    let n = a * 16777216 + b * 65536 + c * 256 + d;
    assert(n / 256 == a * 65536 + b * 256 + c);
    assert(n / 65536 == a * 256 + b);
}

/// Bytes that decode to a header are the bytes of that header.
pub proof fn header_decoding_is_exact(bytes: Seq<u8>)
    requires
        bytes.len() == HEADER_LEN,
        decoded_header(bytes) is Ok,
    ensures
        header_bytes(decoded_header(bytes)->Ok_0) == bytes,
{
    let h = decoded_header(bytes)->Ok_0;
    let m = bytes.subrange(0, 4);
    assert(m[0] == bytes[0] && m[1] == bytes[1] && m[2] == bytes[2] && m[3] == bytes[3]);
    let t = bytes.subrange(8, 12);
    assert(t[0] == bytes[8] && t[1] == bytes[9] && t[2] == bytes[10] && t[3] == bytes[11]);
    lemma_digits(bytes[8] as int, bytes[9] as int, bytes[10] as int, bytes[11] as int);
    assert(big_endian(h.payload_len) =~= t);
    assert(class_code(h.class) == bytes[6]);
    assert(header_bytes(h) =~= bytes);
}

impl FrameHeader {
    /// The twelve bytes of the header.
    pub fn encode(self) -> (out: [u8; 12])
        ensures
            out@ == header_bytes(self),
    {
        let n: u32 = self.payload_len;
        let out: [u8; 12] = [
            72,
            77,
            84,
            50,
            self.version.major,
            self.version.minor,
            self.class.code(),
            self.flags,
            (n / 16777216) as u8,
            (n / 65536 % 256) as u8,
            (n / 256 % 256) as u8,
            (n % 256) as u8,
        ];
        assert(out@ =~= header_bytes(self));
        out
    }

    /// The header that twelve bytes stand for; fails on other magic bytes and on a
    /// class byte that stands for no class.
    pub fn decode(bytes: [u8; 12]) -> (r: Result<Self, FrameError>)
        ensures
            r == decoded_header(bytes@),
    {
        proof {
            let m = bytes@.subrange(0, 4);
            assert(m =~= seq![72u8, 77, 84, 50] <==> m[0] == 72 && m[1] == 77 && m[2] == 84
                && m[3] == 50);
            assert(bytes@.subrange(8, 12) =~= seq![bytes@[8], bytes@[9], bytes@[10], bytes@[11]]);
        }
        if bytes[0] != 72 || bytes[1] != 77 || bytes[2] != 84 || bytes[3] != 50 {
            return Err(FrameError::BadMagic);
        }
        let class = match MessageClass::try_from(bytes[6]) {
            Ok(class) => class,
            Err(e) => return Err(e),
        };
        Ok(
            FrameHeader {
                version: ProtocolVersion { major: bytes[4], minor: bytes[5] },
                class,
                flags: bytes[7],
                payload_len: bytes[8] as u32 * 16777216 + bytes[9] as u32 * 65536 + bytes[10] as u32
                    * 256 + bytes[11] as u32,
            },
        )
    }
}

/// The longest payload of each class, and of all payloads held at once.
#[derive(Clone, Copy, Debug, PartialEq, Eq, Structural)]
pub struct FrameLimits {
    pub control: usize,
    pub pty: usize,
    pub fs: usize,
    pub process: usize,
    pub extension: usize,
    pub aggregate: usize,
}

impl Default for FrameLimits {
    fn default() -> (limits: Self)
        ensures
            limits == default_limits(),
    {
        FrameLimits {
            control: 65536,
            pty: 1048576,
            fs: 16777216,
            process: 8388608,
            extension: 4194304,
            aggregate: 33554432,
        }
    }
}

/// The limits in effect unless others are set: 64 KiB for control messages, 1 MiB
/// for terminals, 16 MiB for files, 8 MiB for programs, 4 MiB for extensions and
/// 32 MiB in all.
pub open spec fn default_limits() -> FrameLimits {
    FrameLimits {
        control: 65536,
        pty: 1048576,
        fs: 16777216,
        process: 8388608,
        extension: 4194304,
        aggregate: 33554432,
    }
}

/// The longest payload of a class.
pub open spec fn class_limit(limits: FrameLimits, class: MessageClass) -> usize {
    match class {
        MessageClass::Control => limits.control,
        MessageClass::Pty => limits.pty,
        MessageClass::Fs => limits.fs,
        MessageClass::Process => limits.process,
        MessageClass::Lsp => limits.extension,
        MessageClass::Git => limits.extension,
        MessageClass::Container => limits.extension,
        MessageClass::Relay => limits.extension,
    }
}

impl FrameLimits {
    pub fn max_for(self, class: MessageClass) -> (limit: usize)
        ensures
            limit == class_limit(self, class),
    {
        match class {
            MessageClass::Control => self.control,
            MessageClass::Pty => self.pty,
            MessageClass::Fs => self.fs,
            MessageClass::Process => self.process,
            MessageClass::Lsp => self.extension,
            MessageClass::Git => self.extension,
            MessageClass::Container => self.extension,
            MessageClass::Relay => self.extension,
        }
    }
}

/// How many payload bytes are held, and how many may be.
#[derive(Debug)]
pub struct AggregateBudget {
    used: usize,
    limit: usize,
}

/// A share of the budget. It is given back with `AggregateBudget::release`.
#[derive(Debug)]
pub struct BudgetPermit {
    bytes: usize,
}

impl BudgetPermit {
    pub closed spec fn size(&self) -> int {
        self.bytes as int
    }

    pub fn bytes(&self) -> (n: usize)
        ensures
            n == self.size(),
    {
        self.bytes
    }
}

impl AggregateBudget {
    pub closed spec fn in_use(&self) -> int {
        self.used as int
    }

    pub closed spec fn capacity(&self) -> int {
        self.limit as int
    }

    /// No more is held than may be.
    pub open spec fn wf(&self) -> bool {
        0 <= self.in_use() <= self.capacity() <= u32::MAX
    }

    /// A budget of which nothing is used. Its size fits in 32 bits.
    pub fn new(limit: usize) -> (budget: Self)
        requires
            limit <= u32::MAX,
        ensures
            budget.wf(),
            budget.in_use() == 0,
            budget.capacity() == limit,
    {
        AggregateBudget { used: 0, limit }
    }

    pub fn used(&self) -> (n: usize)
        ensures
            n == self.in_use(),
    {
        self.used
    }

    /// Takes a share of the budget if that much is left.
    pub fn try_reserve(&mut self, bytes: usize) -> (r: Result<BudgetPermit, FrameError>)
        requires
            old(self).wf(),
        ensures
            final(self).wf(),
            final(self).capacity() == old(self).capacity(),
            r is Ok <==> old(self).in_use() + bytes <= old(self).capacity(),
            match r {
                Ok(permit) => permit.size() == bytes && final(self).in_use() == old(self).in_use()
                    + bytes,
                Err(e) => final(self).in_use() == old(self).in_use() && e
                    == (FrameError::AggregateLimit {
                    requested: bytes,
                    available: (old(self).capacity() - old(self).in_use()) as usize,
                }),
            },
    {
        if bytes > self.limit - self.used {
            return Err(
                FrameError::AggregateLimit {
                    requested: bytes,
                    available: self.limit - self.used,
                },
            );
        }
        self.used = self.used + bytes;
        Ok(BudgetPermit { bytes })
    }

    /// Takes a share of the budget, or tells to wait until shares are given back.
    /// Fails for a share that the whole budget does not have.
    pub fn reserve(&mut self, bytes: usize) -> (r: Result<Option<BudgetPermit>, FrameError>)
        requires
            old(self).wf(),
        ensures
            final(self).wf(),
            final(self).capacity() == old(self).capacity(),
            r is Ok <==> bytes <= old(self).capacity(),
            match r {
                Ok(Some(permit)) => old(self).in_use() + bytes <= old(self).capacity()
                    && permit.size() == bytes && final(self).in_use() == old(self).in_use() + bytes,
                Ok(None) => old(self).in_use() + bytes > old(self).capacity()
                    && final(self).in_use() == old(self).in_use(),
                Err(e) => final(self).in_use() == old(self).in_use() && e
                    == (FrameError::AggregateLimit {
                    requested: bytes,
                    available: (old(self).capacity() - old(self).in_use()) as usize,
                }),
            },
    {
        if bytes > self.limit {
            return Err(
                FrameError::AggregateLimit {
                    requested: bytes,
                    available: self.limit - self.used,
                },
            );
        }
        match self.try_reserve(bytes) {
            Ok(permit) => Ok(Some(permit)),
            Err(_) => Ok(None),
        }
    }

    /// Gives a share back.
    pub fn release(&mut self, permit: BudgetPermit)
        requires
            old(self).wf(),
            permit.size() <= old(self).in_use(),
        ensures
            final(self).wf(),
            final(self).capacity() == old(self).capacity(),
            final(self).in_use() == old(self).in_use() - permit.size(),
    {
        self.used = self.used - permit.bytes;
    }
}

/// A frame read from the wire, with its share of the budget.
#[derive(Debug)]
pub struct ReceivedFrame {
    pub header: FrameHeader,
    pub payload: Vec<u8>,
    pub permit: BudgetPermit,
}

/// A message with the frame that it came in.
#[derive(Debug)]
pub struct ReceivedMessage {
    pub message: Message,
    pub frame: ReceivedFrame,
}

impl ReceivedMessage {
    pub fn into_parts(self) -> (r: (Message, ReceivedFrame))
        ensures
            r.0 == self.message,
            r.1 == self.frame,
    {
        (self.message, self.frame)
    }
}

impl ReceivedFrame {
    /// Takes the message that the payload decoded to; fails if it is of another
    /// class than the header says.
    pub fn decode_message(&self, decoded: Message) -> (r: Result<Message, FrameError>)
        ensures
            r == if message_class(decoded) == self.header.class {
                Ok::<Message, FrameError>(decoded)
            } else {
                Err::<Message, FrameError>(
                    FrameError::ClassMismatch {
                        header: self.header.class,
                        payload: message_class(decoded),
                    },
                )
            },
    {
        let class: MessageClass = decoded.class();
        if class != self.header.class {
            return Err(FrameError::ClassMismatch { header: self.header.class, payload: class });
        }
        Ok(decoded)
    }

    /// The message that the payload decoded to, together with the frame.
    pub fn into_message(self, decoded: Message) -> (r: Result<ReceivedMessage, FrameError>)
        ensures
            r is Ok <==> message_class(decoded) == self.header.class,
            match r {
                Ok(m) => m.message == decoded && m.frame == self,
                Err(e) => e == (FrameError::ClassMismatch {
                    header: self.header.class,
                    payload: message_class(decoded),
                }),
            },
    {
        let message = match self.decode_message(decoded) {
            Ok(message) => message,
            Err(e) => return Err(e),
        };
        Ok(ReceivedMessage { message, frame: self })
    }

    pub fn payload(&self) -> (bytes: &[u8])
        ensures
            bytes@ == self.payload@,
    {
        self.payload.as_slice()
    }
}

/// What the header of an incoming frame allows: its payload length if it is
/// within the limit of its class.
pub open spec fn accepted_header(bytes: Seq<u8>, limits: FrameLimits) -> Result<
    FrameHeader,
    FrameError,
> {
    match decoded_header(bytes) {
        Err(e) => Err(e),
        Ok(h) => if h.payload_len > usize::MAX {
            Err(FrameError::LengthOverflow)
        } else if h.payload_len > class_limit(limits, h.class) {
            Err(
                FrameError::ClassLimit {
                    class: h.class,
                    length: h.payload_len as usize,
                    limit: class_limit(limits, h.class),
                },
            )
        } else {
            Ok(h)
        },
    }
}

/// Reads the header of an incoming frame: how many payload bytes follow it.
pub fn read_frame(bytes: [u8; 12], limits: FrameLimits) -> (r: Result<FrameHeader, FrameError>)
    ensures
        r == accepted_header(bytes@, limits),
{
    let header = match FrameHeader::decode(bytes) {
        Ok(header) => header,
        Err(e) => return Err(e),
    };
    let length: usize = header.payload_len as usize;
    let limit: usize = limits.max_for(header.class);
    if length > limit {
        return Err(FrameError::ClassLimit { class: header.class, length, limit });
    }
    Ok(header)
}

/// The header of an outgoing frame.
pub open spec fn outgoing_header(
    payload: Seq<u8>,
    class: MessageClass,
    version: ProtocolVersion,
) -> FrameHeader {
    FrameHeader { version, class, flags: 0, payload_len: payload.len() as u32 }
}

/// The bytes of an outgoing frame, or why it cannot be sent.
pub open spec fn frame_bytes(
    payload: Seq<u8>,
    class: MessageClass,
    limits: FrameLimits,
    version: ProtocolVersion,
) -> Result<Seq<u8>, FrameError> {
    if payload.len() > class_limit(limits, class) {
        Err(
            FrameError::ClassLimit {
                class,
                length: payload.len() as usize,
                limit: class_limit(limits, class),
            },
        )
    } else if payload.len() > u32::MAX {
        Err(FrameError::LengthOverflow)
    } else {
        Ok(header_bytes(outgoing_header(payload, class, version)) + payload)
    }
}

/// The bytes of a frame in the current version.
pub fn write_message(payload: &[u8], class: MessageClass, limits: FrameLimits) -> (r: Result<
    Vec<u8>,
    FrameError,
>)
    ensures
        match frame_bytes(payload@, class, limits, current_version()) {
            Ok(bytes) => r is Ok && r->Ok_0@ == bytes,
            Err(e) => r == Err::<Vec<u8>, FrameError>(e),
        },
{
    write_message_version(payload, class, limits, current_version())
}

/// The bytes of a frame: the header and the payload. Fails if the payload is
/// longer than its class allows.
pub fn write_message_version(
    payload: &[u8],
    class: MessageClass,
    limits: FrameLimits,
    version: ProtocolVersion,
) -> (r: Result<Vec<u8>, FrameError>)
    ensures
        match frame_bytes(payload@, class, limits, version) {
            Ok(bytes) => r is Ok && r->Ok_0@ == bytes,
            Err(e) => r == Err::<Vec<u8>, FrameError>(e),
        },
{
    let limit: usize = limits.max_for(class);
    if payload.len() > limit {
        return Err(FrameError::ClassLimit { class, length: payload.len(), limit });
    }
    if payload.len() > 0xffff_ffff {
        return Err(FrameError::LengthOverflow);
    }
    let header = FrameHeader { version, class, flags: 0, payload_len: payload.len() as u32 };
    let encoded: [u8; 12] = header.encode();
    let mut out: Vec<u8> = Vec::new();
    for i in 0..12
        invariant
            out@ == encoded@.take(i as int),
            encoded@.len() == 12,
    {
        out.push(encoded[i]);
        assert(out@ =~= encoded@.take(i + 1));
    }
    for i in 0..payload.len()
        invariant
            encoded@.len() == 12,
            out@ == encoded@ + payload@.take(i as int),
    {
        out.push(payload[i]);
        assert(out@ =~= encoded@ + payload@.take(i + 1));
    }
    assert(out@ =~= encoded@ + payload@);
    Ok(out)
}

/// A frame that was written is read back: its first twelve bytes are accepted
/// under the same limits, they announce the length of the payload, and the
/// payload follows.
pub proof fn written_frame_is_read_back(
    payload: Seq<u8>,
    class: MessageClass,
    limits: FrameLimits,
    version: ProtocolVersion,
)
    requires
        frame_bytes(payload, class, limits, version) is Ok,
    ensures
        ({
            let bytes = frame_bytes(payload, class, limits, version)->Ok_0;
            let h = outgoing_header(payload, class, version);
            &&& accepted_header(bytes.take(HEADER_LEN as int), limits) == Ok::<
                FrameHeader,
                FrameError,
            >(h)
            &&& h.payload_len == payload.len()
            &&& bytes.skip(HEADER_LEN as int) == payload
        }),
{
    let h = outgoing_header(payload, class, version);
    let bytes = frame_bytes(payload, class, limits, version)->Ok_0;
    header_round_trip(h);
    assert(bytes.take(HEADER_LEN as int) =~= header_bytes(h));
    assert(bytes.skip(HEADER_LEN as int) =~= payload);
}

/// A header is laid out in the order of the wire: the letters `HMT2`, the major and the
/// minor version, the code of the class, the flags, and the length of the payload with
/// its most significant byte first.
pub proof fn headers_are_laid_out_in_order(h: FrameHeader)
    ensures
        ({
            let b = header_bytes(h);
            &&& b.len() == 12
            &&& b[0] == 0x48 && b[1] == 0x4d && b[2] == 0x54 && b[3] == 0x32
            &&& b[4] == h.version.major
            &&& b[5] == h.version.minor
            &&& b[6] == class_code(h.class)
            &&& b[7] == h.flags
            &&& b[8] * 0x1000000 + b[9] * 0x10000 + b[10] * 0x100 + b[11] == h.payload_len
        }),
{
    let n = h.payload_len as int;
    assert(n == (n / 16777216) * 16777216 + (n / 65536 % 256) * 65536 + (n / 256 % 256) * 256 + n
        % 256);
}

/// A frame is sent and taken exactly up to the limit of its class: a longer payload is
/// refused on both sides, and a shorter one is neither cut nor changed.
pub proof fn limits_hold_on_both_sides(
    payload: Seq<u8>,
    class: MessageClass,
    limits: FrameLimits,
    version: ProtocolVersion,
    h: FrameHeader,
)
    requires
        class_limit(limits, class) <= u32::MAX,
    ensures
        frame_bytes(payload, class, limits, version) is Ok <==> payload.len() <= class_limit(
            limits,
            class,
        ),
        frame_bytes(payload, class, limits, version) matches Ok(bytes) ==> bytes.len()
            == payload.len() + 12 && bytes.skip(12) == payload,
        accepted_header(header_bytes(h), limits) is Ok <==> h.payload_len <= class_limit(
            limits,
            h.class,
        ),
        class_limit(limits, MessageClass::Control) == limits.control,
        class_limit(limits, MessageClass::Pty) == limits.pty,
        class_limit(limits, MessageClass::Fs) == limits.fs,
        class_limit(limits, MessageClass::Process) == limits.process,
        class_limit(limits, MessageClass::Lsp) == limits.extension,
        class_limit(limits, MessageClass::Git) == limits.extension,
        class_limit(limits, MessageClass::Container) == limits.extension,
        class_limit(limits, MessageClass::Relay) == limits.extension,
{
    header_round_trip(h);
    if payload.len() <= class_limit(limits, class) {
        written_frame_is_read_back(payload, class, limits, version);
    }
}

/// No class may be longer than all payloads together, and terminals, files, programs
/// and extensions have 1, 16, 8 and 4 times 1024 KiB, control messages 64 KiB and all
/// together 32 times 1024 KiB.
pub proof fn default_limits_fit_the_whole(class: MessageClass)
    ensures
        class_limit(default_limits(), class) <= default_limits().aggregate,
        default_limits().control == 64 * 1024,
        default_limits().pty == 1024 * 1024,
        default_limits().fs == 16 * 1024 * 1024,
        default_limits().process == 8 * 1024 * 1024,
        default_limits().extension == 4 * 1024 * 1024,
        default_limits().aggregate == 32 * 1024 * 1024,
{
}

} // verus!
