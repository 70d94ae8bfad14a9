//! The decoded unit of communication.

use vstd::prelude::*;

verus! {

/// Largest payload a message can carry, in bytes.
pub const MAX_PAYLOAD: usize = 5;

/// The mathematical content of a message: the packed source and
/// destination bytes and the payload.
pub struct MessageModel {
    pub src: u8,
    pub dest: u8,
    pub payload: Seq<u8>,
}

/// A five-bit type and a three-bit address packed into one byte, type on top.
pub open spec fn pack_identity(ty: u8, addr: u8) -> u8 {
    ((ty % 32) * 8 + addr % 8) as u8
}

/// The type held in the top five bits of a packed identity byte.
pub open spec fn identity_type(b: u8) -> u8 {
    b / 8
}

/// The address held in the low three bits of a packed identity byte.
pub open spec fn identity_addr(b: u8) -> u8 {
    b % 8
}

/// A payload length that a message can carry.
pub open spec fn valid_payload_len(n: int) -> bool {
    1 <= n <= MAX_PAYLOAD
}

/// The message that a wire frame holds: the marker byte, the source byte,
/// the destination byte, then the payload.
pub open spec fn frame_model(f: Seq<u8>) -> MessageModel {
    MessageModel { src: f[1], dest: f[2], payload: f.subrange(3, f.len() as int) }
}

proof fn lemma_identity_bits(b: u8)
    by (bit_vector)
    ensures
        b >> 3 == b / 8,
        b & 0x07 == b % 8,
{
}

/// A Meridian Comms message.
pub struct CommsMessage {
    len: u8,
    src: u8,
    dest: u8,
    payload: [u8; 5],
}

impl View for CommsMessage {
    type V = MessageModel;

    closed spec fn view(&self) -> MessageModel {
        MessageModel {
            src: self.src,
            dest: self.dest,
            payload: self.payload@.subrange(0, self.len as int),
        }
    }
}

impl CommsMessage {
    #[verifier::type_invariant]
    spec fn inv(self) -> bool {
        valid_payload_len(self.len as int)
    }

    /// Builds a message; the type fields keep their low five bits and the
    /// address fields their low three bits.
    pub fn new(src_type: u8, src_addr: u8, dest_type: u8, dest_addr: u8, payload: &[u8]) -> (r:
        CommsMessage)
        requires
            valid_payload_len(payload@.len() as int),
        ensures
            r@.src == pack_identity(src_type, src_addr),
            r@.dest == pack_identity(dest_type, dest_addr),
            r@.payload == payload@,
    {
        let src = ((src_type & 0x1F) << 3) | (src_addr & 0x07);
        let dest = ((dest_type & 0x1F) << 3) | (dest_addr & 0x07);
        assert(src == pack_identity(src_type, src_addr)) by (bit_vector)
            requires
                src == ((src_type & 0x1F) << 3) | (src_addr & 0x07),
        ;
        assert(dest == pack_identity(dest_type, dest_addr)) by (bit_vector)
            requires
                dest == ((dest_type & 0x1F) << 3) | (dest_addr & 0x07),
        ;
        let mut bytes: [u8; 5] = [0;5];
        let n = payload.len();
        let mut i: usize = 0;
        while i < n
            invariant
                n == payload@.len(),
                n <= 5,
                i <= n,
                bytes@.len() == 5,
                forall|j: int| 0 <= j < i ==> bytes@[j] == payload@[j],
            decreases n - i,
        {
            bytes[i] = payload[i];
            i = i + 1;
        }
        let r = CommsMessage { len: n as u8, src, dest, payload: bytes };
        assert(r@.payload =~= payload@);
        r
    }

    /// Builds a message, or gives `None` when the payload is empty or longer
    /// than five bytes.
    pub fn try_new(src_type: u8, src_addr: u8, dest_type: u8, dest_addr: u8, payload: &[u8]) -> (r:
        Option<CommsMessage>)
        ensures
            r is None <==> !valid_payload_len(payload@.len() as int),
            r matches Some(m) ==> m@.src == pack_identity(src_type, src_addr) && m@.dest
                == pack_identity(dest_type, dest_addr) && m@.payload == payload@,
    {
        if payload.is_empty() || payload.len() > MAX_PAYLOAD {
            None
        } else {
            Some(CommsMessage::new(src_type, src_addr, dest_type, dest_addr, payload))
        }
    }

    /// Reads a message out of a wire frame whose marker announces a valid
    /// length and which holds exactly that many payload bytes.
    pub fn from_buffer(buffer: &[u8]) -> (r: CommsMessage)
        requires
            buffer@.len() >= 3,
            valid_payload_len((buffer@[0] % 32) as int),
            buffer@.len() == 3 + buffer@[0] % 32,
        ensures
            r@ == frame_model(buffer@),
    {
        let marker = buffer[0];
        let len = marker & 0x1F;
        assert(len == marker % 32) by (bit_vector)
            requires
                len == marker & 0x1F,
        ;
        let mut bytes: [u8; 5] = [0;5];
        let n = len as usize;
        let mut i: usize = 0;
        while i < n
            invariant
                n == len,
                buffer@.len() == 3 + n,
                n <= 5,
                i <= n,
                bytes@.len() == 5,
                forall|j: int| 0 <= j < i ==> bytes@[j] == buffer@[3 + j],
            decreases n - i,
        {
            bytes[i] = buffer[3 + i];
            i = i + 1;
        }
        let r = CommsMessage { len, src: buffer[1], dest: buffer[2], payload: bytes };
        assert(r@.payload =~= buffer@.subrange(3, buffer@.len() as int));
        r
    }

    /// The five-bit type of the sender.
    pub fn src_type(&self) -> (r: u8)
        ensures
            r == identity_type(self@.src),
    {
        proof {
            lemma_identity_bits(self.src);
        }
        self.src >> 3
    }

    /// The three-bit address of the sender.
    pub fn src_addr(&self) -> (r: u8)
        ensures
            r == identity_addr(self@.src),
    {
        proof {
            lemma_identity_bits(self.src);
        }
        self.src & 0x07
    }

    /// The five-bit type of the receiver.
    pub fn dest_type(&self) -> (r: u8)
        ensures
            r == identity_type(self@.dest),
    {
        proof {
            lemma_identity_bits(self.dest);
        }
        self.dest >> 3
    }

    /// The three-bit address of the receiver.
    pub fn dest_addr(&self) -> (r: u8)
        ensures
            r == identity_addr(self@.dest),
    {
        proof {
            lemma_identity_bits(self.dest);
        }
        self.dest & 0x07
    }

    /// The payload bytes, one to five of them.
    pub fn payload(&self) -> (r: &[u8])
        ensures
            r@ == self@.payload,
            valid_payload_len(r@.len() as int),
    {
        proof {
            use_type_invariant(self);
        }
        &self.payload[0..self.len as usize]
    }
}

} // verus!
