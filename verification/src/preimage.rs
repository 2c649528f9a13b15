//! Construction of the proof-of-work preimage: the byte sequence that is
//! hashed when a nonce is tried against a mining challenge.
//!
//! The preimage is the separator-free concatenation, in fixed order, of
//! seven fields: the nonce rendered as 16 lowercase hexadecimal characters,
//! the miner's address, and the five textual fields of the challenge.
//! Two assemblers produce it: an allocating one that takes the nonce
//! already hex-encoded, and a buffer-writing one that takes the raw 64-bit
//! nonce and writes into a caller-supplied buffer without allocating.
//! Both must agree byte for byte on the same logical nonce.

use vstd::prelude::*;
use vstd::utf8::encode_scalar;
use vstd::utf8::encode_utf8;
use vstd::utf8::is_ascii_chars;
use vstd::utf8::is_ascii_chars_encode_utf8;

verus! {

/// One mining challenge, as issued by the server. Every field is opaque
/// text: it is copied verbatim into the preimage, never interpreted here.
#[derive(Debug, Clone)]
pub struct ChallengeData {
    pub challenge_id: String,
    pub difficulty: String,
    pub no_pre_mine: String,
    pub latest_submission: String,
    pub no_pre_mine_hour: String,
}

/// The lowercase hexadecimal digit for a nibble value.
pub open spec fn hex_char(v: u64) -> char
    recommends
        v < 16,
{
    if v == 0 {
        '0'
    } else if v == 1 {
        '1'
    } else if v == 2 {
        '2'
    } else if v == 3 {
        '3'
    } else if v == 4 {
        '4'
    } else if v == 5 {
        '5'
    } else if v == 6 {
        '6'
    } else if v == 7 {
        '7'
    } else if v == 8 {
        '8'
    } else if v == 9 {
        '9'
    } else if v == 10 {
        'a'
    } else if v == 11 {
        'b'
    } else if v == 12 {
        'c'
    } else if v == 13 {
        'd'
    } else if v == 14 {
        'e'
    } else {
        'f'
    }
}

/// The `i`-th nibble of `n` as it appears in `n`'s big-endian hexadecimal
/// text: nibble 0 is the most significant, nibble 15 the least.
pub open spec fn nonce_nibble(n: u64, i: int) -> u64
    recommends
        0 <= i < 16,
{
    (n >> ((60 - 4 * i) as u64)) & 0xf
}

/// The 16-character lowercase hexadecimal rendering of a 64-bit nonce.
pub open spec fn nonce_hex_chars(n: u64) -> Seq<char> {
    Seq::new(16, |i: int| hex_char(nonce_nibble(n, i)))
}

/// The preimage as a character sequence: nonce hex, address, then the five
/// challenge fields, concatenated in fixed order with no separators.
pub open spec fn preimage_chars(nonce_hex: Seq<char>, address: Seq<char>, c: ChallengeData) -> Seq<
    char,
> {
    nonce_hex + address + c.challenge_id@ + c.difficulty@ + c.no_pre_mine@ + c.latest_submission@
        + c.no_pre_mine_hour@
}

/// The UTF-8 bytes of the nonce's hexadecimal rendering. Hex digits are
/// ASCII, so each character is one byte.
pub open spec fn nonce_hex_bytes(n: u64) -> Seq<u8> {
    Seq::new(16, |i: int| hex_char(nonce_nibble(n, i)) as u8)
}

/// The preimage as a byte sequence, as the buffer-writing assembler lays
/// it out: 16 nonce hex bytes, then the UTF-8 bytes of the address and of
/// the five challenge fields.
pub open spec fn preimage_bytes(n: u64, address: Seq<char>, c: ChallengeData) -> Seq<u8> {
    nonce_hex_bytes(n) + encode_utf8(address) + encode_utf8(c.challenge_id@) + encode_utf8(
        c.difficulty@,
    ) + encode_utf8(c.no_pre_mine@) + encode_utf8(c.latest_submission@) + encode_utf8(
        c.no_pre_mine_hour@,
    )
}

/// The byte length the preimage of any nonce has for this address and
/// challenge: 16 for the nonce hex plus the UTF-8 lengths of the six
/// remaining fields.
pub open spec fn required_len(address: Seq<char>, c: ChallengeData) -> int {
    16 + encode_utf8(address).len() as int + encode_utf8(c.challenge_id@).len() + encode_utf8(
        c.difficulty@,
    ).len() + encode_utf8(c.no_pre_mine@).len() + encode_utf8(c.latest_submission@).len()
        + encode_utf8(c.no_pre_mine_hour@).len()
}

/// UTF-8 encoding distributes over concatenation: the bytes of `a + b`
/// are the bytes of `a` followed by the bytes of `b`.
pub proof fn lemma_encode_utf8_concat(a: Seq<char>, b: Seq<char>)
    ensures
        encode_utf8(a + b) == encode_utf8(a) + encode_utf8(b),
    decreases a.len(),
{
    if a.len() == 0 {
        assert(a + b =~= b);
        assert(encode_utf8(a) + encode_utf8(b) =~= encode_utf8(b));
    } else {
        lemma_encode_utf8_concat(a.drop_first(), b);
        assert((a + b).drop_first() =~= a.drop_first() + b);
        assert(encode_utf8(a) + encode_utf8(b) =~= encode_scalar(a[0] as u32) + (encode_utf8(
            a.drop_first(),
        ) + encode_utf8(b)));
    }
}

/// Builds the preimage for one nonce attempt by straight concatenation:
/// nonce hex, address, then the five challenge fields, in fixed order.
/// The nonce is taken already hex-encoded; no field is validated or
/// altered in any way.
pub fn build_preimage(nonce_hex: &str, address: &str, challenge: &ChallengeData) -> (r: String)
    ensures
        r@ == preimage_chars(nonce_hex@, address@, *challenge),
{
    let mut r = String::new();
    r.append(nonce_hex);
    r.append(address);
    r.append(challenge.challenge_id.as_str());
    r.append(challenge.difficulty.as_str());
    r.append(challenge.no_pre_mine.as_str());
    r.append(challenge.latest_submission.as_str());
    r.append(challenge.no_pre_mine_hour.as_str());
    proof {
        assert(r@ =~= preimage_chars(nonce_hex@, address@, *challenge));
    }
    r
}

/// The lowercase hexadecimal digit for a nibble value, as an ASCII byte.
fn hex_digit(v: u64) -> (c: u8)
    requires
        v < 16,
    ensures
        c == hex_char(v) as u8,
{
    if v < 10 {
        48 + (v as u8)
    } else {
        87 + (v as u8)
    }
}

/// Computes the byte capacity a buffer needs so that the buffer-writing
/// assembler succeeds for this address and challenge, whatever the nonce:
/// 16 plus the byte lengths of the six remaining fields. Challenge fields
/// are fixed for a session, so callers size one buffer here and reuse it
/// across every nonce attempt. Returns `None` only when the sum does not
/// fit in `usize`.
pub fn required_capacity(address: &str, challenge: &ChallengeData) -> (r: Option<usize>)
    ensures
        match r {
            Some(l) => l == required_len(address@, *challenge),
            None => required_len(address@, *challenge) > usize::MAX,
        },
{
    let mut total: usize = 16;
    total = match total.checked_add(address.as_bytes().len()) {
        Some(t) => t,
        None => {
            return None;
        },
    };
    total = match total.checked_add(challenge.challenge_id.as_str().as_bytes().len()) {
        Some(t) => t,
        None => {
            return None;
        },
    };
    total = match total.checked_add(challenge.difficulty.as_str().as_bytes().len()) {
        Some(t) => t,
        None => {
            return None;
        },
    };
    total = match total.checked_add(challenge.no_pre_mine.as_str().as_bytes().len()) {
        Some(t) => t,
        None => {
            return None;
        },
    };
    total = match total.checked_add(challenge.latest_submission.as_str().as_bytes().len()) {
        Some(t) => t,
        None => {
            return None;
        },
    };
    total = match total.checked_add(challenge.no_pre_mine_hour.as_str().as_bytes().len()) {
        Some(t) => t,
        None => {
            return None;
        },
    };
    Some(total)
}

/// Copies `bytes` into `buffer` starting at `pos`, leaving everything
/// before `pos` and after the copied range unchanged.
fn write_bytes(buffer: &mut [u8], pos: usize, bytes: &[u8])
    requires
        pos + bytes@.len() <= old(buffer)@.len(),
    ensures
        final(buffer)@.len() == old(buffer)@.len(),
        forall|j: int| 0 <= j < pos ==> final(buffer)@[j] == old(buffer)@[j],
        final(buffer)@.subrange(pos as int, pos + bytes@.len()) == bytes@,
        forall|j: int|
            pos + bytes@.len() <= j < old(buffer)@.len() ==> final(buffer)@[j] == old(buffer)@[j],
{
    let n = bytes.len();
    let buf_len = buffer.len();
    let mut i: usize = 0;
    while i < n
        invariant
            n == bytes@.len(),
            buf_len == buffer@.len(),
            i <= n,
            pos + n <= buf_len,
            buffer@.len() == old(buffer)@.len(),
            forall|j: int| 0 <= j < pos ==> buffer@[j] == old(buffer)@[j],
            forall|j: int| 0 <= j < i ==> buffer@[pos + j] == bytes@[j],
            forall|j: int| pos + n <= j < old(buffer)@.len() ==> buffer@[j] == old(buffer)@[j],
        decreases n - i,
    {
        let b = *vstd::slice::slice_index_get(bytes, i);
        buffer[pos + i] = b;
        i = i + 1;
    }
    proof {
        assert(buffer@.subrange(pos as int, pos + bytes@.len()) =~= bytes@);
    }
}

/// Copies the UTF-8 bytes of `s` into `buffer` starting at `pos` and
/// returns the position just past them, leaving everything before `pos`
/// and after the copied range unchanged.
fn write_str(buffer: &mut [u8], pos: usize, s: &str) -> (new_pos: usize)
    requires
        pos + encode_utf8(s@).len() <= old(buffer)@.len(),
    ensures
        new_pos == pos + encode_utf8(s@).len(),
        final(buffer)@.len() == old(buffer)@.len(),
        forall|j: int| 0 <= j < pos ==> final(buffer)@[j] == old(buffer)@[j],
        final(buffer)@.subrange(pos as int, new_pos as int) == encode_utf8(s@),
        forall|j: int|
            new_pos <= j < old(buffer)@.len() ==> final(buffer)@[j] == old(buffer)@[j],
{
    // The length call bounds the slice length by usize::MAX, which the
    // no-overflow check of the position sum below needs.
    let _ = buffer.len();
    let bytes = s.as_bytes();
    let new_pos = pos + bytes.len();
    write_bytes(buffer, pos, bytes);
    new_pos
}

/// Writes the preimage for one nonce attempt into `buffer`, starting at
/// offset 0, and returns the number of bytes written: the 16 lowercase hex
/// characters of `nonce` (most significant nibble first), then the address
/// and the five challenge fields, copied verbatim in fixed order. Bytes of
/// `buffer` past the returned length are left as they were. The write is
/// bounds-checked: a buffer shorter than the required length is reported
/// as `None` and left untouched, never overrun. No heap allocation is
/// performed.
pub fn build_preimage_into_buffer(
    nonce: u64,
    address: &str,
    challenge: &ChallengeData,
    buffer: &mut [u8],
) -> (r: Option<usize>)
    ensures
        match r {
            Some(len) => {
                &&& required_len(address@, *challenge) <= old(buffer)@.len()
                &&& len == required_len(address@, *challenge)
                &&& final(buffer)@.len() == old(buffer)@.len()
                &&& final(buffer)@.subrange(0, len as int) == preimage_bytes(
                    nonce,
                    address@,
                    *challenge,
                )
                &&& final(buffer)@.subrange(len as int, final(buffer)@.len() as int) == old(
                    buffer,
                )@.subrange(len as int, old(buffer)@.len() as int)
            },
            None => {
                &&& required_len(address@, *challenge) > old(buffer)@.len()
                &&& final(buffer)@ == old(buffer)@
            },
        },
{
    let buf_len = buffer.len();
    let required = match required_capacity(address, challenge) {
        Some(req) => req,
        None => {
            return None;
        },
    };
    if buf_len < required {
        return None;
    }
    let ghost b_nonce = nonce_hex_bytes(nonce);
    let ghost b_addr = encode_utf8(address@);
    let ghost b_cid = encode_utf8(challenge.challenge_id@);
    let ghost b_diff = encode_utf8(challenge.difficulty@);
    let ghost b_npm = encode_utf8(challenge.no_pre_mine@);
    let ghost b_ls = encode_utf8(challenge.latest_submission@);
    let ghost b_nph = encode_utf8(challenge.no_pre_mine_hour@);

    let mut i: usize = 0;
    while i < 16
        invariant
            i <= 16,
            16 <= required <= buf_len,
            buf_len == buffer@.len(),
            buffer@.len() == old(buffer)@.len(),
            forall|j: int| 0 <= j < i ==> buffer@[j] == nonce_hex_bytes(nonce)[j],
            forall|j: int| i <= j < buf_len ==> buffer@[j] == old(buffer)@[j],
        decreases 16 - i,
    {
        let shift: u64 = 60 - 4 * (i as u64);
        let nib: u64 = (nonce >> shift) & 0xf;
        proof {
            assert(nib < 16) by (bit_vector)
                requires
                    nib == (nonce >> shift) & 0xf,
            ;
            assert(nonce_nibble(nonce, i as int) == nib);
        }
        let c = hex_digit(nib);
        buffer[i] = c;
        i = i + 1;
    }
    let mut pos: usize = 16;
    proof {
        assert(buffer@.subrange(0, 16) =~= b_nonce);
    }
    pos = write_str(buffer, pos, address);
    proof {
        assert(buffer@.subrange(0, pos as int) =~= b_nonce + b_addr);
    }
    pos = write_str(buffer, pos, challenge.challenge_id.as_str());
    proof {
        assert(buffer@.subrange(0, pos as int) =~= b_nonce + b_addr + b_cid);
    }
    pos = write_str(buffer, pos, challenge.difficulty.as_str());
    proof {
        assert(buffer@.subrange(0, pos as int) =~= b_nonce + b_addr + b_cid + b_diff);
    }
    pos = write_str(buffer, pos, challenge.no_pre_mine.as_str());
    proof {
        assert(buffer@.subrange(0, pos as int) =~= b_nonce + b_addr + b_cid + b_diff + b_npm);
    }
    pos = write_str(buffer, pos, challenge.latest_submission.as_str());
    proof {
        assert(buffer@.subrange(0, pos as int) =~= b_nonce + b_addr + b_cid + b_diff + b_npm
            + b_ls);
    }
    pos = write_str(buffer, pos, challenge.no_pre_mine_hour.as_str());
    proof {
        assert(buffer@.subrange(0, pos as int) =~= b_nonce + b_addr + b_cid + b_diff + b_npm + b_ls
            + b_nph);
        assert(buffer@.subrange(pos as int, buf_len as int) =~= old(buffer)@.subrange(
            pos as int,
            buf_len as int,
        ));
    }
    Some(pos)
}

/// The characters of a nonce's hexadecimal rendering are all ASCII.
pub proof fn lemma_nonce_hex_chars_ascii(n: u64)
    ensures
        is_ascii_chars(nonce_hex_chars(n)),
{
    assert forall|i: int| 0 <= i < nonce_hex_chars(n).len() implies '\0'
        <= #[trigger] nonce_hex_chars(n)[i] <= '\u{7f}' by {
        assert(nonce_hex_chars(n)[i] == hex_char(nonce_nibble(n, i)));
    }
}

/// The UTF-8 bytes of a nonce's hexadecimal rendering are its sixteen hex
/// digits as ASCII bytes, one byte per character.
pub proof fn lemma_encode_nonce_hex(n: u64)
    ensures
        encode_utf8(nonce_hex_chars(n)) == nonce_hex_bytes(n),
{
    lemma_nonce_hex_chars_ascii(n);
    is_ascii_chars_encode_utf8(nonce_hex_chars(n));
    assert(encode_utf8(nonce_hex_chars(n)) =~= nonce_hex_bytes(n));
}

/// Cross-path equivalence: for every nonce, address and challenge, the
/// bytes the buffer-writing assembler lays out are exactly the UTF-8 bytes
/// of the text the allocating assembler returns when it is given the
/// nonce's 16-character lowercase hexadecimal rendering. The two assemblers
/// are interchangeable for identical logical nonces.
pub proof fn lemma_cross_path_equivalence(nonce: u64, address: Seq<char>, c: ChallengeData)
    ensures
        encode_utf8(preimage_chars(nonce_hex_chars(nonce), address, c)) == preimage_bytes(
            nonce,
            address,
            c,
        ),
{
    let h = nonce_hex_chars(nonce);
    lemma_encode_nonce_hex(nonce);
    lemma_encode_utf8_concat(h, address);
    lemma_encode_utf8_concat(h + address, c.challenge_id@);
    lemma_encode_utf8_concat(h + address + c.challenge_id@, c.difficulty@);
    lemma_encode_utf8_concat(h + address + c.challenge_id@ + c.difficulty@, c.no_pre_mine@);
    lemma_encode_utf8_concat(
        h + address + c.challenge_id@ + c.difficulty@ + c.no_pre_mine@,
        c.latest_submission@,
    );
    lemma_encode_utf8_concat(
        h + address + c.challenge_id@ + c.difficulty@ + c.no_pre_mine@ + c.latest_submission@,
        c.no_pre_mine_hour@,
    );
}

/// The preimage's byte length is 16 plus the sum of the byte lengths of
/// the address and the five challenge fields, for every nonce.
pub proof fn lemma_preimage_length(nonce: u64, address: Seq<char>, c: ChallengeData)
    ensures
        preimage_bytes(nonce, address, c).len() == required_len(address, c),
{
}

/// The allocating assembler is deterministic: any two outputs that meet
/// its contract for the same inputs are equal. It has no hidden state.
pub proof fn lemma_build_preimage_deterministic(
    r1: Seq<char>,
    r2: Seq<char>,
    nonce_hex: Seq<char>,
    address: Seq<char>,
    c: ChallengeData,
)
    requires
        r1 == preimage_chars(nonce_hex, address, c),
        r2 == preimage_chars(nonce_hex, address, c),
    ensures
        r1 == r2,
{
}

/// The buffer-writing assembler is deterministic: any two byte sequences
/// that meet its contract for the same inputs are equal. It has no hidden
/// state.
pub proof fn lemma_build_preimage_into_buffer_deterministic(
    r1: Seq<u8>,
    r2: Seq<u8>,
    nonce: u64,
    address: Seq<char>,
    c: ChallengeData,
)
    requires
        r1 == preimage_bytes(nonce, address, c),
        r2 == preimage_bytes(nonce, address, c),
    ensures
        r1 == r2,
{
}

/// Field layout: the preimage starts with the 16-character nonce hex, the
/// address follows immediately, and the challenge identifier immediately
/// after that, each as a contiguous range.
pub proof fn lemma_preimage_layout(nonce_hex: Seq<char>, address: Seq<char>, c: ChallengeData)
    requires
        nonce_hex.len() == 16,
    ensures
        preimage_chars(nonce_hex, address, c).subrange(0, 16) == nonce_hex,
        preimage_chars(nonce_hex, address, c).subrange(16, 16 + address.len() as int) == address,
        preimage_chars(nonce_hex, address, c).subrange(
            16 + address.len() as int,
            16 + address.len() as int + c.challenge_id@.len(),
        ) == c.challenge_id@,
{
    let p = preimage_chars(nonce_hex, address, c);
    assert(p.subrange(0, 16) =~= nonce_hex);
    assert(p.subrange(16, 16 + address.len() as int) =~= address);
    assert(p.subrange(16 + address.len() as int, 16 + address.len() as int + c.challenge_id@.len())
        =~= c.challenge_id@);
}

} // verus!
