//! Framing and parsing of remote-debug wire packets: `$`-framed payload
//! bytes followed by `#` and a two-digit hexadecimal checksum of the
//! payload.

use vstd::prelude::*;

verus! {

/// Why a received packet was rejected.
#[derive(Copy, Clone, PartialEq, Eq, Structural, Debug)]
pub enum ParseError {
    MalformedPacket,
    IncorrectArgumentCount,
    UnknownCommand,
    IncorrectChecksum,
}

/// A parsed packet: its payload fields, split at the argument
/// separators.
pub struct RdbPacket {
    pub data: Vec<Vec<u8>>,
}

/// The sum of a byte sequence.
pub open spec fn sum_bytes(s: Seq<u8>) -> int
    decreases s.len(),
{
    if s.len() == 0 {
        0
    } else {
        sum_bytes(s.drop_last()) + s.last()
    }
}

/// The uppercase hexadecimal digit of a value below sixteen.
pub open spec fn hex_digit(v: int) -> u8 {
    if v < 10 {
        (0x30 + v) as u8
    } else {
        (0x37 + v) as u8
    }
}

/// The value of one hexadecimal digit byte, or none.
pub open spec fn hex_val(b: u8) -> Option<int> {
    if 0x30 <= b <= 0x39 {
        Some((b - 0x30) as int)
    } else if 0x41 <= b <= 0x46 {
        Some((b - 0x41 + 10) as int)
    } else if 0x61 <= b <= 0x66 {
        Some((b - 0x61 + 10) as int)
    } else {
        None
    }
}

/// The value of a big-endian hexadecimal byte string, or none when it
/// is empty or holds a non-digit.
pub open spec fn parse_hex(s: Seq<u8>) -> Option<int>
    decreases s.len(),
{
    if s.len() == 0 {
        None
    } else if s.len() == 1 {
        hex_val(s[0])
    } else {
        match parse_hex(s.drop_last()) {
            None => None,
            Some(hi) => match hex_val(s.last()) {
                None => None,
                Some(d) => Some(hi * 16 + d),
            },
        }
    }
}

/// The sequence without its leading bytes equal to `c`.
pub open spec fn trim_lead(s: Seq<u8>, c: u8) -> Seq<u8>
    decreases s.len(),
{
    if s.len() > 0 && s[0] == c {
        trim_lead(s.drop_first(), c)
    } else {
        s
    }
}

/// The index of the first `#` in the sequence, or its length.
pub open spec fn first_hash(s: Seq<u8>) -> int
    decreases s.len(),
{
    if s.len() == 0 {
        0
    } else if s[0] == 0x23 {
        0
    } else {
        1 + first_hash(s.drop_first())
    }
}

/// True of the payload field separators: semicolon, colon and comma.
pub open spec fn is_separator(b: u8) -> bool {
    b == 0x3B || b == 0x3A || b == 0x2C
}

/// The payload split at its separators: one field per separator-free
/// run, with empty fields kept, so there is always at least one field.
pub open spec fn split_args(s: Seq<u8>) -> Seq<Seq<u8>>
    decreases s.len(),
{
    if s.len() == 0 {
        seq![Seq::<u8>::empty()]
    } else {
        let rest = split_args(s.drop_last());
        let b = s.last();
        if is_separator(b) {
            rest.push(Seq::<u8>::empty())
        } else {
            rest.update(rest.len() - 1, rest.last().push(b))
        }
    }
}

/// What parsing a raw packet yields. A packet without a `#` anywhere,
/// with more or fewer than two `#`-separated fields after the leading
/// acknowledgement bytes are trimmed, or with an unreadable checksum
/// field is malformed; one whose checksum does not match the sum of its
/// payload is rejected as a checksum mismatch; otherwise the payload is
/// split into fields, with the three prefixed query forms kept whole.
pub open spec fn parse_result(packet: Seq<u8>, r: Result<Vec<Vec<u8>>, ParseError>) -> bool {
    if !packet.contains(0x23u8) {
        r == Err::<Vec<Vec<u8>>, ParseError>(ParseError::MalformedPacket)
    } else {
        let t = trim_lead(trim_lead(packet, 0x2B), 0x2D);
        let h = first_hash(t);
        let data = t.take(h);
        let cs = t.skip(h + 1);
        if h >= t.len() || cs.contains(0x23u8) {
            r == Err::<Vec<Vec<u8>>, ParseError>(ParseError::MalformedPacket)
        } else {
            match parse_hex(cs) {
                None => r == Err::<Vec<Vec<u8>>, ParseError>(ParseError::MalformedPacket),
                Some(v) => if v != sum_bytes(data) % 256 {
                    r == Err::<Vec<Vec<u8>>, ParseError>(ParseError::IncorrectChecksum)
                } else {
                    fields_of(data, r)
                },
            }
        }
    }
}

/// The fields a payload yields: the three prefixed query forms are kept
/// as a single marker field; anything else is split at the separators.
pub open spec fn fields_of(data: Seq<u8>, r: Result<Vec<Vec<u8>>, ParseError>) -> bool {
    if data.len() >= 2 && data[0] == 0x71 && data[1] == 0x4C {
        r matches Ok(v) && v@.len() == 1 && v@[0]@ == seq![0x71u8, 0x4Cu8]
    } else if data.len() >= 2 && data[0] == 0x48 && data[1] == 0x63 {
        r matches Ok(v) && v@.len() == 1 && v@[0]@ == seq![0x48u8, 0x63u8]
    } else if data.len() >= 1 && data[0] == 0x70 {
        r matches Ok(v) && v@.len() == 1 && v@[0]@ == seq![0x70u8]
    } else {
        r matches Ok(v) && v@.len() == split_args(data).len() && forall|i: int|
            0 <= i < v@.len() ==> #[trigger] v@[i]@ == split_args(data)[i]
    }
}

impl RdbPacket {
    /// Split a payload into its argument fields: the three prefixed
    /// query forms stay whole, anything else is cut at semicolons,
    /// colons and commas.
    pub fn parse_data_arguments(data_raw: &[u8]) -> (r: Result<Vec<Vec<u8>>, ParseError>)
        ensures
            fields_of(data_raw@, r),
    {
        if data_raw.len() >= 2 && data_raw[0] == 0x71 && data_raw[1] == 0x4C {
            let mut field: Vec<u8> = Vec::new();
            field.push(0x71);
            field.push(0x4C);
            let mut fields: Vec<Vec<u8>> = Vec::new();
            fields.push(field);
            proof {
                assert(fields@[0]@ =~= seq![0x71u8, 0x4Cu8]);
            }
            return Ok(fields);
        }
        if data_raw.len() >= 2 && data_raw[0] == 0x48 && data_raw[1] == 0x63 {
            let mut field: Vec<u8> = Vec::new();
            field.push(0x48);
            field.push(0x63);
            let mut fields: Vec<Vec<u8>> = Vec::new();
            fields.push(field);
            proof {
                assert(fields@[0]@ =~= seq![0x48u8, 0x63u8]);
            }
            return Ok(fields);
        }
        if data_raw.len() >= 1 && data_raw[0] == 0x70 {
            let mut field: Vec<u8> = Vec::new();
            field.push(0x70);
            let mut fields: Vec<Vec<u8>> = Vec::new();
            fields.push(field);
            proof {
                assert(fields@[0]@ =~= seq![0x70u8]);
            }
            return Ok(fields);
        }
        let mut fields: Vec<Vec<u8>> = Vec::new();
        let mut cur: Vec<u8> = Vec::new();
        let mut i: usize = 0;
        while i < data_raw.len()
            invariant
                i <= data_raw@.len(),
                split_args(data_raw@.take(i as int)).len() == fields@.len() + 1,
                forall|k: int| 0 <= k < fields@.len()
                    ==> #[trigger] fields@[k]@ == split_args(data_raw@.take(i as int))[k],
                cur@ == split_args(data_raw@.take(i as int)).last(),
            decreases data_raw@.len() - i,
        {
            proof {
                assert(data_raw@.take(i + 1).drop_last() =~= data_raw@.take(i as int));
                assert(data_raw@.take(i + 1).last() == data_raw@[i as int]);
            }
            let b: u8 = data_raw[i];
            if b == 0x3B || b == 0x3A || b == 0x2C {
                fields.push(cur);
                cur = Vec::new();
            } else {
                cur.push(b);
            }
            i = i + 1;
        }
        proof {
            assert(data_raw@.take(data_raw@.len() as int) =~= data_raw@);
        }
        fields.push(cur);
        if fields.len() < 1 {
            return Err(ParseError::IncorrectArgumentCount);
        }
        Ok(fields)
    }


    /// Parse a raw packet: reject it when no `#` frame byte is present,
    /// when more than one `#` follows the trimmed acknowledgement
    /// bytes, or when the checksum field is unreadable; reject a
    /// checksum that does not match the payload's sum; and otherwise
    /// hand back the payload split into argument fields.
    #[verifier::rlimit(100)]
    pub fn parse(packet: &[u8]) -> (r: Result<RdbPacket, ParseError>)
        ensures
            r matches Ok(p) ==> parse_result(packet@, Ok(p.data)),
            r matches Err(e) ==> parse_result(packet@, Err(e)),
    {
        let n: usize = packet.len();
        // A packet must carry a frame byte somewhere.
        let mut found: bool = false;
        let mut i: usize = 0;
        while i < n
            invariant
                n == packet@.len(),
                i <= n,
                found == packet@.take(i as int).contains(0x23u8),
            decreases n - i,
        {
            proof {
                assert(packet@.take(i + 1).drop_last() =~= packet@.take(i as int));
            }
            let b: u8 = packet[i];
            if b == 0x23 {
                found = true;
            }
            proof {
                if b == 0x23 {
                    assert(packet@.take(i + 1)[i as int] == 0x23u8);
                } else {
                    if packet@.take(i + 1).contains(0x23u8) && !packet@.take(i as int).contains(
                        0x23u8,
                    ) {
                        let k = choose|k: int|
                            0 <= k < i + 1 && #[trigger] packet@.take(i + 1)[k] == 0x23u8;
                        assert(k == i);
                    }
                }
                if packet@.take(i as int).contains(0x23u8) {
                    let k = choose|k: int|
                        0 <= k < i && #[trigger] packet@.take(i as int)[k] == 0x23u8;
                    assert(packet@.take(i + 1)[k] == 0x23u8);
                }
            }
            i = i + 1;
        }
        proof {
            assert(packet@.take(n as int) =~= packet@);
        }
        if !found {
            return Err(ParseError::MalformedPacket);
        }
        // Trim leading acknowledgement bytes.
        let mut start: usize = 0;
        while start < n && packet[start] == 0x2B
            invariant
                n == packet@.len(),
                start <= n,
                trim_lead(packet@, 0x2B) == trim_lead(packet@.skip(start as int), 0x2B),
            decreases n - start,
        {
            proof {
                assert(packet@.skip(start as int).drop_first() =~= packet@.skip(start + 1));
            }
            start = start + 1;
        }
        proof {
            assert(trim_lead(packet@, 0x2B) == packet@.skip(start as int));
        }
        let plus_start: usize = start;
        while start < n && packet[start] == 0x2D
            invariant
                n == packet@.len(),
                plus_start <= start <= n,
                trim_lead(packet@, 0x2B) == packet@.skip(plus_start as int),
                trim_lead(packet@.skip(plus_start as int), 0x2D) == trim_lead(
                    packet@.skip(start as int),
                    0x2D,
                ),
            decreases n - start,
        {
            proof {
                assert(packet@.skip(start as int).drop_first() =~= packet@.skip(start + 1));
            }
            start = start + 1;
        }
        let ghost t = trim_lead(trim_lead(packet@, 0x2B), 0x2D);
        proof {
            assert(t == packet@.skip(start as int));
        }
        // Find the frame byte inside the trimmed packet.
        let mut j: usize = start;
        while j < n && packet[j] != 0x23
            invariant
                n == packet@.len(),
                start <= j <= n,
                t == packet@.skip(start as int),
                first_hash(t) == (j - start) + first_hash(packet@.skip(j as int)),
            decreases n - j,
        {
            proof {
                assert(packet@.skip(j as int).drop_first() =~= packet@.skip(j + 1));
            }
            j = j + 1;
        }
        proof {
            if j < n {
                assert(first_hash(packet@.skip(j as int)) == 0);
            } else {
                assert(packet@.skip(j as int) =~= Seq::<u8>::empty());
            }
        }
        if j >= n {
            proof {
                assert(first_hash(t) >= t.len());
            }
            return Err(ParseError::MalformedPacket);
        }
        let ghost h = first_hash(t);
        let ghost data = t.take(h);
        let ghost cs = t.skip(h + 1);
        proof {
            assert(h == j - start);
            assert(cs =~= packet@.skip(j + 1));
            assert(data =~= packet@.subrange(start as int, j as int));
        }
        // A second frame byte makes the packet malformed.
        let mut k: usize = j + 1;
        let mut second: bool = false;
        while k < n
            invariant
                n == packet@.len(),
                j + 1 <= k <= n,
                second == packet@.skip(j + 1).take(k - j - 1).contains(0x23u8),
            decreases n - k,
        {
            proof {
                assert(packet@.skip(j + 1).take(k - j) =~= packet@.skip(j + 1).take(
                    k - j - 1,
                ).push(packet@[k as int]));
                assert(packet@.skip(j + 1).take(k - j).drop_last() =~= packet@.skip(j + 1).take(
                    k - j - 1,
                ));
            }
            if packet[k] == 0x23 {
                second = true;
                proof {
                    assert(packet@.skip(j + 1).take(k - j).last() == 0x23u8);
                }
            }
            proof {
                if packet@.skip(j + 1).take(k - j).contains(0x23u8) && !packet@.skip(j + 1).take(
                    k - j - 1,
                ).contains(0x23u8) && packet@[k as int] != 0x23u8 {
                    let w = choose|w: int|
                        0 <= w < k - j && #[trigger] packet@.skip(j + 1).take(k - j)[w] == 0x23u8;
                    assert(w == k - j - 1);
                }
                if packet@.skip(j + 1).take(k - j - 1).contains(0x23u8) {
                    let w = choose|w: int|
                        0 <= w < k - j - 1 && #[trigger] packet@.skip(j + 1).take(k - j - 1)[w] == 0x23u8;
                    assert(packet@.skip(j + 1).take(k - j)[w] == 0x23u8);
                }
            }
            k = k + 1;
        }
        proof {
            assert(packet@.skip(j + 1).take(n - j - 1) =~= packet@.skip(j + 1));
        }
        if second {
            return Err(ParseError::MalformedPacket);
        }
        // Read the checksum field.
        let mut value: usize = 0;
        let mut valid: bool = true;
        let mut big: bool = false;
        let mut q: usize = j + 1;
        while q < n
            invariant
                n == packet@.len(),
                j + 1 <= q <= n,
                j < n,
                cs =~= packet@.skip(j + 1),
                value <= 0x10000F,
                q > j + 1 ==> {
                    let ph = parse_hex(cs.take(q - j - 1));
                    if valid {
                        &&& ph is Some
                        &&& (big ==> ph->Some_0 > 0xFF)
                        &&& (!big ==> ph->Some_0 == value)
                    } else {
                        ph is None
                    }
                },
                q == j + 1 ==> valid && value == 0 && !big,
            decreases n - q,
        {
            proof {
                assert(cs.take(q - j) =~= cs.take(q - j - 1).push(packet@[q as int]));
                assert(cs.take(q - j).drop_last() =~= cs.take(q - j - 1));
                assert(cs.take(q - j).last() == packet@[q as int]);
            }
            let b: u8 = packet[q];
            let mut d: usize = 0;
            if 0x30 <= b && b <= 0x39 {
                d = (b - 0x30) as usize;
            } else if 0x41 <= b && b <= 0x46 {
                d = (b - 0x41 + 10) as usize;
            } else if 0x61 <= b && b <= 0x66 {
                d = (b - 0x61 + 10) as usize;
            } else {
                valid = false;
            }
            if valid {
                if value > 0xFFFF {
                    big = true;
                }
                if !big {
                    value = value * 16 + d;
                }
            }
            q = q + 1;
        }
        proof {
            assert(cs.take(n - j - 1) =~= cs);
        }
        if j + 1 == n {
            proof {
                assert(cs =~= Seq::<u8>::empty());
            }
            return Err(ParseError::MalformedPacket);
        }
        if !valid {
            return Err(ParseError::MalformedPacket);
        }
        // Sum the payload bytes.
        let mut checksum: usize = 0;
        let mut p: usize = start;
        while p < j
            invariant
                n == packet@.len(),
                start <= p <= j < n,
                data =~= packet@.subrange(start as int, j as int),
                checksum == sum_bytes(packet@.subrange(start as int, p as int)) % 256,
            decreases j - p,
        {
            proof {
                assert(packet@.subrange(start as int, p + 1).drop_last() =~= packet@.subrange(
                    start as int,
                    p as int,
                ));
                assert(packet@.subrange(start as int, p + 1).last() == packet@[p as int]);
            }
            checksum = (checksum + packet[p] as usize) % 256;
            p = p + 1;
        }
        if big || value != checksum {
            proof {
                assert(parse_hex(cs) is Some);
                assert(parse_hex(cs)->Some_0 != sum_bytes(data) % 256);
            }
            return Err(ParseError::IncorrectChecksum);
        }
        // Split the payload into fields.
        let mut data_vec: Vec<u8> = Vec::new();
        let mut c: usize = start;
        while c < j
            invariant
                n == packet@.len(),
                start <= c <= j < n,
                data_vec@ == packet@.subrange(start as int, c as int),
            decreases j - c,
        {
            data_vec.push(packet[c]);
            proof {
                assert(packet@.subrange(start as int, c + 1) =~= packet@.subrange(
                    start as int,
                    c as int,
                ).push(packet@[c as int]));
            }
            c = c + 1;
        }
        match Self::parse_data_arguments(data_vec.as_slice()) {
            Ok(fields) => Ok(RdbPacket { data: fields }),
            Err(e) => Err(e),
        }
    }

    /// Frame a response: a `$`, the payload, a `#` and the two
    /// uppercase hexadecimal digits of the payload's checksum.
    pub fn packetify(response: &[u8]) -> (r: Vec<u8>)
        ensures
            r@ == seq![0x24u8] + response@ + seq![
                0x23u8,
                hex_digit((sum_bytes(response@) % 256) / 16),
                hex_digit((sum_bytes(response@) % 256) % 16),
            ],
    {
        let mut checksum: usize = 0;
        let mut i: usize = 0;
        while i < response.len()
            invariant
                i <= response@.len(),
                checksum == sum_bytes(response@.take(i as int)) % 256,
            decreases response@.len() - i,
        {
            proof {
                assert(response@.take(i + 1).drop_last() =~= response@.take(i as int));
                assert(response@.take(i + 1).last() == response@[i as int]);
            }
            checksum = (checksum + response[i] as usize) % 256;
            i = i + 1;
        }
        proof {
            assert(response@.take(response@.len() as int) =~= response@);
        }
        let mut out: Vec<u8> = Vec::new();
        out.push(0x24);
        let mut j: usize = 0;
        while j < response.len()
            invariant
                j <= response@.len(),
                out@ == seq![0x24u8] + response@.take(j as int),
            decreases response@.len() - j,
        {
            out.push(response[j]);
            proof {
                assert(seq![0x24u8] + response@.take(j + 1) =~= (seq![0x24u8] + response@.take(
                    j as int,
                )).push(response@[j as int]));
            }
            j = j + 1;
        }
        proof {
            assert(response@.take(response@.len() as int) =~= response@);
        }
        out.push(0x23);
        let hi: usize = checksum / 16;
        let lo: usize = checksum % 16;
        let hi_d: u8 = if hi < 10 {
            (0x30 + hi) as u8
        } else {
            (0x37 + hi) as u8
        };
        let lo_d: u8 = if lo < 10 {
            (0x30 + lo) as u8
        } else {
            (0x37 + lo) as u8
        };
        out.push(hi_d);
        out.push(lo_d);
        proof {
            assert(out@ =~= seq![0x24u8] + response@ + seq![
                0x23u8,
                hex_digit((sum_bytes(response@) % 256) / 16),
                hex_digit((sum_bytes(response@) % 256) % 16),
            ]);
        }
        out
    }
}

} // verus!
