//! Encrypted chat-history framing: an append-only log of entries, each a
//! 4-byte little-endian length, a 12-byte nonce, and the ciphertext. The file
//! I/O around the framing is the caller's concern.

use crate::crypto;
use crate::crypto::{aead_sealable, seal_of};
use crate::ratchet::le32;
use vstd::prelude::*;

verus! {

/// Encrypted chat-history storage: where the log lives and the key its
/// entries are sealed under.
pub struct HistoryStorage {
    pub path: String,
    pub key: Vec<u8>,
}

/// The little-endian 32-bit length field at the front of a frame.
pub open spec fn frame_len(data: Seq<u8>) -> u64
    recommends
        data.len() >= 4,
{
    (data[0] as u64) | ((data[1] as u64) << 8) | ((data[2] as u64) << 16) | ((data[3] as u64)
        << 24)
}

/// The plaintext a frame body decrypts to under `key`: the unique preimage
/// when the ciphertext is authentic, nothing otherwise.
pub open spec fn frame_plaintext(key: Seq<u8>, nonce: Seq<u8>, ct: Seq<u8>) -> Option<Seq<u8>> {
    if exists|pt: Seq<u8>| ct == seal_of(key, nonce, pt) {
        Some(choose|pt: Seq<u8>| ct == seal_of(key, nonce, pt))
    } else {
        None
    }
}

/// Reading a log from the front: each entry is a length field and a body;
/// every decryptable body contributes its plaintext, in order; bodies that
/// are too short for a nonce or fail to decrypt are skipped; a truncated tail
/// stops the read.
pub open spec fn log_plaintexts(key: Seq<u8>, data: Seq<u8>) -> Seq<Seq<u8>>
    decreases data.len(),
{
    if data.len() < 4 {
        seq![]
    } else {
        let n = frame_len(data) as int;
        if 4 + n > data.len() {
            seq![]
        } else {
            let head = if n >= 12 {
                match frame_plaintext(key, data.subrange(4, 16), data.subrange(16, 4 + n)) {
                    Some(pt) => seq![pt],
                    None => seq![],
                }
            } else {
                seq![]
            };
            head + log_plaintexts(key, data.skip(4 + n))
        }
    }
}

/// A plaintext `pt` stands somewhere in the log `data` as an authentic
/// sealed frame under `key`.
pub open spec fn sealed_in_log(key: Seq<u8>, data: Seq<u8>, pt: Seq<u8>) -> bool {
    exists|off: int, clen: int|
        {
            &&& 0 <= off
            &&& 0 <= clen
            &&& off + 12 + clen <= data.len()
            &&& #[trigger] data.subrange(off + 12, off + 12 + clen) == seal_of(
                key,
                data.subrange(off, off + 12),
                pt,
            )
        }
}

/// The accumulated output is the whole parse of the log.
spec fn parsed_whole(key: Seq<u8>, data: Seq<u8>, out: Seq<Vec<u8>>) -> bool {
    out.map_values(|v: Vec<u8>| v@) == log_plaintexts(key, data)
}

impl HistoryStorage {
    /// The sealing key, as a mathematical value.
    pub open spec fn key(&self) -> Seq<u8> {
        self.key@
    }

    pub fn new(path: String, encryption_key: &[u8]) -> (r: HistoryStorage)
        ensures
            r.path@ == path@,
            r.key() == encryption_key@,
    {
        let mut key: Vec<u8> = Vec::new();
        let mut i: usize = 0;
        while i < encryption_key.len()
            invariant
                i <= encryption_key@.len(),
                key@ == encryption_key@.take(i as int),
            decreases encryption_key@.len() - i,
        {
            key.push(encryption_key[i]);
            proof {
                assert(key@ =~= encryption_key@.take(i + 1));
            }
            i = i + 1;
        }
        proof {
            assert(key@ =~= encryption_key@);
        }
        HistoryStorage { path, key }
    }

    /// Frame one serialized message for the log: length prefix, random nonce,
    /// ciphertext. Fails exactly when the key is not 32 bytes.
    pub fn encode_entry(&self, msg: &[u8]) -> (r: Result<Vec<u8>, crypto::CryptoError>)
        requires
            aead_sealable(msg@),
            msg@.len() + 28 <= u32::MAX,
        ensures
            r is Ok <==> self.key().len() == 32,
            match r {
                Ok(out) => {
                    &&& out@.len() == msg@.len() + 32
                    &&& exists|nonce: Seq<u8>|
                        nonce.len() == 12 && out@ == le32((msg@.len() + 28) as u32) + nonce
                            + #[trigger] seal_of(self.key(), nonce, msg@)
                    &&& sealed_in_log(self.key(), out@, msg@)
                },
                Err(e) => e == crypto::CryptoError::InvalidKeyLength,
            },
    {
        let (nonce, ct) = match crypto::encrypt_message(self.key.as_slice(), msg) {
            Ok(p) => p,
            Err(e) => {
                return Err(e);
            },
        };
        let total = (nonce.len() + ct.len()) as u32;
        proof {
            assert(total == (msg@.len() + 28) as u32);
        }
        let mut out: Vec<u8> = Vec::new();
        out.push((total & 0xff) as u8);
        out.push(((total >> 8) & 0xff) as u8);
        out.push(((total >> 16) & 0xff) as u8);
        out.push(((total >> 24) & 0xff) as u8);
        let ghost noncev = nonce@;
        let ghost ctv = ct@;
        let mut nonce = nonce;
        let mut ct = ct;
        out.append(&mut nonce);
        out.append(&mut ct);
        proof {
            assert(out@ =~= le32((msg@.len() + 28) as u32) + noncev + ctv);
            assert(out@.subrange(4, 16) =~= noncev);
            assert(out@.subrange(16, 16 + ctv.len() as int) =~= ctv);
            assert(sealed_in_log(self.key(), out@, msg@)) by {
                assert(out@.subrange(16int, 16 + ctv.len() as int) == seal_of(
                    self.key(),
                    out@.subrange(4int, 16int),
                    msg@,
                ));
            }
        }
        Ok(out)
    }

    /// Read every decryptable entry out of a log, in order: the result is
    /// exactly `log_plaintexts` of the log under this key. Truncated or
    /// undecryptable entries are skipped, and every plaintext returned stands
    /// in the log as an authentic frame.
    pub fn decode_entries(&self, data: &[u8]) -> (r: Vec<Vec<u8>>)
        requires
            self.key().len() == 32,
        ensures
            r@.map_values(|v: Vec<u8>| v@) == log_plaintexts(self.key(), data@),
            forall|k: int|
                0 <= k < r@.len() ==> sealed_in_log(self.key(), data@, (#[trigger] r@[k])@),
    {
        let mut out: Vec<Vec<u8>> = Vec::new();
        let mut pos: usize = 0;
        let n = data.len();
        proof {
            assert(data@.skip(0) =~= data@);
        }
        while pos < n
            invariant
                pos <= n,
                n == data@.len(),
                self.key().len() == 32,
                log_plaintexts(self.key(), data@) == out@.map_values(|v: Vec<u8>| v@)
                    + log_plaintexts(self.key(), data@.skip(pos as int)),
                forall|k: int|
                    0 <= k < out@.len() ==> sealed_in_log(self.key(), data@, (#[trigger] out@[k])@),
            decreases n - pos,
        {
            let ghost tail = data@.skip(pos as int);
            if n - pos < 4 {
                proof {
                    assert(log_plaintexts(self.key(), tail) =~= Seq::<Seq<u8>>::empty());
                    assert(parsed_whole(self.key(), data@, out@));
                }
                return out;
            }
            let len = (data[pos] as u64) | (data[pos + 1] as u64) << 8 | (data[pos
                + 2] as u64) << 16 | (data[pos + 3] as u64) << 24;
            proof {
                assert(tail[0] == data@[pos as int] && tail[1] == data@[pos + 1] && tail[2]
                    == data@[pos + 2] && tail[3] == data@[pos + 3]);
                assert(frame_len(tail) == len);
            }
            let body_start = pos + 4;
            if len > (n - body_start) as u64 {
                // Truncated entry: stop here.
                proof {
                    assert(4 + frame_len(tail) as int > tail.len());
                    assert(log_plaintexts(self.key(), tail) =~= Seq::<Seq<u8>>::empty());
                    assert(parsed_whole(self.key(), data@, out@));
                }
                return out;
            }
            let body_len = len as usize;
            let ghost head = if body_len >= 12 {
                match frame_plaintext(
                    self.key(),
                    tail.subrange(4, 16),
                    tail.subrange(16, 4 + body_len as int),
                ) {
                    Some(pt) => seq![pt],
                    None => Seq::<Seq<u8>>::empty(),
                }
            } else {
                Seq::<Seq<u8>>::empty()
            };
            proof {
                assert(log_plaintexts(self.key(), tail) == head + log_plaintexts(
                    self.key(),
                    tail.skip(4 + body_len as int),
                ));
                assert(tail.skip(4 + body_len as int) =~= data@.skip(pos + 4 + body_len));
            }
            if body_len >= 12 {
                let nonce = crypto::slice_suffix(data, body_start);
                let mut nonce = nonce;
                nonce.truncate(12);
                let ct_start = body_start + 12;
                let ct_full = crypto::slice_suffix(data, ct_start);
                let mut ct = ct_full;
                ct.truncate(body_len - 12);
                proof {
                    assert(nonce@ =~= data@.subrange(body_start as int, body_start + 12));
                    assert(ct@ =~= data@.subrange(ct_start as int, ct_start + (body_len - 12)));
                    assert(nonce@ =~= tail.subrange(4, 16));
                    assert(ct@ =~= tail.subrange(16, 4 + body_len as int));
                }
                let ghost prev = out@;
                match crypto::decrypt_message(self.key.as_slice(), nonce.as_slice(), ct.as_slice()) {
                    Ok(pt) => {
                        proof {
                            assert(sealed_in_log(self.key(), data@, pt@)) by {
                                assert(data@.subrange(
                                    body_start + 12,
                                    body_start + 12 + (body_len - 12),
                                ) == seal_of(
                                    self.key(),
                                    data@.subrange(body_start as int, body_start + 12),
                                    pt@,
                                ));
                            }
                            // The chosen preimage is the returned plaintext.
                            assert(head =~= seq![pt@]) by {
                                let chosen = choose|p: Seq<u8>|
                                    ct@ == seal_of(self.key(), nonce@, p);
                                assert(ct@ == seal_of(self.key(), nonce@, chosen));
                            }
                        }
                        out.push(pt);
                        proof {
                            assert(out@.map_values(|v: Vec<u8>| v@) =~= prev.map_values(
                                |v: Vec<u8>| v@,
                            ) + head);
                        }
                    },
                    Err(_) => {
                        proof {
                            assert(forall|p: Seq<u8>| ct@ != seal_of(self.key(), nonce@, p));
                            assert(head =~= Seq::<Seq<u8>>::empty());
                            assert(out@.map_values(|v: Vec<u8>| v@) =~= prev.map_values(
                                |v: Vec<u8>| v@,
                            ) + head);
                        }
                    },
                }
            } else {
                proof {
                    assert(head =~= Seq::<Seq<u8>>::empty());
                    assert(out@.map_values(|v: Vec<u8>| v@) + head =~= out@.map_values(
                        |v: Vec<u8>| v@,
                    ));
                }
            }
            pos = body_start + body_len;
        }
        proof {
            assert(data@.skip(n as int).len() == 0);
            assert(log_plaintexts(self.key(), data@.skip(n as int)) =~= Seq::<Seq<u8>>::empty());
            assert(parsed_whole(self.key(), data@, out@));
        }
        out
    }
}

} // verus!
