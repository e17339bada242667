//! Safety numbers for verifying end-to-end encrypted sessions.
//!
//! Both peers derive the same safety number from their identity public keys;
//! comparing the renderings out of band rules out a man-in-the-middle.

use crate::crypto;
use crate::crypto::sha256_of;
use crate::ratchet::le32;
use crate::{bytes_lt, lemma_lex_lt_total, lex_lt};
use vstd::prelude::*;
use vstd::string::*;

verus! {

/// The hashed material: a domain separator, then both keys in lexicographic
/// order, each preceded by its little-endian 32-bit length.
pub open spec fn safety_input(a: Seq<u8>, b: Seq<u8>) -> Seq<u8> {
    let first = if lex_lt(b, a) {
        b
    } else {
        a
    };
    let second = if lex_lt(b, a) {
        a
    } else {
        b
    };
    "WSP-SAFETY-NUMBER-v1".spec_bytes() + le32(first.len() as u32) + first + le32(
        second.len() as u32,
    ) + second
}

/// The digest both sides derive.
pub open spec fn safety_hash(a: Seq<u8>, b: Seq<u8>) -> Seq<u8> {
    sha256_of(safety_input(a, b))
}

/// Law (safety-number symmetry): the safety number is the same from either
/// side's point of view.
pub proof fn lemma_safety_number_symmetric(a: Seq<u8>, b: Seq<u8>)
    ensures
        safety_hash(a, b) == safety_hash(b, a),
{
    lemma_lex_lt_total(a, b);
    if !lex_lt(a, b) && !lex_lt(b, a) {
        assert(a == b);
    }
    assert(safety_input(a, b) == safety_input(b, a));
}

/// A computed safety number that can be displayed in multiple formats.
pub struct SafetyNumber {
    hash: Vec<u8>,
}

/// Compute a safety number from two identity public keys. The keys are
/// sorted before hashing, so both sides produce the same result.
pub fn compute_safety_number(my_pubkey: &[u8], peer_pubkey: &[u8]) -> (r: SafetyNumber)
    requires
        my_pubkey@.len() <= u32::MAX,
        peer_pubkey@.len() <= u32::MAX,
    ensures
        r.wf(),
        r.hash() == safety_hash(my_pubkey@, peer_pubkey@),
{
    let swap = bytes_lt(peer_pubkey, my_pubkey);
    let mut input: Vec<u8> = Vec::new();
    let tag = "WSP-SAFETY-NUMBER-v1".as_bytes();
    let mut i: usize = 0;
    while i < tag.len()
        invariant
            i <= tag@.len(),
            input@ == tag@.take(i as int),
        decreases tag@.len() - i,
    {
        input.push(tag[i]);
        proof {
            assert(input@ =~= tag@.take(i + 1));
        }
        i = i + 1;
    }
    proof {
        assert(input@ =~= tag@);
    }
    let (first, second) = if swap {
        (peer_pubkey, my_pubkey)
    } else {
        (my_pubkey, peer_pubkey)
    };
    push_len_and_bytes(&mut input, first);
    push_len_and_bytes(&mut input, second);
    proof {
        assert(input@ =~= safety_input(my_pubkey@, peer_pubkey@));
    }
    let hash = crypto::sha256_hash(input.as_slice());
    SafetyNumber { hash }
}

/// Append a byte string preceded by its little-endian 32-bit length.
fn push_len_and_bytes(out: &mut Vec<u8>, data: &[u8])
    requires
        data@.len() <= u32::MAX,
    ensures
        final(out)@ == old(out)@ + le32(data@.len() as u32) + data@,
{
    let ghost mid = old(out)@ + le32(data@.len() as u32);
    let len = data.len() as u32;
    out.push((len & 0xff) as u8);
    out.push(((len >> 8) & 0xff) as u8);
    out.push(((len >> 16) & 0xff) as u8);
    out.push(((len >> 24) & 0xff) as u8);
    proof {
        assert(out@ =~= mid);
    }
    let mut i: usize = 0;
    while i < data.len()
        invariant
            i <= data@.len(),
            out@ == mid + data@.take(i as int),
        decreases data@.len() - i,
    {
        out.push(data[i]);
        proof {
            assert(out@ =~= mid + data@.take(i + 1));
        }
        i = i + 1;
    }
    proof {
        assert(out@ =~= mid + data@);
    }
}

/// The decimal digit character for a value below ten.
pub open spec fn digit_char(d: nat) -> char {
    if d == 0 {
        '0'
    } else if d == 1 {
        '1'
    } else if d == 2 {
        '2'
    } else if d == 3 {
        '3'
    } else if d == 4 {
        '4'
    } else if d == 5 {
        '5'
    } else if d == 6 {
        '6'
    } else if d == 7 {
        '7'
    } else if d == 8 {
        '8'
    } else {
        '9'
    }
}

/// A value below 100000 rendered as exactly five decimal digits.
pub open spec fn five_digits(v: nat) -> Seq<char> {
    seq![
        digit_char(v / 10000 % 10),
        digit_char(v / 1000 % 10),
        digit_char(v / 100 % 10),
        digit_char(v / 10 % 10),
        digit_char(v % 10),
    ]
}

/// The i-th five-digit group: four hash bytes read little-endian, reduced
/// modulo 100000.
pub open spec fn group_val(h: Seq<u8>, i: int) -> nat {
    (((h[4 * i] as u32) | (h[4 * i + 1] as u32) << 8 | (h[4 * i + 2] as u32) << 16 | (h[4 * i
        + 3] as u32) << 24) % 100000) as nat
}

/// The numeric rendering: five five-digit groups separated by spaces.
pub open spec fn numeric_render(h: Seq<u8>) -> Seq<char> {
    five_digits(group_val(h, 0)) + seq![' '] + five_digits(group_val(h, 1)) + seq![' ']
        + five_digits(group_val(h, 2)) + seq![' '] + five_digits(group_val(h, 3)) + seq![' ']
        + five_digits(group_val(h, 4))
}

/// The short numeric rendering: the first three groups only.
pub open spec fn short_numeric_render(h: Seq<u8>) -> Seq<char> {
    five_digits(group_val(h, 0)) + seq![' '] + five_digits(group_val(h, 1)) + seq![' ']
        + five_digits(group_val(h, 2))
}

/// The decimal digit as a one-character string slice.
fn digit_str(d: u32) -> (r: &'static str)
    requires
        d < 10,
    ensures
        r@ == seq![digit_char(d as nat)],
{
    if d == 0 {
        proof {
            reveal_strlit("0");
        }
        "0"
    } else if d == 1 {
        proof {
            reveal_strlit("1");
        }
        "1"
    } else if d == 2 {
        proof {
            reveal_strlit("2");
        }
        "2"
    } else if d == 3 {
        proof {
            reveal_strlit("3");
        }
        "3"
    } else if d == 4 {
        proof {
            reveal_strlit("4");
        }
        "4"
    } else if d == 5 {
        proof {
            reveal_strlit("5");
        }
        "5"
    } else if d == 6 {
        proof {
            reveal_strlit("6");
        }
        "6"
    } else if d == 7 {
        proof {
            reveal_strlit("7");
        }
        "7"
    } else if d == 8 {
        proof {
            reveal_strlit("8");
        }
        "8"
    } else {
        proof {
            reveal_strlit("9");
        }
        "9"
    }
}

impl SafetyNumber {
    /// The digest, as a mathematical value.
    pub closed spec fn hash(&self) -> Seq<u8> {
        self.hash@
    }

    /// A well-formed safety number holds a 32-byte digest.
    pub open spec fn wf(&self) -> bool {
        self.hash().len() == 32
    }

    /// Append the five-digit group `i` to a string.
    fn push_group(&self, out: &mut String, i: usize)
        requires
            self.wf(),
            i < 5,
        ensures
            final(out)@ == old(out)@ + five_digits(group_val(self.hash(), i as int)),
    {
        let b0 = self.hash[4 * i] as u32;
        let b1 = self.hash[4 * i + 1] as u32;
        let b2 = self.hash[4 * i + 2] as u32;
        let b3 = self.hash[4 * i + 3] as u32;
        let val = (b0 | b1 << 8 | b2 << 16 | b3 << 24) % 100000;
        out.append(digit_str(val / 10000 % 10));
        out.append(digit_str(val / 1000 % 10));
        out.append(digit_str(val / 100 % 10));
        out.append(digit_str(val / 10 % 10));
        out.append(digit_str(val % 10));
        proof {
            assert(final(out)@ =~= old(out)@ + five_digits(group_val(self.hash(), i as int)));
        }
    }

    /// Format as a numeric code: five groups of five digits.
    pub fn numeric(&self) -> (r: String)
        requires
            self.wf(),
        ensures
            r@ == numeric_render(self.hash()),
    {
        let mut out = String::new();
        let space = space_str();
        self.push_group(&mut out, 0);
        out.append(space);
        self.push_group(&mut out, 1);
        out.append(space);
        self.push_group(&mut out, 2);
        out.append(space);
        self.push_group(&mut out, 3);
        out.append(space);
        self.push_group(&mut out, 4);
        proof {
            assert(out@ =~= numeric_render(self.hash()));
        }
        out
    }

    /// Short numeric code (first three groups) for compact display.
    pub fn short_numeric(&self) -> (r: String)
        requires
            self.wf(),
        ensures
            r@ == short_numeric_render(self.hash()),
    {
        let mut out = String::new();
        let space = space_str();
        self.push_group(&mut out, 0);
        out.append(space);
        self.push_group(&mut out, 1);
        out.append(space);
        self.push_group(&mut out, 2);
        proof {
            assert(out@ =~= short_numeric_render(self.hash()));
        }
        out
    }

    /// Format as an emoji fingerprint: eight emojis picked by hash bytes
    /// twenty through twenty-seven.
    pub fn emoji(&self) -> (r: String)
        requires
            self.wf(),
        ensures
            r@ == emoji_render(self.hash()),
    {
        let mut out = String::new();
        let mut i: usize = 20;
        while i < 28
            invariant
                20 <= i <= 28,
                self.wf(),
                out@ == emoji_render_up_to(self.hash(), i as int),
            decreases 28 - i,
        {
            out.append(emoji_at((self.hash[i] % 64) as usize));
            proof {
                assert(out@ =~= emoji_render_up_to(self.hash(), i + 1));
            }
            i = i + 1;
        }
        proof {
            assert(out@ =~= emoji_render(self.hash()));
        }
        out
    }
}

/// A single space as a string slice.
fn space_str() -> (r: &'static str)
    ensures
        r@ == seq![' '],
{
    proof {
        reveal_strlit(" ");
    }
    " "
}

/// The emoji fingerprint: one alphabet entry for each of the hash bytes
/// twenty through twenty-seven, concatenated.
pub open spec fn emoji_render(h: Seq<u8>) -> Seq<char> {
    emoji_render_up_to(h, 28)
}

/// The emoji rendering of hash bytes twenty up to (but not including) `i`.
pub open spec fn emoji_render_up_to(h: Seq<u8>, i: int) -> Seq<char>
    decreases i,
{
    if i <= 20 {
        seq![]
    } else {
        emoji_render_up_to(h, i - 1) + emoji_table((h[i - 1] % 64) as int)
    }
}

/// The 64-entry emoji alphabet.
pub open spec fn emoji_table(i: int) -> Seq<char> {
    emoji_alphabet()[i]
}

/// The alphabet used for visual fingerprints: 64 distinct, easy to tell apart.
pub open spec fn emoji_alphabet() -> Seq<Seq<char>> {
    seq![
        "🔑"@, "🌊"@, "🎸"@, "🏔️"@, "🦊"@, "🌙"@, "⚡"@, "🎯"@,
        "🦋"@, "🌺"@, "🎪"@, "🚀"@, "🐉"@, "💎"@, "🌈"@, "🔥"@,
        "🎭"@, "🦁"@, "🌻"@, "⭐"@, "🎵"@, "🐺"@, "🌴"@, "🎲"@,
        "🦅"@, "🌸"@, "🎩"@, "💫"@, "🐬"@, "🌿"@, "🎪"@, "🔮"@,
        "🦜"@, "🌾"@, "🎻"@, "🌟"@, "🐙"@, "🍀"@, "🎨"@, "💥"@,
        "🦈"@, "🌵"@, "🎹"@, "✨"@, "🐝"@, "🌹"@, "🎬"@, "🌊"@,
        "🦉"@, "🍁"@, "🎺"@, "💠"@, "🐋"@, "🌼"@, "🎳"@, "🔷"@,
        "🦚"@, "🌱"@, "🎷"@, "💜"@, "🐧"@, "🌳"@, "🎶"@, "🔶"@,
    ]
}

/// The alphabet entry for an index below 64.
fn emoji_at(i: usize) -> (r: &'static str)
    requires
        i < 64,
    ensures
        r@ == emoji_table(i as int),
{
    if i < 32 {
        if i < 16 {
            if i < 8 {
                match i {
                    0 => "🔑",
                    1 => "🌊",
                    2 => "🎸",
                    3 => "🏔️",
                    4 => "🦊",
                    5 => "🌙",
                    6 => "⚡",
                    _ => "🎯",
                }
            } else {
                match i {
                    8 => "🦋",
                    9 => "🌺",
                    10 => "🎪",
                    11 => "🚀",
                    12 => "🐉",
                    13 => "💎",
                    14 => "🌈",
                    _ => "🔥",
                }
            }
        } else {
            if i < 24 {
                match i {
                    16 => "🎭",
                    17 => "🦁",
                    18 => "🌻",
                    19 => "⭐",
                    20 => "🎵",
                    21 => "🐺",
                    22 => "🌴",
                    _ => "🎲",
                }
            } else {
                match i {
                    24 => "🦅",
                    25 => "🌸",
                    26 => "🎩",
                    27 => "💫",
                    28 => "🐬",
                    29 => "🌿",
                    30 => "🎪",
                    _ => "🔮",
                }
            }
        }
    } else {
        if i < 48 {
            if i < 40 {
                match i {
                    32 => "🦜",
                    33 => "🌾",
                    34 => "🎻",
                    35 => "🌟",
                    36 => "🐙",
                    37 => "🍀",
                    38 => "🎨",
                    _ => "💥",
                }
            } else {
                match i {
                    40 => "🦈",
                    41 => "🌵",
                    42 => "🎹",
                    43 => "✨",
                    44 => "🐝",
                    45 => "🌹",
                    46 => "🎬",
                    _ => "🌊",
                }
            }
        } else {
            if i < 56 {
                match i {
                    48 => "🦉",
                    49 => "🍁",
                    50 => "🎺",
                    51 => "💠",
                    52 => "🐋",
                    53 => "🌼",
                    54 => "🎳",
                    _ => "🔷",
                }
            } else {
                match i {
                    56 => "🦚",
                    57 => "🌱",
                    58 => "🎷",
                    59 => "💜",
                    60 => "🐧",
                    61 => "🌳",
                    62 => "🎶",
                    _ => "🔶",
                }
            }
        }
    }
}

} // verus!
