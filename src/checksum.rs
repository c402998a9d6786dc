//! Output-descriptor checksums: the eight-character BCH code that wallets
//! append to a descriptor string after a `#`.
use vstd::prelude::*;
use crate::codec::collect_string;

verus! {

/// The characters a descriptor may hold, in the order that gives each its value.
pub open spec fn input_charset() -> Seq<char> {
    "0123456789()[],'/*abcdefgh@:$%{}IJKLMNOPQRSTUVWXYZ&+-.;<=>?!^_|~ijklmnopqrstuvwxyzABCDEFGH`#\"\\ "@
}

/// The 32 characters of the checksum alphabet.
pub open spec fn checksum_charset() -> Seq<char> {
    "qpzry9x8gf2tvdw0s3jn54khce6mua7l"@
}

/// The position of the first occurrence of `c` in `s`.
pub open spec fn is_first_index(s: Seq<char>, c: char, j: int) -> bool {
    &&& 0 <= j < s.len()
    &&& s[j] == c
    &&& forall|k: int| 0 <= k < j ==> s[k] != c
}

pub open spec fn first_index(s: Seq<char>, c: char) -> int {
    choose|j: int| is_first_index(s, c, j)
}

/// Whether every character of `s` may stand in a descriptor.
pub open spec fn is_descriptor_text(s: Seq<char>) -> bool {
    forall|i: int| 0 <= i < s.len() ==> input_charset().contains(#[trigger] s[i])
}

/// One step of the checksum's polynomial reduction over GF(32).
pub open spec fn poly_mod_spec(c: u64, val: u64) -> u64 {
    let c0 = c >> 35u64;
    let c1 = ((c & 0x7ffffffffu64) << 5u64) ^ val;
    let c2 = if c0 & 1u64 != 0 { c1 ^ 0xf5dee51989u64 } else { c1 };
    let c3 = if c0 & 2u64 != 0 { c2 ^ 0xa9fdca3312u64 } else { c2 };
    let c4 = if c0 & 4u64 != 0 { c3 ^ 0x1bab10e32du64 } else { c3 };
    let c5 = if c0 & 8u64 != 0 { c4 ^ 0x3706b1677au64 } else { c4 };
    if c0 & 16u64 != 0 { c5 ^ 0x644d626ffdu64 } else { c5 }
}

/// Feeds the value of one descriptor character into the state
/// `(c, cls, clscount)`: its low five bits go in at once, its high bits are
/// gathered three characters at a time.
pub open spec fn absorb(st: (u64, u64, u64), pos: u64) -> (u64, u64, u64) {
    let c = poly_mod_spec(st.0, pos & 31u64);
    let cls = (st.1 * 3 + (pos >> 5u64)) as u64;
    let count = (st.2 + 1) as u64;
    if count == 3 {
        (poly_mod_spec(c, cls), 0u64, 0u64)
    } else {
        (c, cls, count)
    }
}

/// The state after all characters of `s`.
pub open spec fn scan(s: Seq<char>) -> (u64, u64, u64)
    decreases s.len(),
{
    if s.len() == 0 {
        (1u64, 0u64, 0u64)
    } else {
        absorb(scan(s.drop_last()), first_index(input_charset(), s.last()) as u64)
    }
}

/// `n` further reductions by a zero value.
pub open spec fn pad(c: u64, n: nat) -> u64
    decreases n,
{
    if n == 0 {
        c
    } else {
        poly_mod_spec(pad(c, (n - 1) as nat), 0u64)
    }
}

/// The 40-bit checksum value of a descriptor.
pub open spec fn checksum_value(s: Seq<char>) -> u64 {
    let st = scan(s);
    let c = if st.2 > 0 { poly_mod_spec(st.0, st.1) } else { st.0 };
    pad(c, 8) ^ 1u64
}

/// The checksum as eight characters, five bits each, most significant first.
pub open spec fn checksum_text(s: Seq<char>) -> Seq<char> {
    Seq::new(
        8,
        |j: int| checksum_charset()[((checksum_value(s) >> ((5 * (7 - j)) as u64)) & 31u64) as int],
    )
}

pub fn poly_mod(c: u64, val: u64) -> (r: u64)
    ensures
        r == poly_mod_spec(c, val),
{
    let c0 = c >> 35u64;
    let mut c = ((c & 0x7ffffffffu64) << 5u64) ^ val;
    if c0 & 1 > 0 {
        c = c ^ 0xf5dee51989u64;
    }
    if c0 & 2 > 0 {
        c = c ^ 0xa9fdca3312u64;
    }
    if c0 & 4 > 0 {
        c = c ^ 0x1bab10e32du64;
    }
    if c0 & 8 > 0 {
        c = c ^ 0x3706b1677au64;
    }
    if c0 & 16 > 0 {
        c = c ^ 0x644d626ffdu64;
    }
    c
}

proof fn lemma_first_index(s: Seq<char>, c: char, j: int)
    requires
        is_first_index(s, c, j),
    ensures
        first_index(s, c) == j,
{
    let k = first_index(s, c);
    assert(is_first_index(s, c, k));
    if k < j {
        assert(s[k] != c);
    } else if j < k {
        assert(s[j] != c);
    }
}

/// The value of a descriptor character: its place in the descriptor alphabet.
fn char_position(ch: char) -> (r: u64)
    requires
        input_charset().contains(ch),
    ensures
        r < 95,
        r == first_index(input_charset(), ch),
{
    let charset: &str = "0123456789()[],'/*abcdefgh@:$%{}IJKLMNOPQRSTUVWXYZ&+-.;<=>?!^_|~ijklmnopqrstuvwxyzABCDEFGH`#\"\\ ";
    proof {
        reveal_strlit("0123456789()[],'/*abcdefgh@:$%{}IJKLMNOPQRSTUVWXYZ&+-.;<=>?!^_|~ijklmnopqrstuvwxyzABCDEFGH`#\"\\ ");
    }
    let n = charset.unicode_len();
    let mut j: usize = 0;
    while j < n
        invariant
            n == 95,
            charset@ == input_charset(),
            input_charset().contains(ch),
            j <= n,
            forall|k: int| 0 <= k < j ==> input_charset()[k] != ch,
        decreases n - j,
    {
        if charset.get_char(j) == ch {
            proof {
                lemma_first_index(input_charset(), ch, j as int);
            }
            return j as u64;
        }
        j = j + 1;
    }
    j as u64
}

/// Computes the checksum of a descriptor. The descriptor's syntax is not
/// checked; each of its characters must belong to the descriptor alphabet.
pub fn desc_checksum(desc: &str) -> (r: String)
    requires
        is_descriptor_text(desc@),
    ensures
        r@ == checksum_text(desc@),
{
    let n = desc.unicode_len();
    let mut c: u64 = 1;
    let mut cls: u64 = 0;
    let mut clscount: u64 = 0;
    let mut i: usize = 0;
    while i < n
        invariant
            n == desc@.len(),
            is_descriptor_text(desc@),
            i <= n,
            (c, cls, clscount) == scan(desc@.subrange(0, i as int)),
            clscount < 3,
            clscount == 0 ==> cls == 0,
            clscount == 1 ==> cls <= 2,
            clscount == 2 ==> cls <= 8,
        decreases n - i,
    {
        let ch = desc.get_char(i);
        assert(input_charset().contains(desc@[i as int]));
        let pos = char_position(ch);
        proof {
            let s = desc@.subrange(0, i as int + 1);
            assert(s.drop_last() =~= desc@.subrange(0, i as int));
            assert(s.last() == ch);
            assert((pos >> 5u64) <= 2) by (bit_vector)
                requires
                    pos < 95,
            ;
        }
        c = poly_mod(c, pos & 31);
        cls = cls * 3 + (pos >> 5);
        clscount = clscount + 1;
        if clscount == 3 {
            c = poly_mod(c, cls);
            cls = 0;
            clscount = 0;
        }
        i = i + 1;
    }
    assert(desc@.subrange(0, n as int) =~= desc@);
    if clscount > 0 {
        c = poly_mod(c, cls);
    }
    let ghost c_start = c;
    let mut k: usize = 0;
    while k < 8
        invariant
            k <= 8,
            c == pad(c_start, k as nat),
        decreases 8 - k,
    {
        c = poly_mod(c, 0);
        k = k + 1;
    }
    c = c ^ 1;
    assert(c == checksum_value(desc@));

    let alphabet: &str = "qpzry9x8gf2tvdw0s3jn54khce6mua7l";
    proof {
        reveal_strlit("qpzry9x8gf2tvdw0s3jn54khce6mua7l");
    }
    let mut chars: Vec<char> = Vec::new();
    let mut j: u64 = 0;
    while j < 8
        invariant
            j <= 8,
            c == checksum_value(desc@),
            alphabet@ == checksum_charset(),
            alphabet@.len() == 32,
            chars@.len() == j,
            forall|m: int| 0 <= m < j ==> chars@[m] == #[trigger] checksum_text(desc@)[m],
        decreases 8 - j,
    {
        let sh: u64 = 5 * (7 - j);
        let idx = (c >> sh) & 31;
        assert(((c >> sh) & 31u64) < 32) by (bit_vector);
        chars.push(alphabet.get_char(idx as usize));
        j = j + 1;
    }
    assert(chars@ =~= checksum_text(desc@));
    collect_string(chars)
}

} // verus!
