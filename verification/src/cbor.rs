//! The lengths that DAG-CBOR bytes declare. A decoder that allocates what a
//! length declares before it reads must not be given bytes that declare
//! more than they hold.

use vstd::prelude::*;

verus! {

/// The number that the `n` bytes from `pos` on hold, the most significant
/// first.
pub open spec fn be(bytes: Seq<u8>, pos: int, n: nat) -> nat
    decreases n,
{
    if n == 0 {
        0
    } else {
        be(bytes, pos, (n - 1) as nat) * 256 + bytes[pos + n - 1] as nat
    }
}

/// How many bytes behind the first byte of an item hold the number that
/// the low bits `info` of that byte announce, if they announce one.
pub open spec fn width(info: u8) -> Option<nat> {
    if info <= 0x17 {
        Some(0)
    } else if info == 0x18 {
        Some(1)
    } else if info == 0x19 {
        Some(2)
    } else if info == 0x1a {
        Some(4)
    } else if info == 0x1b {
        Some(8)
    } else {
        None
    }
}

/// The number that the low bits `info` of the first byte of an item
/// announce, and where the bytes behind it end; `pos` is behind the first
/// byte. Nothing where the bits announce no number or the bytes end
/// before it.
pub open spec fn number(bytes: Seq<u8>, pos: int, info: u8) -> Option<(nat, int)> {
    match width(info) {
        Some(w) => {
            if w == 0 {
                Some((info as nat, pos))
            } else if pos + w <= bytes.len() {
                Some((be(bytes, pos, w), pos + w))
            } else {
                None
            }
        },
        None => None,
    }
}

/// What walking over an item finds.
pub enum Walk {
    /// A string, bytes or a list declares more than the bytes that are
    /// left.
    Oversized,
    /// The bytes are no item; the walk ends.
    Stop,
    /// The item ends here.
    Next(int),
}

/// The place `n` bytes on, if the bytes reach so far.
pub open spec fn skip(bytes: Seq<u8>, pos: int, n: int) -> Walk {
    if pos + n <= bytes.len() {
        Walk::Next(pos + n)
    } else {
        Walk::Stop
    }
}

/// The walk over a string or over bytes whose first byte has the low bits
/// `info`; `pos` is behind that byte.
pub open spec fn blob(bytes: Seq<u8>, pos: int, info: u8) -> Walk {
    match number(bytes, pos, info) {
        None => Walk::Stop,
        Some((n, q)) => {
            if n > bytes.len() - q {
                Walk::Oversized
            } else {
                Walk::Next(q + n)
            }
        },
    }
}

/// The walk over the key of a map, which is a string.
pub open spec fn key(bytes: Seq<u8>, pos: int) -> Walk {
    if 0 <= pos < bytes.len() && 0x60 <= bytes[pos] <= 0x7b {
        blob(bytes, pos + 1, (bytes[pos] - 0x60) as u8)
    } else {
        Walk::Stop
    }
}

/// The walk over a link behind its tag: the mark of a short byte string,
/// a length that is not zero, and so many bytes.
pub open spec fn link(bytes: Seq<u8>, pos: int) -> Walk {
    if pos + 3 <= bytes.len() && bytes[pos] == 42 && bytes[pos + 1] == 0x58 && bytes[pos + 2]
        != 0 {
        skip(bytes, pos + 3, bytes[pos + 2] as int)
    } else {
        Walk::Stop
    }
}

/// The walk over the item that starts at `pos`, as a decoder reads it.
pub open spec fn walk(bytes: Seq<u8>, pos: int) -> Walk
    decreases bytes.len() - pos, 0nat, 0nat,
{
    if pos < 0 || pos >= bytes.len() {
        Walk::Stop
    } else {
        let first = bytes[pos];
        let p = pos + 1;
        if first <= 0x1b {
            match width(first) {
                Some(w) => skip(bytes, p, w as int),
                None => Walk::Stop,
            }
        } else if 0x20 <= first <= 0x3b {
            match width((first - 0x20) as u8) {
                Some(w) => skip(bytes, p, w as int),
                None => Walk::Stop,
            }
        } else if 0x40 <= first <= 0x5b {
            blob(bytes, p, (first - 0x40) as u8)
        } else if 0x60 <= first <= 0x7b {
            blob(bytes, p, (first - 0x60) as u8)
        } else if 0x80 <= first <= 0x9b {
            match number(bytes, p, (first - 0x80) as u8) {
                None => Walk::Stop,
                Some((n, q)) => {
                    if n > bytes.len() - q {
                        Walk::Oversized
                    } else {
                        walk_items(bytes, q, n)
                    }
                },
            }
        } else if first == 0x9f {
            walk_to_break(bytes, p, false)
        } else if 0xa0 <= first <= 0xbb {
            match number(bytes, p, (first - 0xa0) as u8) {
                None => Walk::Stop,
                Some((n, q)) => walk_pairs(bytes, q, n),
            }
        } else if first == 0xbf {
            walk_to_break(bytes, p, true)
        } else if first == 0xd8 {
            link(bytes, p)
        } else if 0xf4 <= first <= 0xf7 {
            Walk::Next(p)
        } else if first == 0xfa {
            skip(bytes, p, 4)
        } else if first == 0xfb {
            skip(bytes, p, 8)
        } else {
            Walk::Stop
        }
    }
}

/// The walk over `count` items in a row.
pub open spec fn walk_items(bytes: Seq<u8>, pos: int, count: nat) -> Walk
    decreases bytes.len() - pos, 1nat, count,
{
    if count == 0 {
        Walk::Next(pos)
    } else {
        match walk(bytes, pos) {
            Walk::Next(q) => {
                if pos < q <= bytes.len() {
                    walk_items(bytes, q, (count - 1) as nat)
                } else {
                    Walk::Stop
                }
            },
            other => other,
        }
    }
}

/// The walk over `count` pairs of a key and an item in a row.
pub open spec fn walk_pairs(bytes: Seq<u8>, pos: int, count: nat) -> Walk
    decreases bytes.len() - pos, 1nat, count,
{
    if count == 0 {
        Walk::Next(pos)
    } else {
        match key(bytes, pos) {
            Walk::Next(q) => {
                if pos < q <= bytes.len() {
                    match walk(bytes, q) {
                        Walk::Next(r) => {
                            if q < r <= bytes.len() {
                                walk_pairs(bytes, r, (count - 1) as nat)
                            } else {
                                Walk::Stop
                            }
                        },
                        other => other,
                    }
                } else {
                    Walk::Stop
                }
            },
            other => other,
        }
    }
}

/// The walk over items, or over pairs of a key and an item, up to the byte
/// that ends a list or a map of no declared length.
pub open spec fn walk_to_break(bytes: Seq<u8>, pos: int, pairs: bool) -> Walk
    decreases bytes.len() - pos, 1nat, 0nat,
{
    if pos < 0 || pos >= bytes.len() {
        Walk::Stop
    } else if bytes[pos] == 0xff {
        Walk::Next(pos + 1)
    } else {
        let head = if pairs {
            key(bytes, pos)
        } else {
            Walk::Next(pos)
        };
        match head {
            Walk::Next(q) => match walk(bytes, q) {
                Walk::Next(r) => {
                    if pos < r <= bytes.len() {
                        walk_to_break(bytes, r, pairs)
                    } else {
                        Walk::Stop
                    }
                },
                other => other,
            },
            other => other,
        }
    }
}

/// The bytes in which no string, no bytes and no list declares more than
/// the bytes that are left behind its declaration.
pub open spec fn sized(bytes: Seq<u8>) -> bool {
    !(walk(bytes, 0) is Oversized)
}

/// What walking over an item found.
enum Walked {
    Oversized,
    Stop,
    Next(usize),
}

impl Walked {
    spec fn view(self) -> Walk {
        match self {
            Walked::Oversized => Walk::Oversized,
            Walked::Stop => Walk::Stop,
            Walked::Next(p) => Walk::Next(p as int),
        }
    }

    /// The walk stays within `bytes` and goes on from `pos`.
    spec fn within(self, bytes: Seq<u8>, pos: int) -> bool {
        self matches Walked::Next(p) ==> pos <= p <= bytes.len()
    }
}

fn get_width(info: u8) -> (r: Option<usize>)
    ensures
        match r {
            Some(w) => width(info) == Some(w as nat) && w <= 8,
            None => width(info) is None,
        },
{
    if info <= 0x17 {
        Some(0)
    } else if info == 0x18 {
        Some(1)
    } else if info == 0x19 {
        Some(2)
    } else if info == 0x1a {
        Some(4)
    } else if info == 0x1b {
        Some(8)
    } else {
        None
    }
}

/// A number of `n` bytes is less than 256 to the `n`.
proof fn lemma_be_bound(bytes: Seq<u8>, pos: int, n: nat)
    requires
        n <= 8,
    ensures
        be(bytes, pos, n) < vstd::arithmetic::power::pow(256, n),
        vstd::arithmetic::power::pow(256, n) <= 0x1_0000_0000_0000_0000,
    decreases n,
{
    reveal_with_fuel(vstd::arithmetic::power::pow, 9);
    if n > 0 {
        lemma_be_bound(bytes, pos, (n - 1) as nat);
    }
}

fn get_be(bytes: &Vec<u8>, pos: usize, n: usize) -> (r: u64)
    requires
        n <= 8,
        pos + n <= bytes.len(),
    ensures
        r == be(bytes@, pos as int, n as nat),
{
    let mut acc: u64 = 0;
    let mut i: usize = 0;
    while i < n
        invariant
            i <= n <= 8,
            pos + n <= bytes.len(),
            acc == be(bytes@, pos as int, i as nat),
        decreases n - i,
    {
        proof {
            lemma_be_bound(bytes@, pos as int, i as nat);
            lemma_be_bound(bytes@, pos as int, (i + 1) as nat);
        }
        acc = acc * 256 + bytes[pos + i] as u64;
        i += 1;
    }
    acc
}

fn get_number(bytes: &Vec<u8>, pos: usize, info: u8) -> (r: Option<(u64, usize)>)
    requires
        pos <= bytes.len(),
    ensures
        match r {
            Some((n, q)) => number(bytes@, pos as int, info) == Some((n as nat, q as int)) && pos
                <= q <= bytes.len(),
            None => number(bytes@, pos as int, info) is None,
        },
{
    match get_width(info) {
        Some(w) => {
            if w == 0 {
                Some((info as u64, pos))
            } else if w <= bytes.len() - pos {
                Some((get_be(bytes, pos, w), pos + w))
            } else {
                None
            }
        },
        None => None,
    }
}

fn do_skip(bytes: &Vec<u8>, pos: usize, n: usize) -> (r: Walked)
    requires
        pos <= bytes.len(),
    ensures
        r.view() == skip(bytes@, pos as int, n as int),
        r.within(bytes@, pos as int),
{
    if n <= bytes.len() - pos {
        Walked::Next(pos + n)
    } else {
        Walked::Stop
    }
}

fn do_blob(bytes: &Vec<u8>, pos: usize, info: u8) -> (r: Walked)
    requires
        pos <= bytes.len(),
    ensures
        r.view() == blob(bytes@, pos as int, info),
        r.within(bytes@, pos as int),
{
    match get_number(bytes, pos, info) {
        None => Walked::Stop,
        Some((n, q)) => {
            if n > (bytes.len() - q) as u64 {
                Walked::Oversized
            } else {
                Walked::Next(q + n as usize)
            }
        },
    }
}

fn do_key(bytes: &Vec<u8>, pos: usize) -> (r: Walked)
    requires
        pos <= bytes.len(),
    ensures
        r.view() == key(bytes@, pos as int),
        r.within(bytes@, pos as int),
{
    if pos < bytes.len() && 0x60 <= bytes[pos] && bytes[pos] <= 0x7b {
        do_blob(bytes, pos + 1, bytes[pos] - 0x60)
    } else {
        Walked::Stop
    }
}

fn do_link(bytes: &Vec<u8>, pos: usize) -> (r: Walked)
    requires
        pos <= bytes.len(),
    ensures
        r.view() == link(bytes@, pos as int),
        r.within(bytes@, pos as int),
{
    if 3 <= bytes.len() - pos && bytes[pos] == 42 && bytes[pos + 1] == 0x58 && bytes[pos + 2]
        != 0 {
        do_skip(bytes, pos + 3, bytes[pos + 2] as usize)
    } else {
        Walked::Stop
    }
}

fn do_walk(bytes: &Vec<u8>, pos: usize) -> (r: Walked)
    requires
        pos <= bytes.len(),
    ensures
        r.view() == walk(bytes@, pos as int),
        r matches Walked::Next(p) ==> pos < p <= bytes.len(),
    decreases bytes.len() - pos, 0nat, 0nat,
{
    if pos >= bytes.len() {
        return Walked::Stop;
    }
    let first: u8 = bytes[pos];
    let p: usize = pos + 1;
    if first <= 0x1b {
        match get_width(first) {
            Some(w) => do_skip(bytes, p, w),
            None => Walked::Stop,
        }
    } else if 0x20 <= first && first <= 0x3b {
        match get_width(first - 0x20) {
            Some(w) => do_skip(bytes, p, w),
            None => Walked::Stop,
        }
    } else if 0x40 <= first && first <= 0x5b {
        do_blob(bytes, p, first - 0x40)
    } else if 0x60 <= first && first <= 0x7b {
        do_blob(bytes, p, first - 0x60)
    } else if 0x80 <= first && first <= 0x9b {
        match get_number(bytes, p, first - 0x80) {
            None => Walked::Stop,
            Some((n, q)) => {
                if n > (bytes.len() - q) as u64 {
                    Walked::Oversized
                } else {
                    do_walk_items(bytes, q, n)
                }
            },
        }
    } else if first == 0x9f {
        do_walk_to_break(bytes, p, false)
    } else if 0xa0 <= first && first <= 0xbb {
        match get_number(bytes, p, first - 0xa0) {
            None => Walked::Stop,
            Some((n, q)) => do_walk_pairs(bytes, q, n),
        }
    } else if first == 0xbf {
        do_walk_to_break(bytes, p, true)
    } else if first == 0xd8 {
        do_link(bytes, p)
    } else if 0xf4 <= first && first <= 0xf7 {
        Walked::Next(p)
    } else if first == 0xfa {
        do_skip(bytes, p, 4)
    } else if first == 0xfb {
        do_skip(bytes, p, 8)
    } else {
        Walked::Stop
    }
}

fn do_walk_items(bytes: &Vec<u8>, pos: usize, count: u64) -> (r: Walked)
    requires
        pos <= bytes.len(),
    ensures
        r.view() == walk_items(bytes@, pos as int, count as nat),
        r.within(bytes@, pos as int),
    decreases bytes.len() - pos, 1nat, count,
{
    if count == 0 {
        return Walked::Next(pos);
    }
    match do_walk(bytes, pos) {
        Walked::Next(q) => do_walk_items(bytes, q, count - 1),
        other => other,
    }
}

fn do_walk_pairs(bytes: &Vec<u8>, pos: usize, count: u64) -> (r: Walked)
    requires
        pos <= bytes.len(),
    ensures
        r.view() == walk_pairs(bytes@, pos as int, count as nat),
        r.within(bytes@, pos as int),
    decreases bytes.len() - pos, 1nat, count,
{
    if count == 0 {
        return Walked::Next(pos);
    }
    match do_key(bytes, pos) {
        Walked::Next(q) => {
            if q > pos {
                match do_walk(bytes, q) {
                    Walked::Next(r) => do_walk_pairs(bytes, r, count - 1),
                    other => other,
                }
            } else {
                Walked::Stop
            }
        },
        other => other,
    }
}

fn do_walk_to_break(bytes: &Vec<u8>, pos: usize, pairs: bool) -> (r: Walked)
    requires
        pos <= bytes.len(),
    ensures
        r.view() == walk_to_break(bytes@, pos as int, pairs),
        r.within(bytes@, pos as int),
    decreases bytes.len() - pos, 1nat, 0nat,
{
    if pos >= bytes.len() {
        return Walked::Stop;
    }
    if bytes[pos] == 0xff {
        return Walked::Next(pos + 1);
    }
    let head = if pairs {
        do_key(bytes, pos)
    } else {
        Walked::Next(pos)
    };
    match head {
        Walked::Next(q) => match do_walk(bytes, q) {
            Walked::Next(r) => do_walk_to_break(bytes, r, pairs),
            other => other,
        },
        other => other,
    }
}

/// Whether no string, no bytes and no list in `bytes` declares more than
/// the bytes that are left behind its declaration.
pub fn is_sized(bytes: &Vec<u8>) -> (b: bool)
    ensures
        b == sized(bytes@),
{
    match do_walk(bytes, 0) {
        Walked::Oversized => false,
        _ => true,
    }
}

} // verus!
