//! A structural check of MaxMind database bytes: every value that opening
//! the file or looking an address up can reach lies inside the buffer, and
//! decoding it ends within a bounded depth.
use vstd::prelude::*;

verus! {

/// The marker that opens a MaxMind database's metadata section.
pub open spec fn metadata_marker() -> Seq<u8> {
    seq![0xabu8, 0xcd, 0xef, 0x4d, 0x61, 0x78, 0x4d, 0x69, 0x6e, 0x64, 0x2e, 0x63, 0x6f, 0x6d]
}

/// How deeply values (containers and pointers) may nest.
pub open spec fn nesting_limit() -> nat {
    32
}

/// `acc` followed by the `k` bytes at `q`, read as one big-endian number.
pub open spec fn fold_be(acc: int, b: Seq<u8>, q: int, k: nat) -> int
    decreases k,
{
    if k == 0 {
        acc
    } else {
        fold_be(acc, b, q, (k - 1) as nat) * 256 + b[q + k - 1] as int
    }
}

/// The control header of the value at `p`: its type number, its size, and
/// where its payload starts.
pub open spec fn header(b: Seq<u8>, p: int) -> Option<(int, int, int)> {
    if !(0 <= p < b.len()) {
        None
    } else {
        let c = b[p] as int;
        let t0 = c / 32;
        let low = c % 32;
        if t0 == 0 && !(p + 1 < b.len()) {
            None
        } else {
            let t = if t0 == 0 { b[p + 1] as int + 7 } else { t0 };
            let q = if t0 == 0 { p + 2 } else { p + 1 };
            if t0 == 0 && !(8 <= t <= 15) {
                None
            } else if low < 29 {
                Some((t, low, q))
            } else if q + (low - 28) > b.len() {
                None
            } else {
                let s = if low == 29 {
                    29 + fold_be(0, b, q, 1)
                } else if low == 30 {
                    285 + fold_be(0, b, q, 2)
                } else {
                    65821 + fold_be(0, b, q, 3)
                };
                Some((t, s, q + (low - 28)))
            }
        }
    }
}

/// How many bytes follow a pointer's header.
pub open spec fn pointer_len(s: int) -> int {
    (s / 8) % 4 + 1
}

/// Where a pointer with size field `s` and bytes at `q` points, from the
/// start of its section.
pub open spec fn pointer_target(b: Seq<u8>, q: int, s: int) -> int {
    let n = pointer_len(s);
    let top = if n == 4 { 0 } else { s % 8 };
    let offset: int = if n == 2 {
        2048
    } else if n == 3 {
        526336
    } else {
        0
    };
    fold_be(top, b, q, n as nat) + offset
}

/// Where the value at `p` of the section starting at `base` ends, if it and
/// everything it reaches lie inside `b` within `fuel` levels of nesting.
pub open spec fn value_end(b: Seq<u8>, base: int, p: int, fuel: nat) -> Option<int>
    decreases fuel, 0nat,
{
    if fuel == 0 {
        None
    } else {
        match header(b, p) {
            None => None,
            Some((t, s, q)) => {
                if t == 1 {
                    if q + pointer_len(s) > b.len() {
                        None
                    } else if value_end(b, base, base + pointer_target(b, q, s), (fuel - 1) as nat) is Some {
                        Some(q + pointer_len(s))
                    } else {
                        None
                    }
                } else if t == 7 {
                    values_end(b, base, q, (2 * s) as nat, (fuel - 1) as nat)
                } else if t == 11 {
                    values_end(b, base, q, s as nat, (fuel - 1) as nat)
                } else if t == 14 {
                    if s <= 1 {
                        Some(q)
                    } else {
                        None
                    }
                } else if (t == 2 || t == 3 || t == 4 || t == 15 || (t == 5 && s <= 2) || ((t == 6
                    || t == 8) && s <= 4) || (t == 9 && s <= 8) || (t == 10 && s <= 16)) && q + s
                    <= b.len() {
                    Some(q + s)
                } else {
                    None
                }
            },
        }
    }
}

/// Where `n` values in a row, the first at `p`, end.
pub open spec fn values_end(b: Seq<u8>, base: int, p: int, n: nat, fuel: nat) -> Option<int>
    decreases fuel, n + 1,
{
    if n == 0 {
        Some(p)
    } else {
        match value_end(b, base, p, fuel) {
            Some(e) => values_end(b, base, e, (n - 1) as nat, fuel),
            None => None,
        }
    }
}

pub open spec fn opt_pos(r: Option<usize>) -> Option<int> {
    match r {
        Some(e) => Some(e as int),
        None => None,
    }
}

spec fn fold_bound(i: nat) -> int {
    if i == 0 {
        16
    } else if i == 1 {
        4096
    } else if i == 2 {
        1048576
    } else if i == 3 {
        268435456
    } else {
        68719476736
    }
}

fn read_be(b: &[u8], q: usize, k: usize, top: u64) -> (r: u64)
    requires
        q + k <= b@.len(),
        k <= 4,
        top < 16,
    ensures
        r as int == fold_be(top as int, b@, q as int, k as nat),
        r < fold_bound(k as nat),
{
    let len = b.len();
    let mut acc: u64 = top;
    let mut i: usize = 0;
    while i < k
        invariant
            len == b@.len(),
            q + k <= b@.len(),
            k <= 4,
            i <= k,
            acc as int == fold_be(top as int, b@, q as int, i as nat),
            acc < fold_bound(i as nat),
        decreases k - i,
    {
        let byte = b[q + i];
        assert(acc * 256 + byte < fold_bound(i as nat) * 256) by (nonlinear_arith)
            requires
                acc < fold_bound(i as nat),
                byte < 256,
        ;
        acc = acc * 256 + byte as u64;
        i = i + 1;
    }
    acc
}

fn read_header(b: &[u8], p: usize) -> (r: Option<(u64, u64, usize)>)
    ensures
        match header(b@, p as int) {
            None => r is None,
            Some((t, s, q)) => (r matches Some((t2, s2, q2)) && t2 == t && s2 == s && q2 == q),
        },
        r matches Some((t, s, q)) ==> s < 300000000 && q <= b@.len(),
{
    if p >= b.len() {
        return None;
    }
    let c = b[p];
    let t0 = c / 32;
    let low = c % 32;
    if t0 == 0 && p + 1 >= b.len() {
        return None;
    }
    let t: u64 = if t0 == 0 { b[p + 1] as u64 + 7 } else { t0 as u64 };
    let q: usize = if t0 == 0 { p + 2 } else { p + 1 };
    if t0 == 0 && !(8 <= t && t <= 15) {
        return None;
    }
    if low < 29 {
        return Some((t, low as u64, q));
    }
    let k: usize = (low - 28) as usize;
    if k > b.len() - q {
        return None;
    }
    let s: u64 = if low == 29 {
        29 + read_be(b, q, 1, 0)
    } else if low == 30 {
        285 + read_be(b, q, 2, 0)
    } else {
        65821 + read_be(b, q, 3, 0)
    };
    Some((t, s, q + k))
}

/// A value that checks with some fuel checks, and ends at the same place,
/// with more.
pub proof fn lemma_more_fuel(b: Seq<u8>, base: int, p: int, f: nat, g: nat)
    requires
        value_end(b, base, p, f) is Some,
        f <= g,
    ensures
        value_end(b, base, p, g) == value_end(b, base, p, f),
    decreases f, 0nat,
{
    if let Some((t, s, q)) = header(b, p) {
        if t == 1 {
            lemma_more_fuel(b, base, base + pointer_target(b, q, s), (f - 1) as nat, (g - 1) as nat);
        } else if t == 7 {
            lemma_values_more_fuel(b, base, q, (2 * s) as nat, (f - 1) as nat, (g - 1) as nat);
        } else if t == 11 {
            lemma_values_more_fuel(b, base, q, s as nat, (f - 1) as nat, (g - 1) as nat);
        }
    }
}

/// A run of values that checks with some fuel checks, and ends at the same
/// place, with more.
pub proof fn lemma_values_more_fuel(b: Seq<u8>, base: int, p: int, n: nat, f: nat, g: nat)
    requires
        values_end(b, base, p, n, f) is Some,
        f <= g,
    ensures
        values_end(b, base, p, n, g) == values_end(b, base, p, n, f),
    decreases f, n + 1,
{
    if n > 0 {
        lemma_more_fuel(b, base, p, f, g);
        let e = value_end(b, base, p, f)->0;
        lemma_values_more_fuel(b, base, e, (n - 1) as nat, f, g);
    }
}

/// Positions already found to hold values that check: a nonzero entry is
/// the fuel they checked with.
pub open spec fn memo_ok(b: Seq<u8>, base: int, m: Seq<u8>) -> bool {
    m.len() == b.len() && forall|i: int|
        0 <= i < m.len() && #[trigger] m[i] > 0 ==> m[i] <= 32 && value_end(b, base, i, m[i] as nat) is Some
}

fn new_memo(len: usize) -> (m: Vec<u8>)
    ensures
        m@.len() == len,
        forall|i: int| 0 <= i < len ==> #[trigger] m@[i] == 0,
{
    let mut m: Vec<u8> = Vec::new();
    let mut k: usize = 0;
    while k < len
        invariant
            k <= len,
            m@.len() == k,
            forall|i: int| 0 <= i < k ==> #[trigger] m@[i] == 0,
        decreases len - k,
    {
        m.push(0);
        k = k + 1;
    }
    m
}

/// Checks the value at `p` of the section starting at `base`; a pointer
/// target found sound before is not checked again.
fn check_value(b: &[u8], base: usize, p: usize, fuel: u64, memo: &mut Vec<u8>) -> (r: Option<usize>)
    requires
        base <= b@.len(),
        fuel <= 32,
        memo_ok(b@, base as int, old(memo)@),
    ensures
        opt_pos(r) == value_end(b@, base as int, p as int, fuel as nat),
        r matches Some(e) ==> e <= b@.len(),
        memo_ok(b@, base as int, final(memo)@),
    decreases fuel, 0nat,
{
    if fuel == 0 {
        return None;
    }
    let (t, s, q) = match read_header(b, p) {
        None => return None,
        Some(h) => h,
    };
    if t == 1 {
        let n: usize = ((s / 8) % 4 + 1) as usize;
        if n > b.len() - q {
            return None;
        }
        let top: u64 = if n == 4 { 0 } else { s % 8 };
        let rel: u64 = read_be(b, q, n, top) + if n == 2 {
            2048
        } else if n == 3 {
            526336
        } else {
            0
        };
        if rel >= (b.len() - base) as u64 {
            assert(value_end(b@, base as int, base + rel, (fuel - 1) as nat) is None);
            return None;
        }
        let target: usize = base + rel as usize;
        if memo[target] > 0 && memo[target] as u64 <= fuel - 1 {
            proof {
                lemma_more_fuel(b@, base as int, target as int, memo@[target as int] as nat, (fuel - 1) as nat);
            }
            return Some(q + n);
        }
        match check_value(b, base, target, fuel - 1, memo) {
            Some(_) => {
                memo.set(target, (fuel - 1) as u8);
                Some(q + n)
            },
            None => None,
        }
    } else if t == 7 {
        check_values(b, base, q, 2 * s, fuel - 1, memo)
    } else if t == 11 {
        check_values(b, base, q, s, fuel - 1, memo)
    } else if t == 14 {
        if s <= 1 {
            Some(q)
        } else {
            None
        }
    } else if (t == 2 || t == 3 || t == 4 || t == 15 || (t == 5 && s <= 2) || ((t == 6 || t == 8)
        && s <= 4) || (t == 9 && s <= 8) || (t == 10 && s <= 16)) && s <= (b.len() - q) as u64 {
        Some(q + s as usize)
    } else {
        None
    }
}

/// Checks `n` values in a row, the first at `p`.
fn check_values(b: &[u8], base: usize, p: usize, n: u64, fuel: u64, memo: &mut Vec<u8>) -> (r: Option<usize>)
    requires
        base <= b@.len(),
        p <= b@.len(),
        fuel <= 32,
        memo_ok(b@, base as int, old(memo)@),
    ensures
        opt_pos(r) == values_end(b@, base as int, p as int, n as nat, fuel as nat),
        r matches Some(e) ==> e <= b@.len(),
        memo_ok(b@, base as int, final(memo)@),
    decreases fuel, 1nat,
{
    let mut cur: usize = p;
    let mut i: u64 = 0;
    while i < n
        invariant
            base <= b@.len(),
            cur <= b@.len(),
            i <= n,
            fuel <= 32,
            memo_ok(b@, base as int, memo@),
            values_end(b@, base as int, p as int, n as nat, fuel as nat) == values_end(
                b@,
                base as int,
                cur as int,
                (n - i) as nat,
                fuel as nat,
            ),
        decreases n - i,
    {
        match check_value(b, base, cur, fuel, memo) {
            None => return None,
            Some(e) => {
                cur = e;
            },
        }
        i = i + 1;
    }
    Some(cur)
}

pub open spec fn marker_at(b: Seq<u8>, i: int) -> bool {
    0 <= i && i + 14 <= b.len() && b.subrange(i, i + 14) == metadata_marker()
}

/// `i` is the last place where the metadata marker stands: the metadata
/// section starts right after it.
pub open spec fn is_last_marker(b: Seq<u8>, i: int) -> bool {
    marker_at(b, i) && forall|j: int| i < j ==> !#[trigger] marker_at(b, j)
}

/// The bytes of the string written directly (not through a pointer) at `p`.
pub open spec fn direct_bytes(b: Seq<u8>, p: int) -> Option<Seq<u8>> {
    match header(b, p) {
        Some((t, s, q)) => if t == 2 && q + s <= b.len() {
            Some(b.subrange(q, q + s))
        } else {
            None
        },
        None => None,
    }
}

/// Where the value of the first of `n` map entries, the first at `p`, whose
/// key is written directly as `key` starts.
pub open spec fn entry_value(b: Seq<u8>, base: int, p: int, n: nat, key: Seq<u8>) -> Option<int>
    decreases n,
{
    if n == 0 {
        None
    } else {
        match value_end(b, base, p, nesting_limit()) {
            None => None,
            Some(ke) => if direct_bytes(b, p) == Some(key) {
                Some(ke)
            } else {
                match value_end(b, base, ke, nesting_limit()) {
                    None => None,
                    Some(ve) => entry_value(b, base, ve, (n - 1) as nat, key),
                }
            },
        }
    }
}

/// The unsigned number stored directly under `key` in the metadata map at `m`.
pub open spec fn meta_uint(b: Seq<u8>, m: int, key: Seq<u8>) -> Option<int> {
    match header(b, m) {
        Some((t, s, q)) => if t == 7 {
            match entry_value(b, m, q, s as nat, key) {
                Some(vp) => match header(b, vp) {
                    Some((t2, s2, q2)) => if ((t2 == 5 && s2 <= 2) || (t2 == 6 && s2 <= 4) || (t2
                        == 9 && s2 <= 8)) && q2 + s2 <= b.len() {
                        Some(fold_be(0, b, q2, s2 as nat))
                    } else {
                        None
                    },
                    None => None,
                },
                None => None,
            }
        } else {
            None
        },
        None => None,
    }
}

pub open spec fn node_count_key() -> Seq<u8> {
    seq![110u8, 111, 100, 101, 95, 99, 111, 117, 110, 116]
}

pub open spec fn record_size_key() -> Seq<u8> {
    seq![114u8, 101, 99, 111, 114, 100, 95, 115, 105, 122, 101]
}

/// Record `idx` (0 or 1) of search-tree node `n`, for nodes of `w` bytes.
pub open spec fn tree_record(b: Seq<u8>, w: int, n: int, idx: int) -> int {
    let bo = n * w;
    if w == 6 {
        fold_be(0, b, bo + idx * 3, 3)
    } else if w == 7 {
        let m = b[bo + 3] as int;
        fold_be(if idx != 0 { m % 16 } else { m / 16 }, b, bo + idx * 4, 3)
    } else {
        fold_be(0, b, bo + idx * 4, 4)
    }
}

/// A tree record leads to another node, to "not found", or to a data
/// value that decodes inside the buffer.
pub open spec fn record_ok(b: Seq<u8>, nc: int, w: int, n: int, idx: int) -> bool {
    let v = tree_record(b, w, n, idx);
    let pb = nc * w + 16;
    v <= nc || (v >= nc + 16 && value_end(b, pb, pb + (v - nc - 16), nesting_limit()) is Some)
}

/// The database laid out with its metadata section at `m`: the metadata
/// decodes; it gives the node count and a record size of 24, 28 or 32 bits;
/// the search tree fits before the data section; every tree record is sound.
pub open spec fn layout_ok(b: Seq<u8>, m: int) -> bool {
    value_end(b, m, m, nesting_limit()) is Some && match (
        meta_uint(b, m, node_count_key()),
        meta_uint(b, m, record_size_key()),
    ) {
        (Some(nc), Some(rs)) => {
            let w = rs / 4;
            &&& nc < 0x1_0000_0000
            &&& (rs == 24 || rs == 28 || rs == 32)
            &&& nc * w + 16 <= b.len()
            &&& forall|n: int, idx: int|
                0 <= n < nc && 0 <= idx < 2 ==> #[trigger] record_ok(b, nc, w, n, idx)
        },
        _ => false,
    }
}

/// Bytes that maxminddb can open and search without reading outside them or
/// nesting without end.
pub open spec fn database_ok(b: Seq<u8>) -> bool {
    exists|i: int| is_last_marker(b, i) && layout_ok(b, i + 14)
}

fn bytes_at(b: &[u8], q: usize, key: &[u8]) -> (r: bool)
    requires
        q + key@.len() <= b@.len(),
    ensures
        r == (b@.subrange(q as int, q + key@.len()) == key@),
{
    let len = b.len();
    let mut i: usize = 0;
    while i < key.len()
        invariant
            len == b@.len(),
            q + key@.len() <= b@.len(),
            i <= key@.len(),
            forall|j: int| 0 <= j < i ==> b@[q + j] == key@[j],
        decreases key@.len() - i,
    {
        if b[q + i] != key[i] {
            assert(b@.subrange(q as int, q + key@.len())[i as int] != key@[i as int]);
            return false;
        }
        i = i + 1;
    }
    assert(b@.subrange(q as int, q + key@.len()) =~= key@);
    true
}

fn direct_is(b: &[u8], p: usize, key: &[u8]) -> (r: bool)
    ensures
        r == (direct_bytes(b@, p as int) == Some(key@)),
{
    match read_header(b, p) {
        Some((t, s, q)) => {
            if t == 2 && s <= (b.len() - q) as u64 && s == key.len() as u64 {
                bytes_at(b, q, key)
            } else {
                proof {
                    if t == 2 && q + s <= b@.len() {
                        assert(b@.subrange(q as int, q + s).len() != key@.len());
                    }
                }
                false
            }
        },
        None => false,
    }
}

fn find_entry(b: &[u8], base: usize, p: usize, n: u64, key: &[u8], memo: &mut Vec<u8>) -> (r: Option<usize>)
    requires
        base <= b@.len(),
        p <= b@.len(),
        memo_ok(b@, base as int, old(memo)@),
    ensures
        memo_ok(b@, base as int, final(memo)@),
        opt_pos(r) == entry_value(b@, base as int, p as int, n as nat, key@),
        r matches Some(e) ==> e <= b@.len(),
{
    let mut cur: usize = p;
    let mut i: u64 = 0;
    while i < n
        invariant
            base <= b@.len(),
            cur <= b@.len(),
            i <= n,
            memo_ok(b@, base as int, memo@),
            entry_value(b@, base as int, p as int, n as nat, key@) == entry_value(
                b@,
                base as int,
                cur as int,
                (n - i) as nat,
                key@,
            ),
        decreases n - i,
    {
        let ke = match check_value(b, base, cur, 32, memo) {
            None => return None,
            Some(e) => e,
        };
        if direct_is(b, cur, key) {
            return Some(ke);
        }
        cur = match check_value(b, base, ke, 32, memo) {
            None => return None,
            Some(e) => e,
        };
        i = i + 1;
    }
    None
}

fn read_meta_uint(b: &[u8], m: usize, key: &[u8], memo: &mut Vec<u8>) -> (r: Option<u64>)
    requires
        m <= b@.len(),
        memo_ok(b@, m as int, old(memo)@),
    ensures
        memo_ok(b@, m as int, final(memo)@),
        match meta_uint(b@, m as int, key@) {
            Some(v) => (r matches Some(x) && x as int == v),
            None => r is None,
        },
{
    let (t, s, q) = match read_header(b, m) {
        Some(h) => h,
        None => return None,
    };
    if t != 7 {
        return None;
    }
    let vp = match find_entry(b, m, q, s, key, memo) {
        Some(v) => v,
        None => return None,
    };
    let (t2, s2, q2) = match read_header(b, vp) {
        Some(h) => h,
        None => return None,
    };
    if !(((t2 == 5 && s2 <= 2) || (t2 == 6 && s2 <= 4) || (t2 == 9 && s2 <= 8)) && s2 <= (b.len()
        - q2) as u64) {
        return None;
    }
    let mut acc: u64 = 0;
    let mut i: usize = 0;
    let k = s2 as usize;
    let len = b.len();
    while i < k
        invariant
            len == b@.len(),
            q2 + k <= b@.len(),
            k <= 8,
            i <= k,
            acc as int == fold_be(0, b@, q2 as int, i as nat),
            acc < fold_bound8(i as nat),
        decreases k - i,
    {
        let byte = b[q2 + i];
        assert(acc * 256 + byte < fold_bound8(i as nat) * 256) by (nonlinear_arith)
            requires
                acc < fold_bound8(i as nat),
                byte < 256,
        ;
        acc = acc * 256 + byte as u64;
        i = i + 1;
    }
    Some(acc)
}

spec fn fold_bound8(i: nat) -> int {
    if i == 0 {
        1
    } else if i == 1 {
        0x100
    } else if i == 2 {
        0x1_0000
    } else if i == 3 {
        0x100_0000
    } else if i == 4 {
        0x1_0000_0000
    } else if i == 5 {
        0x100_0000_0000
    } else if i == 6 {
        0x1_0000_0000_0000
    } else if i == 7 {
        0x100_0000_0000_0000
    } else {
        0x1_0000_0000_0000_0000
    }
}

fn find_last_marker(b: &[u8]) -> (r: Option<usize>)
    ensures
        r matches Some(i) ==> is_last_marker(b@, i as int),
        r is None ==> forall|i: int| !#[trigger] marker_at(b@, i),
{
    let marker: Vec<u8> = vec![0xabu8, 0xcd, 0xef, 0x4d, 0x61, 0x78, 0x4d, 0x69, 0x6e, 0x64, 0x2e, 0x63, 0x6f, 0x6d];
    assert(marker@ =~= metadata_marker());
    if b.len() < 14 {
        return None;
    }
    let mut i: usize = b.len() - 14;
    loop
        invariant
            i + 14 <= b@.len(),
            marker@ == metadata_marker(),
            forall|j: int| i < j ==> !#[trigger] marker_at(b@, j),
        decreases i,
    {
        if bytes_at(b, i, marker.as_slice()) {
            return Some(i);
        }
        if i == 0 {
            assert forall|j: int| !#[trigger] marker_at(b@, j) by {
                if j == 0 {
                }
            }
            return None;
        }
        i = i - 1;
    }
}

/// The data value a record points to is checked, or was checked before.
fn check_record(b: &[u8], nc: u64, pb: usize, v: u64, memo: &mut Vec<u8>) -> (r: bool)
    requires
        pb <= b@.len(),
        memo_ok(b@, pb as int, old(memo)@),
    ensures
        r == (v <= nc || (v >= nc + 16 && value_end(b@, pb as int, pb + (v - nc - 16), nesting_limit()) is Some)),
        memo_ok(b@, pb as int, final(memo)@),
{
    if v <= nc {
        return true;
    }
    if v - nc < 16 {
        return false;
    }
    let d: u64 = v - nc - 16;
    if d >= (b.len() - pb) as u64 {
        assert(value_end(b@, pb as int, pb + d, nesting_limit()) is None);
        return false;
    }
    let t: usize = pb + d as usize;
    if memo[t] > 0 {
        proof {
            lemma_more_fuel(b@, pb as int, t as int, memo@[t as int] as nat, nesting_limit());
        }
        return true;
    }
    match check_value(b, pb, t, 32, memo) {
        Some(_) => {
            memo.set(t, 32);
            true
        },
        None => false,
    }
}

fn record_value(b: &[u8], w: u64, n: u64, idx: u64) -> (v: u64)
    requires
        w == 6 || w == 7 || w == 8,
        idx < 2,
        n * w + w <= b@.len(),
    ensures
        v as int == tree_record(b@, w as int, n as int, idx as int),
{
    let len = b.len();
    assert(n * w <= len);
    let bo: usize = (n * w) as usize;
    if w == 6 {
        read_be(b, bo + (idx as usize) * 3, 3, 0)
    } else if w == 7 {
        let m = b[bo + 3];
        let top: u64 = if idx != 0 { (m % 16) as u64 } else { (m / 16) as u64 };
        read_be(b, bo + (idx as usize) * 4, 3, top)
    } else {
        read_be(b, bo + (idx as usize) * 4, 4, 0)
    }
}

fn check_layout(b: &[u8], m: usize) -> (r: bool)
    requires
        m <= b@.len(),
    ensures
        r == layout_ok(b@, m as int),
{
    let mut memo = new_memo(b.len());
    match check_value(b, m, m, 32, &mut memo) {
        Some(_) => {},
        None => return false,
    }
    let nc_key: Vec<u8> = vec![110u8, 111, 100, 101, 95, 99, 111, 117, 110, 116];
    assert(nc_key@ =~= node_count_key());
    let rs_key: Vec<u8> = vec![114u8, 101, 99, 111, 114, 100, 95, 115, 105, 122, 101];
    assert(rs_key@ =~= record_size_key());
    let nc = match read_meta_uint(b, m, nc_key.as_slice(), &mut memo) {
        Some(v) => v,
        None => return false,
    };
    let rs = match read_meta_uint(b, m, rs_key.as_slice(), &mut memo) {
        Some(v) => v,
        None => return false,
    };
    if nc >= 0x1_0000_0000 || !(rs == 24 || rs == 28 || rs == 32) {
        return false;
    }
    let w: u64 = rs / 4;
    let r = check_tree(b, nc, w);
    assert(meta_uint(b@, m as int, node_count_key()) == Some(nc as int));
    assert(meta_uint(b@, m as int, record_size_key()) == Some(rs as int));
    r
}

/// Checks every record of the search tree of `nc` nodes of `w` bytes.
#[verifier::rlimit(50)]
fn check_tree(b: &[u8], nc: u64, w: u64) -> (r: bool)
    requires
        w == 6 || w == 7 || w == 8,
        nc < 0x1_0000_0000,
    ensures
        r == (nc * w + 16 <= b@.len() && forall|n: int, idx: int|
            0 <= n < nc && 0 <= idx < 2 ==> #[trigger] record_ok(b@, nc as int, w as int, n, idx)),
{
    assert(nc * w <= 0x8_0000_0000) by (nonlinear_arith)
        requires
            nc < 0x1_0000_0000,
            w <= 8,
    ;
    let tree: u64 = nc * w;
    if tree + 16 > b.len() as u64 {
        return false;
    }
    let pb: usize = (tree + 16) as usize;
    let mut memo = new_memo(b.len());
    let mut n: u64 = 0;
    while n < nc
        invariant
            w == 6 || w == 7 || w == 8,
            tree == nc * w,
            pb == tree + 16,
            pb <= b@.len(),
            n <= nc,
            memo_ok(b@, pb as int, memo@),
            forall|n2: int, idx: int| 0 <= n2 < n && 0 <= idx < 2 ==> #[trigger] record_ok(b@, nc as int, w as int, n2, idx),
        decreases nc - n,
    {
        assert(n * w + w <= nc * w) by (nonlinear_arith)
            requires
                n < nc,
        ;
        let v0 = record_value(b, w, n, 0);
        if !check_record(b, nc, pb, v0, &mut memo) {
            assert(!record_ok(b@, nc as int, w as int, n as int, 0));
            return false;
        }
        let v1 = record_value(b, w, n, 1);
        if !check_record(b, nc, pb, v1, &mut memo) {
            assert(!record_ok(b@, nc as int, w as int, n as int, 1));
            return false;
        }
        assert forall|n2: int, idx: int| 0 <= n2 < n + 1 && 0 <= idx < 2 implies #[trigger] record_ok(b@, nc as int, w as int, n2, idx) by {
            if n2 == n && idx == 1 {
            }
        }
        n = n + 1;
    }
    true
}


/// Checks that maxminddb can open `b` and search it without reading
/// outside it or nesting without end.
pub fn check_database(b: &[u8]) -> (r: bool)
    ensures
        r == database_ok(b@),
{
    let len = b.len();
    match find_last_marker(b) {
        None => false,
        Some(i) => {
            proof {
                assert forall|j: int| is_last_marker(b@, j) implies j == i by {
                    if j < i {
                        assert(marker_at(b@, i as int));
                    } else if j > i {
                        assert(marker_at(b@, j));
                    }
                }
            }
            check_layout(b, i + 14)
        },
    }
}

} // verus!
