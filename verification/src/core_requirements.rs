//! Bulk memory operations over one flat byte range.
//!
//! The range `mem` stands for the address space the operations work in; the
//! pointers of the C signatures are offsets into it. Each operation returns
//! its destination offset, as the C functions return their destination
//! pointer.

use vstd::prelude::*;

verus! {

/// The bytes of `mem` after the `n` bytes at `src` have been read out whole
/// and then written at `dest`: the result of copying through a scratch buffer.
pub open spec fn copied(mem: Seq<u8>, dest: int, src: int, n: int) -> Seq<u8> {
    Seq::new(
        mem.len(),
        |i: int|
            if dest <= i < dest + n {
                mem[src + (i - dest)]
            } else {
                mem[i]
            },
    )
}

/// The bytes of `mem` after `n` bytes from `s` on have been set to `byte`.
pub open spec fn filled(mem: Seq<u8>, s: int, byte: u8, n: int) -> Seq<u8> {
    Seq::new(
        mem.len(),
        |i: int|
            if s <= i < s + n {
                byte
            } else {
                mem[i]
            },
    )
}

/// The reference byte loop for a copy: one byte at a time, lowest address
/// first, each byte read from the range as the earlier writes left it.
pub open spec fn byte_loop_copy(mem: Seq<u8>, dest: int, src: int, n: nat) -> Seq<u8>
    decreases n,
{
    if n == 0 {
        mem
    } else {
        byte_loop_copy(mem.update(dest, mem[src]), dest + 1, src + 1, (n - 1) as nat)
    }
}

/// The reference byte loop for a fill: one byte at a time, lowest address
/// first.
pub open spec fn byte_loop_fill(mem: Seq<u8>, s: int, byte: u8, n: nat) -> Seq<u8>
    decreases n,
{
    if n == 0 {
        mem
    } else {
        byte_loop_fill(mem.update(s, byte), s + 1, byte, (n - 1) as nat)
    }
}

/// Whether `[a, a + n)` and `[b, b + n)` share no byte.
pub open spec fn disjoint(a: int, b: int, n: int) -> bool {
    a + n <= b || b + n <= a
}

/// The low eight bits of a C `int` fill value.
pub open spec fn low_byte(c: i32) -> u8 {
    (c as int % 256) as u8
}

/// The byte loop leaves the length alone, touches only the destination, and
/// keeps every byte it has not yet reached.
pub proof fn lemma_byte_loop_copy_frame(mem: Seq<u8>, dest: int, src: int, n: nat)
    requires
        0 <= dest,
        dest + n <= mem.len(),
    ensures
        byte_loop_copy(mem, dest, src, n).len() == mem.len(),
        forall|i: int|
            0 <= i < mem.len() && !(dest <= i < dest + n) ==> #[trigger] byte_loop_copy(
                mem,
                dest,
                src,
                n,
            )[i] == mem[i],
    decreases n,
{
    if n > 0 {
        lemma_byte_loop_copy_frame(mem.update(dest, mem[src]), dest + 1, src + 1, (n - 1) as nat);
    }
}

/// A forward byte loop gives the result of a copy through a scratch buffer
/// whenever no write lands on a source byte that is still to be read: when
/// the destination does not lie above the source, or the two ranges share no
/// byte.
pub proof fn lemma_byte_loop_copy_is_copied(mem: Seq<u8>, dest: int, src: int, n: nat)
    requires
        0 <= dest,
        0 <= src,
        dest + n <= mem.len(),
        src + n <= mem.len(),
        dest <= src || disjoint(dest, src, n as int),
    ensures
        byte_loop_copy(mem, dest, src, n) == copied(mem, dest, src, n as int),
    decreases n,
{
    if n > 0 {
        let step = mem.update(dest, mem[src]);
        let rest = (n - 1) as nat;
        lemma_byte_loop_copy_is_copied(step, dest + 1, src + 1, rest);
        lemma_byte_loop_copy_frame(step, dest + 1, src + 1, rest);
    }
}

/// A byte loop that fills gives the filled range.
pub proof fn lemma_byte_loop_fill_is_filled(mem: Seq<u8>, s: int, byte: u8, n: nat)
    requires
        0 <= s,
        s + n <= mem.len(),
    ensures
        byte_loop_fill(mem, s, byte, n) == filled(mem, s, byte, n as int),
    decreases n,
{
    if n > 0 {
        let step = mem.update(s, byte);
        lemma_byte_loop_fill_is_filled(step, s + 1, byte, (n - 1) as nat);
    }
}

/// Copies byte by byte, lowest address first, as the processor's repeated
/// byte move does. Overlap is allowed; the result is that of the byte loop.
fn forward_copy(mem: &mut [u8], dest: usize, src: usize, n: usize)
    requires
        dest + n <= old(mem)@.len(),
        src + n <= old(mem)@.len(),
    ensures
        final(mem)@ == byte_loop_copy(old(mem)@, dest as int, src as int, n as nat),
{
    let len = mem.len();
    let mut i: usize = 0;
    while i < n
        invariant
            i <= n,
            mem@.len() == len,
            dest + n <= mem@.len(),
            src + n <= mem@.len(),
            byte_loop_copy(mem@, dest + i, src + i, (n - i) as nat) == byte_loop_copy(
                old(mem)@,
                dest as int,
                src as int,
                n as nat,
            ),
        decreases n - i,
    {
        let b = mem[src + i];
        mem[dest + i] = b;
        i += 1;
    }
}

/// Copies `n` bytes from offset `src` to offset `dest` and returns `dest`.
/// The two ranges must not overlap.
pub fn memcpy(mem: &mut [u8], dest: usize, src: usize, n: usize) -> (ret: usize)
    requires
        dest + n <= old(mem)@.len(),
        src + n <= old(mem)@.len(),
        disjoint(dest as int, src as int, n as int),
    ensures
        ret == dest,
        final(mem)@ == copied(old(mem)@, dest as int, src as int, n as int),
        final(mem)@ == byte_loop_copy(old(mem)@, dest as int, src as int, n as nat),
{
    proof {
        lemma_byte_loop_copy_is_copied(mem@, dest as int, src as int, n as nat);
    }
    forward_copy(mem, dest, src, n);
    dest
}

/// Sets the `n` bytes from offset `s` on to the low eight bits of `c` and
/// returns `s`.
pub fn memset(mem: &mut [u8], s: usize, c: i32, n: usize) -> (ret: usize)
    requires
        s + n <= old(mem)@.len(),
    ensures
        ret == s,
        final(mem)@ == filled(old(mem)@, s as int, low_byte(c), n as int),
        final(mem)@ == byte_loop_fill(old(mem)@, s as int, low_byte(c), n as nat),
{
    let byte: u8 = #[verifier::truncate] ((c & 0xff) as u8);
    assert(byte == low_byte(c)) by {
        assert((c & 0xff) as int == c as int % 256) by (bit_vector);
    }
    proof {
        lemma_byte_loop_fill_is_filled(mem@, s as int, byte, n as nat);
    }
    let len = mem.len();
    let mut i: usize = 0;
    while i < n
        invariant
            i <= n,
            mem@.len() == len,
            s + n <= mem@.len(),
            byte_loop_fill(mem@, s + i, byte, (n - i) as nat) == byte_loop_fill(
                old(mem)@,
                s as int,
                byte,
                n as nat,
            ),
        decreases n - i,
    {
        mem[s + i] = byte;
        i += 1;
    }
    s
}

/// Whether `i` is the lowest index at which `a` and `b` differ.
pub open spec fn is_first_difference(a: Seq<u8>, b: Seq<u8>, i: int) -> bool {
    &&& 0 <= i
    &&& a[i] != b[i]
    &&& forall|j: int| 0 <= j < i ==> a[j] == b[j]
}

/// The reference byte loop for a comparison of the bytes at `from..n`: the
/// difference of the first pair that differs, scanning upward, or zero.
pub open spec fn byte_loop_compare(a: Seq<u8>, b: Seq<u8>, from: int, n: int) -> int
    decreases n - from,
{
    if from >= n {
        0
    } else if a[from] != b[from] {
        a[from] - b[from]
    } else {
        byte_loop_compare(a, b, from + 1, n)
    }
}

/// The result of comparing the first `n` bytes of `a` and `b`.
pub open spec fn compared(a: Seq<u8>, b: Seq<u8>, n: usize) -> int {
    byte_loop_compare(a, b, 0, n as int)
}

proof fn lemma_byte_loop_compare_skips_equal(a: Seq<u8>, b: Seq<u8>, from: int, n: int)
    requires
        0 <= from <= n,
        forall|j: int| 0 <= j < from ==> a[j] == b[j],
    ensures
        byte_loop_compare(a, b, 0, n) == byte_loop_compare(a, b, from, n),
    decreases from,
{
    if from > 0 {
        lemma_byte_loop_compare_skips_equal(a, b, from - 1, n);
    }
}

proof fn lemma_byte_loop_compare_zero(a: Seq<u8>, b: Seq<u8>, from: int, n: int)
    requires
        0 <= from <= n,
        byte_loop_compare(a, b, from, n) == 0,
    ensures
        forall|j: int| from <= j < n ==> a[j] == b[j],
    decreases n - from,
{
    if from < n {
        lemma_byte_loop_compare_zero(a, b, from + 1, n);
    }
}

/// The comparison is zero exactly when the first `n` bytes agree, and is
/// otherwise the difference `a[i] - b[i]` at the first index where they
/// differ, so that its sign is the sign of that difference.
pub proof fn lemma_compared(a: Seq<u8>, b: Seq<u8>, n: usize)
    ensures
        compared(a, b, n) == 0 <==> (forall|i: int| 0 <= i < n ==> a[i] == b[i]),
        forall|i: int|
            is_first_difference(a, b, i) && i < n ==> compared(a, b, n) == a[i] - b[i],
{
    if compared(a, b, n) == 0 {
        lemma_byte_loop_compare_zero(a, b, 0, n as int);
    }
    if forall|i: int| 0 <= i < n ==> a[i] == b[i] {
        lemma_byte_loop_compare_skips_equal(a, b, n as int, n as int);
    }
    assert forall|i: int| is_first_difference(a, b, i) && i < n implies compared(a, b, n) == a[i]
        - b[i] by {
        lemma_byte_loop_compare_skips_equal(a, b, i, n as int);
    }
}

proof fn lemma_difference_found(a: Seq<u8>, b: Seq<u8>, at: usize, n: usize)
    requires
        at < n,
        a[at as int] != b[at as int],
        forall|j: int| 0 <= j < at ==> a[j] == b[j],
    ensures
        is_first_difference(a, b, at as int),
        compared(a, b, n) == a[at as int] - b[at as int],
        compared(a, b, n) != 0,
        forall|i: int| is_first_difference(a, b, i) ==> i == at,
{
    lemma_compared(a, b, n);
    assert(is_first_difference(a, b, at as int));
}

/// The difference of two bytes as a C `int`.
fn byte_difference(a: u8, b: u8) -> (d: i32)
    ensures
        d == a - b,
{
    a as i32 - b as i32
}

/// Compares the first `n` bytes of `s1` and `s2` in order. Returns zero if
/// they all agree, and otherwise the difference of the first pair that
/// differs; zero at once where `n` is zero.
pub fn memcmp(s1: &[u8], s2: &[u8], n: usize) -> (ret: i32)
    requires
        n <= s1@.len(),
        n <= s2@.len(),
    ensures
        ret == compared(s1@, s2@, n),
        ret == 0 <==> (forall|i: int| 0 <= i < n ==> s1@[i] == s2@[i]),
        forall|i: int| is_first_difference(s1@, s2@, i) && i < n ==> ret == s1@[i] - s2@[i],
{
    let mut ii: usize = 0;
    while ii < n
        invariant
            ii <= n,
            n <= s1@.len(),
            n <= s2@.len(),
            forall|j: int| 0 <= j < ii ==> s1@[j] == s2@[j],
        decreases n - ii,
    {
        let a = s1[ii];
        let b = s2[ii];
        if a != b {
            proof {
                lemma_difference_found(s1@, s2@, ii, n);
            }
            return byte_difference(a, b);
        }
        ii += 1;
    }
    proof {
        lemma_compared(s1@, s2@, n);
    }
    0
}

/// Reads the eight bytes at `at` in one go, as an unaligned word read does.
fn read_block(mem: &[u8], at: usize) -> (block: [u8; 8])
    requires
        at + 8 <= mem@.len(),
    ensures
        forall|k: int| 0 <= k < 8 ==> block@[k] == mem@[at + k],
{
    [
        mem[at],
        mem[at + 1],
        mem[at + 2],
        mem[at + 3],
        mem[at + 4],
        mem[at + 5],
        mem[at + 6],
        mem[at + 7],
    ]
}

/// Writes eight bytes at `at` in one go, as a word write does.
fn write_block(mem: &mut [u8], at: usize, block: &[u8; 8])
    requires
        at + 8 <= old(mem)@.len(),
    ensures
        final(mem)@.len() == old(mem)@.len(),
        forall|i: int|
            0 <= i < old(mem)@.len() ==> final(mem)@[i] == if at <= i < at + 8 {
                block@[i - at]
            } else {
                old(mem)@[i]
            },
{
    let len = mem.len();
    let mut k: usize = 0;
    while k < 8
        invariant
            k <= 8,
            at + 8 <= len,
            mem@.len() == len,
            len == old(mem)@.len(),
            forall|i: int|
                0 <= i < mem@.len() ==> mem@[i] == if at <= i < at + k {
                    block@[i - at]
                } else {
                    old(mem)@[i]
                },
        decreases 8 - k,
    {
        mem[at + k] = block[k];
        k += 1;
    }
}

/// Copies `n` bytes from offset `src` to offset `dest` and returns `dest`.
/// The ranges may overlap: the result is that of copying through a scratch
/// buffer.
///
/// Where the destination lies above the source and inside it, a forward copy
/// would overwrite source bytes before reading them. With the two less than
/// 64 bytes apart the copy then runs from the high end downward: single bytes
/// until the destination index is a multiple of eight, then eight bytes at a
/// time, then single bytes. With the two 64 bytes or more apart, the tail is
/// copied in pieces as long as the distance, highest first, each of which
/// overlaps nothing, and what is left below one such piece is copied forward.
pub fn memmove(mem: &mut [u8], dest: usize, src: usize, n: usize) -> (ret: usize)
    requires
        dest + n <= old(mem)@.len(),
        src + n <= old(mem)@.len(),
    ensures
        ret == dest,
        final(mem)@ == copied(old(mem)@, dest as int, src as int, n as int),
        n == 0 || dest == src ==> final(mem)@ == old(mem)@,
{
    let len = mem.len();
    let ghost before = mem@;
    let ghost total = n as int;
    let mut n = n;
    if dest > src && src + n > dest {
        let overhang = dest - src;
        if overhang < 64 {
            while n != 0 && (dest + n) & 0x7 != 0
                invariant
                    n <= total,
                    src < dest,
                    dest + total <= len,
                    mem@.len() == len,
                    mem@ == copied(before, dest + n, src + n, total - n),
                decreases n,
            {
                n -= 1;
                let b = mem[src + n];
                mem[dest + n] = b;
            }
            while n >= 8
                invariant
                    n <= total,
                    src < dest,
                    dest + total <= len,
                    mem@.len() == len,
                    mem@ == copied(before, dest + n, src + n, total - n),
                decreases n,
            {
                n -= 8;
                let val = read_block(mem, src + n);
                write_block(mem, dest + n, &val);
            }
            while n != 0
                invariant
                    n <= total,
                    src < dest,
                    dest + total <= len,
                    mem@.len() == len,
                    mem@ == copied(before, dest + n, src + n, total - n),
                decreases n,
            {
                n -= 1;
                let b = mem[src + n];
                mem[dest + n] = b;
            }
            return dest;
        }
        while n >= overhang
            invariant
                n <= total,
                src < dest,
                overhang == dest - src,
                dest + total <= len,
                mem@.len() == len,
                mem@ == copied(before, dest + n, src + n, total - n),
            decreases n,
        {
            n -= overhang;
            memcpy(mem, dest + n, src + n, overhang);
        }
        if n == 0 {
            return dest;
        }
    }
    proof {
        lemma_byte_loop_copy_is_copied(mem@, dest as int, src as int, n as nat);
    }
    forward_copy(mem, dest, src, n);
    dest
}

} // verus!
