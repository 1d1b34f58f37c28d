//! Bytes in memory: C strings, and the filling, moving and comparing of
//! ranges.
//!
//! A C string is the bytes before the first zero byte. Where a slice holds no
//! zero byte, the whole slice is the string.

use vstd::prelude::*;

verus! {

/// The number of bytes in `bytes` before the first zero byte, or the length
/// of `bytes` if it holds none.
pub open spec fn text_length(bytes: Seq<u8>) -> nat
    decreases bytes.len(),
{
    if bytes.len() == 0 || bytes[0] == 0 {
        0
    } else {
        1 + text_length(bytes.drop_first())
    }
}

/// The bytes of `bytes` before its first zero byte.
pub open spec fn text(bytes: Seq<u8>) -> Seq<u8> {
    bytes.take(text_length(bytes) as int)
}

/// No byte of a text is zero, and the byte behind the text, if there is one,
/// is.
pub proof fn lemma_text_length(bytes: Seq<u8>, i: nat)
    ensures
        text_length(bytes) <= bytes.len(),
        i < text_length(bytes) ==> bytes[i as int] != 0,
        i == text_length(bytes) && i < bytes.len() ==> bytes[i as int] == 0,
        i < bytes.len() && bytes[i as int] == 0 ==> text_length(bytes) <= i,
    decreases bytes.len(),
{
    if bytes.len() > 0 && bytes[0] != 0 {
        if i == 0 {
            lemma_text_length(bytes.drop_first(), 0);
        } else {
            lemma_text_length(bytes.drop_first(), (i - 1) as nat);
        }
    }
}

/// The length of the C string in `s`.
pub fn strlen(s: &[u8]) -> (len: usize)
    ensures
        len == text_length(s@),
{
    let mut len: usize = 0;
    while len < s.len() && s[len] != 0
        invariant
            len <= s.len(),
            len <= text_length(s@),
        decreases s.len() - len,
    {
        proof {
            lemma_text_length(s@, len as nat);
        }
        len += 1;
    }
    proof {
        lemma_text_length(s@, len as nat);
    }
    len
}

/// Sets the first `n` bytes of `s` to `c`.
pub fn memset(s: &mut [u8], c: u8, n: usize)
    requires
        n <= old(s)@.len(),
    ensures
        final(s)@ == Seq::new(n as nat, |i: int| c) + old(s)@.skip(n as int),
{
    let mut i: usize = 0;
    while i < n
        invariant
            i <= n <= s@.len(),
            s@.len() == old(s)@.len(),
            s@ == Seq::new(i as nat, |j: int| c) + old(s)@.skip(i as int),
        decreases n - i,
    {
        s[i] = c;
        i += 1;
    }
}

/// Memory in which the `n` bytes from index `dest` on hold what the `n`
/// bytes from index `src` on held in `memory`, and every other byte is as in
/// `memory`.
pub open spec fn moved(memory: Seq<u8>, dest: int, src: int, n: int) -> Seq<u8> {
    Seq::new(
        memory.len(),
        |i: int|
            if dest <= i < dest + n {
                memory[src + i - dest]
            } else {
                memory[i]
            },
    )
}

/// Copies the `n` bytes from index `src` on to index `dest` on. The two
/// ranges may overlap: the bytes are copied from the front if the
/// destination starts before the source, and from the back otherwise.
pub fn memmove(memory: &mut [u8], dest: usize, src: usize, n: usize)
    requires
        dest + n <= old(memory)@.len(),
        src + n <= old(memory)@.len(),
    ensures
        final(memory)@ == moved(old(memory)@, dest as int, src as int, n as int),
{
    let size: usize = memory.len();
    if dest < src {
        let mut i: usize = 0;
        while i < n
            invariant
                i <= n,
                dest < src,
                dest + n <= memory@.len(),
                src + n <= memory@.len(),
                memory@.len() == old(memory)@.len() == size,
                forall|j: int|
                    0 <= j < memory@.len() ==> #[trigger] memory@[j] == (if dest <= j < dest
                        + i {
                        old(memory)@[src + j - dest]
                    } else {
                        old(memory)@[j]
                    }),
            decreases n - i,
        {
            memory[dest + i] = memory[src + i];
            i += 1;
        }
    } else {
        let mut i: usize = n;
        while i > 0
            invariant
                i <= n,
                dest >= src,
                dest + n <= memory@.len(),
                src + n <= memory@.len(),
                memory@.len() == old(memory)@.len() == size,
                forall|j: int|
                    0 <= j < memory@.len() ==> #[trigger] memory@[j] == (if dest + i <= j
                        < dest + n {
                        old(memory)@[src + j - dest]
                    } else {
                        old(memory)@[j]
                    }),
            decreases i,
        {
            i -= 1;
            memory[dest + i] = memory[src + i];
        }
    }
}

/// How the first `n` bytes of `s1` stand to those of `s2`: zero if they are
/// the same, else the first byte of `s1` that differs less its counterpart.
pub open spec fn difference(s1: Seq<u8>, s2: Seq<u8>, n: usize) -> int
    decreases n,
{
    if n == 0 {
        0
    } else if s1[0] != s2[0] {
        s1[0] - s2[0]
    } else {
        difference(s1.drop_first(), s2.drop_first(), (n - 1) as usize)
    }
}

/// The byte `b` as a signed number.
fn widen(b: u8) -> (wide: i32)
    ensures
        wide == b,
{
    b as i32
}

/// Compares the first `n` bytes of `s1` with those of `s2`. The result is
/// zero if they are the same; else it has the sign of the first byte of `s1`
/// that differs less its counterpart, and is their difference.
pub fn memcmp(s1: &[u8], s2: &[u8], n: usize) -> (order: i32)
    requires
        n <= s1@.len(),
        n <= s2@.len(),
    ensures
        order == difference(s1@, s2@, n),
{
    let mut i: usize = 0;
    while i < n
        invariant
            i <= n,
            n <= s1@.len(),
            n <= s2@.len(),
            forall|j: int| 0 <= j < i ==> s1@[j] == s2@[j],
        decreases n - i,
    {
        let b1: u8 = s1[i];
        let b2: u8 = s2[i];
        if b1 != b2 {
            proof {
                lemma_difference(s1@, s2@, n, i);
            }
            return widen(b1) - widen(b2);
        }
        i += 1;
    }
    proof {
        lemma_difference(s1@, s2@, n, n);
    }
    0
}

/// Compares the first `n` bytes of `s1` with those of `s2`; see [`memcmp`].
pub fn bcmp(s1: &[u8], s2: &[u8], n: usize) -> (order: i32)
    requires
        n <= s1@.len(),
        n <= s2@.len(),
    ensures
        order == difference(s1@, s2@, n),
{
    memcmp(s1, s2, n)
}

/// Where the first `i` bytes agree, the comparison is decided by byte `i`,
/// or comes to zero if `i` is `n`.
pub proof fn lemma_difference(s1: Seq<u8>, s2: Seq<u8>, n: usize, i: usize)
    requires
        i <= n,
        n <= s1.len(),
        n <= s2.len(),
        forall|j: int| 0 <= j < i ==> s1[j] == s2[j],
    ensures
        i == n ==> difference(s1, s2, n) == 0,
        i < n && s1[i as int] != s2[i as int] ==> difference(s1, s2, n) == s1[i as int]
            - s2[i as int],
    decreases n,
{
    if n > 0 && i > 0 {
        lemma_difference(s1.drop_first(), s2.drop_first(), (n - 1) as usize, (i - 1) as usize);
    }
}

} // verus!
