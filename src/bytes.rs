use vstd::prelude::*;
use vstd::slice::slice_subrange;
use byteorder::{BigEndian, ByteOrder};
use crate::error::{ClassLoadError, LoadFault, Step};

verus! {

/// The big-endian 16-bit value of the two bytes at `p`.
pub open spec fn be16(d: Seq<u8>, p: int) -> u16 {
    (d[p] as int * 0x100 + d[p + 1] as int) as u16
}

/// The big-endian 32-bit value of the four bytes at `p`.
pub open spec fn be32(d: Seq<u8>, p: int) -> u32 {
    (d[p] as int * 0x1000000 + d[p + 1] as int * 0x10000 + d[p + 2] as int * 0x100
        + d[p + 3] as int) as u32
}

/// Relies on byteorder's `BigEndian::read_u16`: the first two bytes, most
/// significant first.
#[verifier::external_body]
fn be_u16(buf: &[u8]) -> (r: u16)
    requires
        buf@.len() >= 2,
    ensures
        r == be16(buf@, 0),
{
    BigEndian::read_u16(buf)
}

/// Relies on byteorder's `BigEndian::read_u32`: the first four bytes, most
/// significant first.
#[verifier::external_body]
fn be_u32(buf: &[u8]) -> (r: u32)
    requires
        buf@.len() >= 4,
    ensures
        r == be32(buf@, 0),
{
    BigEndian::read_u32(buf)
}

/// Relies on `str`'s `==`: two strings are equal when their characters are.
#[verifier::external_body]
pub(crate) fn same_text(a: &str, b: &str) -> (r: bool)
    ensures
        r == (a@ == b@),
{
    a == b
}

/// One byte at `p`.
pub open spec fn u8_at(d: Seq<u8>, p: int) -> Step<u8> {
    if 0 <= p && p + 1 <= d.len() {
        Ok((d[p], p + 1))
    } else {
        Err(LoadFault::ClassFileReadFailure)
    }
}

/// A big-endian 16-bit field at `p`.
pub open spec fn u16_at(d: Seq<u8>, p: int) -> Step<u16> {
    if 0 <= p && p + 2 <= d.len() {
        Ok((be16(d, p), p + 2))
    } else {
        Err(LoadFault::ClassFileReadFailure)
    }
}

/// A big-endian 32-bit field at `p`.
pub open spec fn u32_at(d: Seq<u8>, p: int) -> Step<u32> {
    if 0 <= p && p + 4 <= d.len() {
        Ok((be32(d, p), p + 4))
    } else {
        Err(LoadFault::ClassFileReadFailure)
    }
}

/// `n` raw bytes at `p`.
pub open spec fn bytes_at(d: Seq<u8>, p: int, n: int) -> Step<Seq<u8>> {
    if 0 <= p && 0 <= n && p + n <= d.len() {
        Ok((d.subrange(p, p + n), p + n))
    } else {
        Err(LoadFault::ClassFileReadFailure)
    }
}

pub fn read_u8(d: &[u8], p: usize) -> (r: Result<(u8, usize), ClassLoadError>)
    ensures
        match r {
            Ok((v, e)) => u8_at(d@, p as int) == Ok::<_, LoadFault>((v, e as int)),
            Err(e) => u8_at(d@, p as int) == Err::<(u8, int), _>(e@),
        },
{
    if p < d.len() {
        Ok((d[p], p + 1))
    } else {
        Err(ClassLoadError::ClassFileReadFailure)
    }
}

pub fn read_u16(d: &[u8], p: usize) -> (r: Result<(u16, usize), ClassLoadError>)
    ensures
        match r {
            Ok((v, e)) => u16_at(d@, p as int) == Ok::<_, LoadFault>((v, e as int)),
            Err(e) => u16_at(d@, p as int) == Err::<(u16, int), _>(e@),
        },
{
    if p <= d.len() && d.len() - p >= 2 {
        let s = slice_subrange(d, p, p + 2);
        let v = be_u16(s);
        Ok((v, p + 2))
    } else {
        Err(ClassLoadError::ClassFileReadFailure)
    }
}

pub fn read_u32(d: &[u8], p: usize) -> (r: Result<(u32, usize), ClassLoadError>)
    ensures
        match r {
            Ok((v, e)) => u32_at(d@, p as int) == Ok::<_, LoadFault>((v, e as int)),
            Err(e) => u32_at(d@, p as int) == Err::<(u32, int), _>(e@),
        },
{
    if p <= d.len() && d.len() - p >= 4 {
        let s = slice_subrange(d, p, p + 4);
        let v = be_u32(s);
        Ok((v, p + 4))
    } else {
        Err(ClassLoadError::ClassFileReadFailure)
    }
}

pub fn read_bytes(d: &[u8], p: usize, n: usize) -> (r: Result<(Vec<u8>, usize), ClassLoadError>)
    ensures
        match r {
            Ok((v, e)) => bytes_at(d@, p as int, n as int) == Ok::<_, LoadFault>((v@, e as int)),
            Err(e) => bytes_at(d@, p as int, n as int) == Err::<(Seq<u8>, int), _>(e@),
        },
{
    if p <= d.len() && d.len() - p >= n {
        let s = slice_subrange(d, p, p + n);
        let v = vstd::slice::slice_to_vec(s);
        Ok((v, p + n))
    } else {
        Err(ClassLoadError::ClassFileReadFailure)
    }
}

/// `n` items in a row from `p`, each read by `item`.
pub open spec fn list_from<T>(d: Seq<u8>, p: int, n: nat, item: spec_fn(Seq<u8>, int) -> Step<T>) -> Step<
    Seq<T>,
>
    decreases n,
{
    if n == 0 {
        Ok((seq![], p))
    } else {
        match item(d, p) {
            Err(e) => Err(e),
            Ok((x, q)) => match list_from(d, q, (n - 1) as nat, item) {
                Err(e) => Err(e),
                Ok((rest, r)) => Ok((seq![x] + rest, r)),
            },
        }
    }
}

/// `s` with the items already read put in front of its items.
pub open spec fn prepend<T>(acc: Seq<T>, s: Step<Seq<T>>) -> Step<Seq<T>> {
    match s {
        Err(e) => Err(e),
        Ok((rest, r)) => Ok((acc + rest, r)),
    }
}

/// `x` put in front of the items of `s`.
pub open spec fn cons<T>(x: T, s: Step<Seq<T>>) -> Step<Seq<T>> {
    match s {
        Err(e) => Err(e),
        Ok((rest, r)) => Ok((seq![x] + rest, r)),
    }
}

/// Moving the front item of a list to the items already read.
pub proof fn lemma_cons_step<T>(acc: Seq<T>, x: T, s: Step<Seq<T>>)
    ensures
        prepend(acc, cons(x, s)) == prepend(acc.push(x), s),
{
    if let Ok((rest, r)) = s {
        assert(acc + (seq![x] + rest) =~= acc.push(x) + rest);
    }
}

/// One step of reading a list: the item at `q` moves from the list to the
/// items already read, or its fault ends the list.
pub proof fn lemma_list_step<T>(
    d: Seq<u8>,
    q: int,
    m: nat,
    item: spec_fn(Seq<u8>, int) -> Step<T>,
    acc: Seq<T>,
)
    requires
        m > 0,
    ensures
        item(d, q) matches Ok((x, q2)) ==> prepend(acc, list_from(d, q, m, item)) == prepend(
            acc.push(x),
            list_from(d, q2, (m - 1) as nat, item),
        ),
        item(d, q) matches Err(e) ==> prepend(acc, list_from(d, q, m, item)) == Err::<(Seq<T>, int), _>(e),
{
    if let Ok((x, q2)) = item(d, q) {
        if let Ok((rest, r)) = list_from(d, q2, (m - 1) as nat, item) {
            assert(acc + (seq![x] + rest) =~= acc.push(x) + rest);
        }
    }
}

/// A list with nothing read yet is the list itself; one with all read is done.
pub proof fn lemma_list_ends<T>(d: Seq<u8>, p: int, item: spec_fn(Seq<u8>, int) -> Step<T>, s: Step<Seq<T>>)
    ensures
        prepend(seq![], s) == s,
        forall|acc: Seq<T>| prepend(acc, list_from(d, p, 0, item)) == Ok::<_, LoadFault>((acc, p)),
{
    if let Ok((rest, r)) = s {
        assert(seq![] + rest =~= rest);
    }
    assert forall|acc: Seq<T>| prepend(acc, list_from(d, p, 0, item)) == Ok::<_, LoadFault>((acc, p)) by {
        assert(acc + seq![] =~= acc);
    }
}

} // verus!
