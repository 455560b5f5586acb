use vstd::prelude::*;
use crate::bytes::{read_bytes, read_u16, read_u32, read_u8, bytes_at, u16_at, u32_at, u8_at};
use crate::error::{ClassLoadError, LoadFault, Step};

verus! {

/// One slot of a constant pool.
#[derive(Debug, PartialEq, Eq)]
pub enum ConstantPoolTag {
    Class(u16),
    FieldRef(u16, u16),
    MethodRef(u16, u16),
    InterfaceMethodRef(u16, u16),
    String(u16),
    Integer(u32),
    Float(u32),
    Long(u32, u32),
    Double(u32, u32),
    NameAndType(u16, u16),
    /// Declared byte length, the raw bytes, and their text.
    Utf8(u16, Vec<u8>, String),
    MethodHandle(u8, u16),
    MethodType(u16),
    InvokeDynamic(u16, u16),
    /// The inert second slot of a `Long` or `Double`.
    Placeholder,
}

/// The mathematical value of a constant pool slot.
pub enum PoolEntry {
    Class(u16),
    FieldRef(u16, u16),
    MethodRef(u16, u16),
    InterfaceMethodRef(u16, u16),
    String(u16),
    Integer(u32),
    Float(u32),
    Long(u32, u32),
    Double(u32, u32),
    NameAndType(u16, u16),
    Utf8(u16, Seq<u8>, Seq<char>),
    MethodHandle(u8, u16),
    MethodType(u16),
    InvokeDynamic(u16, u16),
    Placeholder,
}

impl View for ConstantPoolTag {
    type V = PoolEntry;

    open spec fn view(&self) -> PoolEntry {
        match self {
            ConstantPoolTag::Class(a) => PoolEntry::Class(*a),
            ConstantPoolTag::FieldRef(a, b) => PoolEntry::FieldRef(*a, *b),
            ConstantPoolTag::MethodRef(a, b) => PoolEntry::MethodRef(*a, *b),
            ConstantPoolTag::InterfaceMethodRef(a, b) => PoolEntry::InterfaceMethodRef(*a, *b),
            ConstantPoolTag::String(a) => PoolEntry::String(*a),
            ConstantPoolTag::Integer(a) => PoolEntry::Integer(*a),
            ConstantPoolTag::Float(a) => PoolEntry::Float(*a),
            ConstantPoolTag::Long(a, b) => PoolEntry::Long(*a, *b),
            ConstantPoolTag::Double(a, b) => PoolEntry::Double(*a, *b),
            ConstantPoolTag::NameAndType(a, b) => PoolEntry::NameAndType(*a, *b),
            ConstantPoolTag::Utf8(n, b, s) => PoolEntry::Utf8(*n, b@, s@),
            ConstantPoolTag::MethodHandle(a, b) => PoolEntry::MethodHandle(*a, *b),
            ConstantPoolTag::MethodType(a) => PoolEntry::MethodType(*a),
            ConstantPoolTag::InvokeDynamic(a, b) => PoolEntry::InvokeDynamic(*a, *b),
            ConstantPoolTag::Placeholder => PoolEntry::Placeholder,
        }
    }
}

/// The text of `b` under UTF-8, or nothing where `b` is not valid UTF-8.
pub uninterp spec fn utf8_text(b: Seq<u8>) -> Option<Seq<char>>;

/// Relies on `String::from_utf8`: the bytes' text when they are valid UTF-8.
#[verifier::external_body]
fn decode_utf8(b: &Vec<u8>) -> (r: Option<String>)
    ensures
        r.is_some() == utf8_text(b@).is_some(),
        r matches Some(s) ==> s@ == utf8_text(b@).unwrap(),
{
    String::from_utf8(b.clone()).ok()
}

/// The text a Utf8 entry carries: its decoded bytes, or `<nil>` where they
/// do not decode.
pub open spec fn entry_text(b: Seq<u8>) -> Seq<char> {
    match utf8_text(b) {
        Some(t) => t,
        None => "<nil>"@,
    }
}

/// Two 16-bit fields at `p`, made into an entry by `f`.
pub open spec fn pair16_at(d: Seq<u8>, p: int, f: spec_fn(u16, u16) -> PoolEntry) -> Step<
    Seq<PoolEntry>,
> {
    match u16_at(d, p) {
        Err(e) => Err(e),
        Ok((a, q)) => match u16_at(d, q) {
            Err(e) => Err(e),
            Ok((b, r)) => Ok((seq![f(a, b)], r)),
        },
    }
}

/// One 16-bit field at `p`, made into an entry by `f`.
pub open spec fn one16_at(d: Seq<u8>, p: int, f: spec_fn(u16) -> PoolEntry) -> Step<Seq<PoolEntry>> {
    match u16_at(d, p) {
        Err(e) => Err(e),
        Ok((a, q)) => Ok((seq![f(a)], q)),
    }
}

/// An eight-byte constant at `p`, followed by its placeholder slot.
pub open spec fn wide_at(d: Seq<u8>, p: int, f: spec_fn(u32, u32) -> PoolEntry) -> Step<
    Seq<PoolEntry>,
> {
    match u32_at(d, p) {
        Err(e) => Err(e),
        Ok((a, q)) => match u32_at(d, q) {
            Err(e) => Err(e),
            Ok((b, r)) => Ok((seq![f(a, b), PoolEntry::Placeholder], r)),
        },
    }
}

/// The slots that the entry at `p` fills: one, or two for `Long` and `Double`.
pub open spec fn entry_at(d: Seq<u8>, p: int) -> Step<Seq<PoolEntry>> {
    match u8_at(d, p) {
        Err(e) => Err(e),
        Ok((tag, q)) => if tag == 1 {
            match u16_at(d, q) {
                Err(e) => Err(e),
                Ok((n, r)) => match bytes_at(d, r, n as int) {
                    Err(e) => Err(e),
                    Ok((b, s)) => Ok((seq![PoolEntry::Utf8(n, b, entry_text(b))], s)),
                },
            }
        } else if tag == 3 || tag == 4 {
            match u32_at(d, q) {
                Err(e) => Err(e),
                Ok((v, r)) => Ok(
                    (seq![if tag == 3 { PoolEntry::Integer(v) } else { PoolEntry::Float(v) }], r),
                ),
            }
        } else if tag == 5 {
            wide_at(d, q, |a, b| PoolEntry::Long(a, b))
        } else if tag == 6 {
            wide_at(d, q, |a, b| PoolEntry::Double(a, b))
        } else if tag == 7 {
            one16_at(d, q, |a| PoolEntry::Class(a))
        } else if tag == 8 {
            one16_at(d, q, |a| PoolEntry::String(a))
        } else if tag == 9 {
            pair16_at(d, q, |a, b| PoolEntry::FieldRef(a, b))
        } else if tag == 10 {
            pair16_at(d, q, |a, b| PoolEntry::MethodRef(a, b))
        } else if tag == 11 {
            pair16_at(d, q, |a, b| PoolEntry::InterfaceMethodRef(a, b))
        } else if tag == 12 {
            pair16_at(d, q, |a, b| PoolEntry::NameAndType(a, b))
        } else if tag == 15 {
            match u8_at(d, q) {
                Err(e) => Err(e),
                Ok((k, r)) => match u16_at(d, r) {
                    Err(e) => Err(e),
                    Ok((i, s)) => Ok((seq![PoolEntry::MethodHandle(k, i)], s)),
                },
            }
        } else if tag == 16 {
            one16_at(d, q, |a| PoolEntry::MethodType(a))
        } else if tag == 18 {
            pair16_at(d, q, |a, b| PoolEntry::InvokeDynamic(a, b))
        } else {
            Err(LoadFault::UnknownConstantPoolTag(tag))
        },
    }
}

/// The name of a slot's kind.
pub open spec fn entry_kind(e: PoolEntry) -> Seq<char> {
    match e {
        PoolEntry::Class(..) => "Class"@,
        PoolEntry::FieldRef(..) => "FieldRef"@,
        PoolEntry::MethodRef(..) => "MethodRef"@,
        PoolEntry::InterfaceMethodRef(..) => "InterfaceMethodRef"@,
        PoolEntry::String(..) => "String"@,
        PoolEntry::Integer(..) => "Integer"@,
        PoolEntry::Float(..) => "Float"@,
        PoolEntry::Long(..) => "Long"@,
        PoolEntry::Double(..) => "Double"@,
        PoolEntry::NameAndType(..) => "NameAndType"@,
        PoolEntry::Utf8(..) => "Utf8"@,
        PoolEntry::MethodHandle(..) => "MethodHandle"@,
        PoolEntry::MethodType(..) => "MethodType"@,
        PoolEntry::InvokeDynamic(..) => "InvokeDynamic"@,
        PoolEntry::Placeholder => "Placeholder"@,
    }
}

impl ConstantPoolTag {
    /// The name of this slot's kind.
    pub fn kind_name(&self) -> (r: String)
        ensures
            r@ == entry_kind(self@),
    {
        match self {
            ConstantPoolTag::Class(..) => String::from_str("Class"),
            ConstantPoolTag::FieldRef(..) => String::from_str("FieldRef"),
            ConstantPoolTag::MethodRef(..) => String::from_str("MethodRef"),
            ConstantPoolTag::InterfaceMethodRef(..) => String::from_str("InterfaceMethodRef"),
            ConstantPoolTag::String(..) => String::from_str("String"),
            ConstantPoolTag::Integer(..) => String::from_str("Integer"),
            ConstantPoolTag::Float(..) => String::from_str("Float"),
            ConstantPoolTag::Long(..) => String::from_str("Long"),
            ConstantPoolTag::Double(..) => String::from_str("Double"),
            ConstantPoolTag::NameAndType(..) => String::from_str("NameAndType"),
            ConstantPoolTag::Utf8(..) => String::from_str("Utf8"),
            ConstantPoolTag::MethodHandle(..) => String::from_str("MethodHandle"),
            ConstantPoolTag::MethodType(..) => String::from_str("MethodType"),
            ConstantPoolTag::InvokeDynamic(..) => String::from_str("InvokeDynamic"),
            ConstantPoolTag::Placeholder => String::from_str("Placeholder"),
        }
    }
}

/// The views of a sequence of slots.
pub open spec fn entries_view(v: Seq<ConstantPoolTag>) -> Seq<PoolEntry> {
    v.map_values(|e: ConstantPoolTag| e@)
}

/// Decodes the entry at `p` into its one or two slots.
pub fn read_entry(d: &[u8], p: usize) -> (r: Result<(Vec<ConstantPoolTag>, usize), ClassLoadError>)
    ensures
        match r {
            Ok((v, e)) => entry_at(d@, p as int) == Ok::<_, LoadFault>((entries_view(v@), e as int)),
            Err(e) => entry_at(d@, p as int) == Err::<(Seq<PoolEntry>, int), _>(e@),
        },
{
    let (tag, q) = read_u8(d, p)?;
    let mut out: Vec<ConstantPoolTag> = Vec::new();
    if tag == 1 {
        let (n, r) = read_u16(d, q)?;
        let (b, s) = read_bytes(d, r, n as usize)?;
        let text = match decode_utf8(&b) {
            Some(t) => t,
            None => String::from_str("<nil>"),
        };
        out.push(ConstantPoolTag::Utf8(n, b, text));
        proof {
            assert(entries_view(out@) =~= entry_at(d@, p as int)->Ok_0.0);
        }
        Ok((out, s))
    } else if tag == 3 || tag == 4 {
        let (v, r) = read_u32(d, q)?;
        out.push(if tag == 3 { ConstantPoolTag::Integer(v) } else { ConstantPoolTag::Float(v) });
        proof {
            assert(entries_view(out@) =~= entry_at(d@, p as int)->Ok_0.0);
        }
        Ok((out, r))
    } else if tag == 5 || tag == 6 {
        let (a, r) = read_u32(d, q)?;
        let (b, s) = read_u32(d, r)?;
        out.push(if tag == 5 { ConstantPoolTag::Long(a, b) } else { ConstantPoolTag::Double(a, b) });
        out.push(ConstantPoolTag::Placeholder);
        proof {
            assert(entries_view(out@) =~= entry_at(d@, p as int)->Ok_0.0);
        }
        Ok((out, s))
    } else if tag == 7 || tag == 8 || tag == 16 {
        let (a, r) = read_u16(d, q)?;
        out.push(
            if tag == 7 {
                ConstantPoolTag::Class(a)
            } else if tag == 8 {
                ConstantPoolTag::String(a)
            } else {
                ConstantPoolTag::MethodType(a)
            },
        );
        proof {
            assert(entries_view(out@) =~= entry_at(d@, p as int)->Ok_0.0);
        }
        Ok((out, r))
    } else if tag == 9 || tag == 10 || tag == 11 || tag == 12 || tag == 18 {
        let (a, r) = read_u16(d, q)?;
        let (b, s) = read_u16(d, r)?;
        out.push(
            if tag == 9 {
                ConstantPoolTag::FieldRef(a, b)
            } else if tag == 10 {
                ConstantPoolTag::MethodRef(a, b)
            } else if tag == 11 {
                ConstantPoolTag::InterfaceMethodRef(a, b)
            } else if tag == 12 {
                ConstantPoolTag::NameAndType(a, b)
            } else {
                ConstantPoolTag::InvokeDynamic(a, b)
            },
        );
        proof {
            assert(entries_view(out@) =~= entry_at(d@, p as int)->Ok_0.0);
        }
        Ok((out, s))
    } else if tag == 15 {
        let (k, r) = read_u8(d, q)?;
        let (i, s) = read_u16(d, r)?;
        out.push(ConstantPoolTag::MethodHandle(k, i));
        proof {
            assert(entries_view(out@) =~= entry_at(d@, p as int)->Ok_0.0);
        }
        Ok((out, s))
    } else {
        Err(ClassLoadError::UnknownConstantPoolTag(tag))
    }
}

} // verus!

verus! {

/// How many slots remain to be filled, never below zero.
pub open spec fn slots_left(filled: int, target: int) -> nat {
    if filled >= target {
        0
    } else {
        (target - filled) as nat
    }
}

/// Fills slots from the entries at `p` until `acc` reaches `target` slots.
pub open spec fn pool_from(d: Seq<u8>, p: int, acc: Seq<PoolEntry>, target: int) -> Step<
    Seq<PoolEntry>,
>
    decreases slots_left(acc.len() as int, target),
{
    if acc.len() >= target {
        Ok((acc, p))
    } else {
        match entry_at(d, p) {
            Err(e) => Err(e),
            Ok((s, q)) => {
                proof {
                    lemma_entry_fills_a_slot(d, p);
                    assert((acc + s).len() == acc.len() + s.len());
                }
                pool_from(d, q, acc + s, target)
            },
        }
    }
}

/// Every decoded entry fills at least one slot.
pub proof fn lemma_entry_fills_a_slot(d: Seq<u8>, p: int)
    ensures
        entry_at(d, p) matches Ok((s, _)) ==> s.len() >= 1,
{
}

/// The constant pool at `p`: a count, then entries until count - 1 slots
/// are filled (slot 0 of the 1-based pool is never stored).
pub open spec fn pool_at(d: Seq<u8>, p: int) -> Step<Seq<PoolEntry>> {
    match u16_at(d, p) {
        Err(e) => Err(e),
        Ok((count, q)) => pool_from(d, q, seq![], count as int - 1),
    }
}

/// Decodes a constant pool.
pub fn read_pool(d: &[u8], p: usize) -> (r: Result<(Vec<ConstantPoolTag>, usize), ClassLoadError>)
    ensures
        match r {
            Ok((v, e)) => pool_at(d@, p as int) == Ok::<_, LoadFault>((entries_view(v@), e as int)),
            Err(e) => pool_at(d@, p as int) == Err::<(Seq<PoolEntry>, int), _>(e@),
        },
{
    let (count, q0) = read_u16(d, p)?;
    let target: usize = if count == 0 {
        0
    } else {
        (count - 1) as usize
    };
    let mut pool: Vec<ConstantPoolTag> = Vec::new();
    let mut q = q0;
    proof {
        assert(entries_view(pool@) =~= seq![]);
    }
    while pool.len() < target
        invariant
            pool_at(d@, p as int) == pool_from(d@, q as int, entries_view(pool@), count as int - 1),
            count as int - 1 <= target,
            target == (if count == 0 { 0 } else { count - 1 }),
            target <= 0xffff,
        decreases slots_left(pool.len() as int, target as int),
    {
        proof {
            assert(entries_view(pool@).len() == pool@.len());
        }
        let ghost before = entries_view(pool@);
        let (mut slots, next) = match read_entry(d, q) {
            Ok(x) => x,
            Err(e) => {
                proof {
                    assert(pool_from(d@, q as int, before, count as int - 1) == Err::<
                        (Seq<PoolEntry>, int),
                        _,
                    >(e@));
                }
                return Err(e);
            },
        };
        proof {
            assert(entries_view(slots@).len() == slots@.len());
            lemma_entry_fills_a_slot(d@, q as int);
            assert(entries_view(pool@ + slots@) =~= before + entries_view(slots@));
            assert(pool_from(d@, q as int, before, count as int - 1) == pool_from(
                d@,
                next as int,
                before + entries_view(slots@),
                count as int - 1,
            ));
        }
        pool.append(&mut slots);
        q = next;
        proof {
            assert(entries_view(pool@).len() == pool@.len());
        }
    }
    Ok((pool, q))
}

} // verus!

verus! {

/// The two bytes of `x`, most significant first.
pub open spec fn u16_bytes(x: u16) -> Seq<u8> {
    seq![(x / 0x100) as u8, (x % 0x100) as u8]
}

/// The four bytes of `x`, most significant first.
pub open spec fn u32_bytes(x: u32) -> Seq<u8> {
    seq![
        (x / 0x1000000) as u8,
        (x / 0x10000 % 0x100) as u8,
        (x / 0x100 % 0x100) as u8,
        (x % 0x100) as u8,
    ]
}

/// The bytes that encode entry `e`: its tag, then its fields.
pub open spec fn entry_bytes(e: PoolEntry) -> Seq<u8> {
    match e {
        PoolEntry::Utf8(n, b, _) => seq![1u8] + u16_bytes(n) + b,
        PoolEntry::Integer(v) => seq![3u8] + u32_bytes(v),
        PoolEntry::Float(v) => seq![4u8] + u32_bytes(v),
        PoolEntry::Long(a, b) => seq![5u8] + u32_bytes(a) + u32_bytes(b),
        PoolEntry::Double(a, b) => seq![6u8] + u32_bytes(a) + u32_bytes(b),
        PoolEntry::Class(a) => seq![7u8] + u16_bytes(a),
        PoolEntry::String(a) => seq![8u8] + u16_bytes(a),
        PoolEntry::FieldRef(a, b) => seq![9u8] + u16_bytes(a) + u16_bytes(b),
        PoolEntry::MethodRef(a, b) => seq![10u8] + u16_bytes(a) + u16_bytes(b),
        PoolEntry::InterfaceMethodRef(a, b) => seq![11u8] + u16_bytes(a) + u16_bytes(b),
        PoolEntry::NameAndType(a, b) => seq![12u8] + u16_bytes(a) + u16_bytes(b),
        PoolEntry::MethodHandle(k, i) => seq![15u8, k] + u16_bytes(i),
        PoolEntry::MethodType(a) => seq![16u8] + u16_bytes(a),
        PoolEntry::InvokeDynamic(a, b) => seq![18u8] + u16_bytes(a) + u16_bytes(b),
        PoolEntry::Placeholder => seq![],
    }
}

/// The slots that entry `e` fills: `e`, and a placeholder after a `Long` or
/// `Double`.
pub open spec fn entry_slots(e: PoolEntry) -> Seq<PoolEntry> {
    if e is Long || e is Double {
        seq![e, PoolEntry::Placeholder]
    } else {
        seq![e]
    }
}

/// Whether `e` is an entry that a byte encoding can produce: not the
/// placeholder, and a Utf8 entry whose length and text agree with its bytes.
pub open spec fn encodable(e: PoolEntry) -> bool {
    match e {
        PoolEntry::Placeholder => false,
        PoolEntry::Utf8(n, b, t) => n == b.len() && t == entry_text(b),
        _ => true,
    }
}

proof fn lemma_be16(x: u16, d: Seq<u8>, p: int)
    requires
        0 <= p,
        p + 2 <= d.len(),
        d[p] == u16_bytes(x)[0],
        d[p + 1] == u16_bytes(x)[1],
    ensures
        crate::bytes::be16(d, p) == x,
{
}

proof fn lemma_be32(x: u32, d: Seq<u8>, p: int)
    requires
        0 <= p,
        p + 4 <= d.len(),
        d[p] == u32_bytes(x)[0],
        d[p + 1] == u32_bytes(x)[1],
        d[p + 2] == u32_bytes(x)[2],
        d[p + 3] == u32_bytes(x)[3],
    ensures
        crate::bytes::be32(d, p) == x,
{
}

/// What the round trip of one entry claims.
pub open spec fn round_trips(e: PoolEntry, rest: Seq<u8>) -> bool {
    entry_at(entry_bytes(e) + rest, 0) == Ok::<_, LoadFault>(
        (entry_slots(e), entry_bytes(e).len() as int),
    )
}

proof fn lemma_round_trip_one16(e: PoolEntry, rest: Seq<u8>)
    requires
        e is Class || e is String || e is MethodType,
    ensures
        round_trips(e, rest),
{
    let d = entry_bytes(e) + rest;
    let a = match e {
        PoolEntry::Class(a) => a,
        PoolEntry::String(a) => a,
        PoolEntry::MethodType(a) => a,
        _ => 0,
    };
    lemma_be16(a, d, 1);
    assert(entry_at(d, 0)->Ok_0.0 =~= entry_slots(e));
}

proof fn lemma_round_trip_two16(e: PoolEntry, rest: Seq<u8>)
    requires
        e is FieldRef || e is MethodRef || e is InterfaceMethodRef || e is NameAndType
            || e is InvokeDynamic,
    ensures
        round_trips(e, rest),
{
    let d = entry_bytes(e) + rest;
    let (a, b) = match e {
        PoolEntry::FieldRef(a, b) => (a, b),
        PoolEntry::MethodRef(a, b) => (a, b),
        PoolEntry::InterfaceMethodRef(a, b) => (a, b),
        PoolEntry::NameAndType(a, b) => (a, b),
        PoolEntry::InvokeDynamic(a, b) => (a, b),
        _ => (0, 0),
    };
    lemma_be16(a, d, 1);
    lemma_be16(b, d, 3);
    assert(entry_at(d, 0)->Ok_0.0 =~= entry_slots(e));
}

proof fn lemma_round_trip_u32(e: PoolEntry, rest: Seq<u8>)
    requires
        e is Integer || e is Float,
    ensures
        round_trips(e, rest),
{
    let d = entry_bytes(e) + rest;
    let v = match e {
        PoolEntry::Integer(v) => v,
        PoolEntry::Float(v) => v,
        _ => 0,
    };
    lemma_be32(v, d, 1);
    assert(entry_at(d, 0)->Ok_0.0 =~= entry_slots(e));
}

proof fn lemma_round_trip_wide(e: PoolEntry, rest: Seq<u8>)
    requires
        e is Long || e is Double,
    ensures
        round_trips(e, rest),
{
    let d = entry_bytes(e) + rest;
    let (a, b) = match e {
        PoolEntry::Long(a, b) => (a, b),
        PoolEntry::Double(a, b) => (a, b),
        _ => (0, 0),
    };
    lemma_be32(a, d, 1);
    lemma_be32(b, d, 5);
    assert(entry_at(d, 0)->Ok_0.0 =~= entry_slots(e));
}

proof fn lemma_round_trip_other(e: PoolEntry, rest: Seq<u8>)
    requires
        e is Utf8 || e is MethodHandle,
        encodable(e),
    ensures
        round_trips(e, rest),
{
    let d = entry_bytes(e) + rest;
    match e {
        PoolEntry::Utf8(n, b, _) => {
            lemma_be16(n, d, 1);
            assert(d.subrange(3, 3 + n as int) =~= b);
        },
        PoolEntry::MethodHandle(_, i) => {
            lemma_be16(i, d, 2);
        },
        _ => {},
    }
    assert(entry_at(d, 0)->Ok_0.0 =~= entry_slots(e));
}

/// Decoding the encoding of an entry, whatever follows it, gives back the
/// entry's exact fields and consumes exactly its bytes.
pub proof fn lemma_entry_round_trip(e: PoolEntry, rest: Seq<u8>)
    requires
        encodable(e),
    ensures
        entry_at(entry_bytes(e) + rest, 0) == Ok::<_, LoadFault>(
            (entry_slots(e), entry_bytes(e).len() as int),
        ),
{
    if e is Class || e is String || e is MethodType {
        lemma_round_trip_one16(e, rest);
    } else if e is FieldRef || e is MethodRef || e is InterfaceMethodRef || e is NameAndType
        || e is InvokeDynamic {
        lemma_round_trip_two16(e, rest);
    } else if e is Integer || e is Float {
        lemma_round_trip_u32(e, rest);
    } else if e is Long || e is Double {
        lemma_round_trip_wide(e, rest);
    } else {
        lemma_round_trip_other(e, rest);
    }
}

/// The slots already filled stay at the front of the decoded pool.
pub proof fn lemma_pool_keeps_prefix(d: Seq<u8>, p: int, acc: Seq<PoolEntry>, target: int)
    ensures
        pool_from(d, p, acc, target) matches Ok((pool, _)) ==> pool.len() >= acc.len()
            && pool.subrange(0, acc.len() as int) == acc,
    decreases slots_left(acc.len() as int, target),
{
    if acc.len() < target {
        if let Ok((s, q)) = entry_at(d, p) {
            lemma_entry_fills_a_slot(d, p);
            lemma_pool_keeps_prefix(d, q, acc + s, target);
            if let Ok((pool, _)) = pool_from(d, p, acc, target) {
                assert(pool.subrange(0, acc.len() as int) =~= (acc + s).subrange(0, acc.len() as int));
            }
        }
    } else {
        if let Ok((pool, _)) = pool_from(d, p, acc, target) {
            assert(pool.subrange(0, acc.len() as int) =~= acc);
        }
    }
}

/// A `Long` or `Double` decoded at 1-based index k fills index k + 1 with the
/// placeholder, which no Utf8 lookup accepts; the entry that follows it in the
/// bytes lands at index k + 2.
pub proof fn lemma_wide_entry_slots(d: Seq<u8>, p: int, acc: Seq<PoolEntry>, target: int)
    requires
        acc.len() < target,
        entry_at(d, p) matches Ok((s, _)) && (s[0] is Long || s[0] is Double),
        pool_from(d, p, acc, target) is Ok,
    ensures
        ({
            let pool = pool_from(d, p, acc, target)->Ok_0.0;
            let (s, q) = entry_at(d, p)->Ok_0;
            let k = acc.len() + 1int;
            &&& crate::loader::constant_at(pool, k) == Some(s[0])
            &&& crate::loader::constant_at(pool, k + 1) == Some(PoolEntry::Placeholder)
            &&& crate::loader::utf8_at(pool, k + 1) is None
            &&& (entry_at(d, q) is Ok && acc.len() + 2 < target) ==> crate::loader::constant_at(
                pool,
                k + 2,
            ) == Some(entry_at(d, q)->Ok_0.0[0])
        }),
{
    let (s, q) = entry_at(d, p)->Ok_0;
    let acc2 = acc + s;
    assert(s =~= seq![s[0], PoolEntry::Placeholder]);
    assert(pool_from(d, p, acc, target) == pool_from(d, q, acc2, target));
    lemma_pool_keeps_prefix(d, q, acc2, target);
    let pool = pool_from(d, p, acc, target)->Ok_0.0;
    assert(pool[acc.len() as int] == pool.subrange(0, acc2.len() as int)[acc.len() as int]);
    assert(pool[acc.len() + 1int] == pool.subrange(0, acc2.len() as int)[acc.len() + 1int]);
    if let Ok((s2, q2)) = entry_at(d, q) {
        if acc.len() + 2 < target {
            lemma_entry_fills_a_slot(d, q);
            let acc3 = acc2 + s2;
            assert(pool_from(d, q, acc2, target) == pool_from(d, q2, acc3, target));
            lemma_pool_keeps_prefix(d, q2, acc3, target);
            assert(pool[acc.len() + 2int] == pool.subrange(0, acc3.len() as int)[acc.len() + 2int]);
        }
    }
}

/// Every `Long` or `Double` slot is followed by a placeholder slot.
pub open spec fn wide_paired(pool: Seq<PoolEntry>) -> bool {
    forall|i: int|
        #![trigger pool[i]]
        0 <= i < pool.len() && (pool[i] is Long || pool[i] is Double) ==> i + 1 < pool.len()
            && pool[i + 1] is Placeholder
}

/// The slots of one entry: a single slot that is neither wide nor a
/// placeholder, or a wide slot and its placeholder.
pub proof fn lemma_entry_shape(d: Seq<u8>, p: int)
    ensures
        entry_at(d, p) matches Ok((s, _)) ==> (s.len() == 1 && !(s[0] is Long) && !(s[0] is Double)
            && !(s[0] is Placeholder)) || (s.len() == 2 && (s[0] is Long || s[0] is Double)
            && s[1] is Placeholder),
{
}

proof fn lemma_pool_from_paired(d: Seq<u8>, p: int, acc: Seq<PoolEntry>, target: int)
    requires
        wide_paired(acc),
    ensures
        pool_from(d, p, acc, target) matches Ok((pool, _)) ==> wide_paired(pool),
    decreases slots_left(acc.len() as int, target),
{
    if acc.len() < target {
        if let Ok((s, q)) = entry_at(d, p) {
            lemma_entry_fills_a_slot(d, p);
            lemma_entry_shape(d, p);
            let acc2 = acc + s;
            assert forall|i: int|
                #![trigger acc2[i]]
                0 <= i < acc2.len() && (acc2[i] is Long || acc2[i] is Double) implies i + 1
                < acc2.len() && acc2[i + 1] is Placeholder by {
                if i < acc.len() {
                    assert(acc2[i] == acc[i]);
                    assert(acc[i] is Long || acc[i] is Double);
                    assert(acc2[i + 1] == acc[i + 1]);
                } else {
                    assert(acc2[i] == s[i - acc.len()]);
                    assert(acc2[i + 1] == s[i + 1 - acc.len()]);
                }
            }
            lemma_pool_from_paired(d, q, acc2, target);
        }
    }
}

/// In every decoded constant pool, the slot after a `Long` or `Double` (at
/// 1-based index k) is the placeholder at index k + 1, which no Utf8 lookup
/// accepts.
pub proof fn lemma_pool_wide_paired(d: Seq<u8>, p: int)
    ensures
        pool_at(d, p) matches Ok((pool, _)) ==> wide_paired(pool),
        pool_at(d, p) matches Ok((pool, _)) ==> forall|k: int|
            #![trigger crate::loader::constant_at(pool, k)]
            (crate::loader::constant_at(pool, k) matches Some(e) && (e is Long || e is Double))
                ==> crate::loader::constant_at(pool, k + 1) == Some(PoolEntry::Placeholder)
                && crate::loader::utf8_at(pool, k + 1) is None,
{
    if let Ok((count, q)) = u16_at(d, p) {
        assert(wide_paired(Seq::<PoolEntry>::empty()));
        lemma_pool_from_paired(d, q, seq![], count as int - 1);
    }
    if let Ok((pool, _)) = pool_at(d, p) {
        assert forall|k: int|
            #![trigger crate::loader::constant_at(pool, k)]
            (crate::loader::constant_at(pool, k) matches Some(e) && (e is Long || e is Double))
                implies crate::loader::constant_at(pool, k + 1) == Some(PoolEntry::Placeholder)
                && crate::loader::utf8_at(pool, k + 1) is None by {
            assert(pool[k - 1] is Long || pool[k - 1] is Double);
        }
    }
}

} // verus!
