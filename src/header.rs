use vstd::prelude::*;
use crate::attributes::{
    AttributeInfo, RawAttribute, attributes_view, attributes_at, read_attributes,
};
use crate::bytes::{read_u16, read_u32, u16_at, u32_at, list_from, prepend, lemma_list_step, lemma_list_ends};
use crate::error::{ClassLoadError, LoadFault, Step};
use crate::flags::{AccessFlags, FlagContext, flags_at, flags_of, read_flags};
use crate::pool::{ConstantPoolTag, PoolEntry, entries_view, pool_at, read_pool};

verus! {

/// The sentinel that every class file starts with.
pub const MAGIC: u32 = 0xCAFEBABE;

/// The oldest major version accepted.
pub const MIN_MAJOR_VERSION: u16 = 51;

/// The newest major version accepted.
pub const MAX_MAJOR_VERSION: u16 = 60;

/// A field or a method as stored, before any index is resolved.
#[derive(Debug, PartialEq, Eq)]
pub struct MemberInfo {
    pub access_flags: Vec<AccessFlags>,
    pub name_index: u16,
    pub descriptor_index: u16,
    pub attributes: Vec<AttributeInfo>,
}

/// The mathematical value of a `MemberInfo`.
pub struct Member {
    pub access_flags: Seq<AccessFlags>,
    pub name_index: u16,
    pub descriptor_index: u16,
    pub attributes: Seq<RawAttribute>,
}

impl View for MemberInfo {
    type V = Member;

    open spec fn view(&self) -> Member {
        Member {
            access_flags: self.access_flags@,
            name_index: self.name_index,
            descriptor_index: self.descriptor_index,
            attributes: attributes_view(self.attributes@),
        }
    }
}

pub open spec fn members_view(v: Seq<MemberInfo>) -> Seq<Member> {
    v.map_values(|m: MemberInfo| m@)
}

/// A field or method at `p`: flags, name index, descriptor index, attributes.
pub open spec fn member_at(d: Seq<u8>, p: int, ctx: FlagContext) -> Step<Member> {
    match flags_at(d, p, ctx) {
        Err(e) => Err(e),
        Ok((access_flags, q)) => match u16_at(d, q) {
            Err(e) => Err(e),
            Ok((name_index, r)) => match u16_at(d, r) {
                Err(e) => Err(e),
                Ok((descriptor_index, s)) => match attributes_at(d, s) {
                    Err(e) => Err(e),
                    Ok((attributes, t)) => Ok(
                        (Member { access_flags, name_index, descriptor_index, attributes }, t),
                    ),
                },
            },
        },
    }
}

pub open spec fn member_item(ctx: FlagContext) -> spec_fn(Seq<u8>, int) -> Step<Member> {
    |d: Seq<u8>, p: int| member_at(d, p, ctx)
}

/// A field or method table at `p`: a 16-bit count, then that many members.
pub open spec fn members_at(d: Seq<u8>, p: int, ctx: FlagContext) -> Step<Seq<Member>> {
    match u16_at(d, p) {
        Err(e) => Err(e),
        Ok((n, q)) => list_from(d, q, n as nat, member_item(ctx)),
    }
}

fn read_member(d: &[u8], p: usize, ctx: FlagContext) -> (r: Result<(MemberInfo, usize), ClassLoadError>)
    ensures
        match r {
            Ok((v, e)) => member_at(d@, p as int, ctx) == Ok::<_, LoadFault>((v@, e as int)),
            Err(e) => member_at(d@, p as int, ctx) == Err::<(Member, int), _>(e@),
        },
{
    let (access_flags, q) = read_flags(d, p, ctx)?;
    let (name_index, q) = read_u16(d, q)?;
    let (descriptor_index, q) = read_u16(d, q)?;
    let (attributes, q) = read_attributes(d, q)?;
    Ok((MemberInfo { access_flags, name_index, descriptor_index, attributes }, q))
}

fn read_members(d: &[u8], p: usize, ctx: FlagContext) -> (r: Result<(Vec<MemberInfo>, usize), ClassLoadError>)
    ensures
        match r {
            Ok((v, e)) => members_at(d@, p as int, ctx) == Ok::<_, LoadFault>((members_view(v@), e as int)),
            Err(e) => members_at(d@, p as int, ctx) == Err::<(Seq<Member>, int), _>(e@),
        },
{
    let (n, q0) = read_u16(d, p)?;
    let mut out: Vec<MemberInfo> = Vec::new();
    let mut q = q0;
    let mut i: u16 = 0;
    proof {
        lemma_list_ends(d@, q as int, member_item(ctx), list_from(d@, q as int, n as nat, member_item(ctx)));
        assert(members_view(out@) =~= seq![]);
    }
    while i < n
        invariant
            i <= n,
            members_at(d@, p as int, ctx) == prepend(
                members_view(out@),
                list_from(d@, q as int, (n - i) as nat, member_item(ctx)),
            ),
        decreases n - i,
    {
        proof {
            assert(member_item(ctx)(d@, q as int) == member_at(d@, q as int, ctx));
            lemma_list_step(d@, q as int, (n - i) as nat, member_item(ctx), members_view(out@));
        }
        let (m, next) = read_member(d, q, ctx)?;
        proof {
            assert(members_view(out@.push(m)) =~= members_view(out@).push(m@));
        }
        out.push(m);
        q = next;
        i = i + 1;
    }
    proof {
        lemma_list_ends(d@, q as int, member_item(ctx), list_from(d@, q as int, 0, member_item(ctx)));
    }
    Ok((out, q))
}

pub open spec fn index_item() -> spec_fn(Seq<u8>, int) -> Step<u16> {
    |d: Seq<u8>, p: int| u16_at(d, p)
}

/// The interface table at `p`: a 16-bit count, then that many pool indices.
pub open spec fn interfaces_at(d: Seq<u8>, p: int) -> Step<Seq<u16>> {
    match u16_at(d, p) {
        Err(e) => Err(e),
        Ok((n, q)) => list_from(d, q, n as nat, index_item()),
    }
}

fn read_interfaces(d: &[u8], p: usize) -> (r: Result<(Vec<u16>, usize), ClassLoadError>)
    ensures
        match r {
            Ok((v, e)) => interfaces_at(d@, p as int) == Ok::<_, LoadFault>((v@, e as int)),
            Err(e) => interfaces_at(d@, p as int) == Err::<(Seq<u16>, int), _>(e@),
        },
{
    let (n, q0) = read_u16(d, p)?;
    let mut out: Vec<u16> = Vec::new();
    let mut q = q0;
    let mut i: u16 = 0;
    proof {
        lemma_list_ends(d@, q as int, index_item(), list_from(d@, q as int, n as nat, index_item()));
    }
    while i < n
        invariant
            i <= n,
            interfaces_at(d@, p as int) == prepend(out@, list_from(d@, q as int, (n - i) as nat, index_item())),
        decreases n - i,
    {
        proof {
            assert(index_item()(d@, q as int) == u16_at(d@, q as int));
            lemma_list_step(d@, q as int, (n - i) as nat, index_item(), out@);
        }
        let (x, next) = read_u16(d, q)?;
        out.push(x);
        q = next;
        i = i + 1;
    }
    proof {
        lemma_list_ends(d@, q as int, index_item(), list_from(d@, q as int, 0, index_item()));
    }
    Ok((out, q))
}

/// The parts of a class file in order, indices not yet resolved.
#[derive(Debug, PartialEq, Eq)]
pub struct ClassFileHeader {
    pub magic: u32,
    pub version_minor: u16,
    pub version_major: u16,
    pub constant_pool: Vec<ConstantPoolTag>,
    pub access_flags: Vec<AccessFlags>,
    pub this_class: u16,
    pub super_class: u16,
    pub interfaces: Vec<u16>,
    pub fields: Vec<MemberInfo>,
    pub methods: Vec<MemberInfo>,
    pub attributes: Vec<AttributeInfo>,
}

/// The mathematical value of a `ClassFileHeader`.
pub struct HeaderModel {
    pub magic: u32,
    pub version_minor: u16,
    pub version_major: u16,
    pub constant_pool: Seq<PoolEntry>,
    pub access_flags: Seq<AccessFlags>,
    pub this_class: u16,
    pub super_class: u16,
    pub interfaces: Seq<u16>,
    pub fields: Seq<Member>,
    pub methods: Seq<Member>,
    pub attributes: Seq<RawAttribute>,
}

impl View for ClassFileHeader {
    type V = HeaderModel;

    open spec fn view(&self) -> HeaderModel {
        HeaderModel {
            magic: self.magic,
            version_minor: self.version_minor,
            version_major: self.version_major,
            constant_pool: entries_view(self.constant_pool@),
            access_flags: self.access_flags@,
            this_class: self.this_class,
            super_class: self.super_class,
            interfaces: self.interfaces@,
            fields: members_view(self.fields@),
            methods: members_view(self.methods@),
            attributes: attributes_view(self.attributes@),
        }
    }
}

/// Whether a major version lies in the accepted range.
pub open spec fn version_supported(major: u16) -> bool {
    MIN_MAJOR_VERSION <= major <= MAX_MAJOR_VERSION
}

/// The structure of a whole class file: magic, version, constant pool, class
/// flags, this and super class, interfaces, fields, methods, attributes. The
/// magic and the version are checked as soon as they are read; bytes after
/// the attributes are not read.
pub open spec fn header_of(d: Seq<u8>) -> Result<HeaderModel, LoadFault> {
    match u32_at(d, 0) {
        Err(e) => Err(e),
        Ok((magic, p1)) => if magic != MAGIC {
            Err(LoadFault::MagicMismatch(magic))
        } else {
            match u16_at(d, p1) {
                Err(e) => Err(e),
                Ok((version_minor, p2)) => match u16_at(d, p2) {
                    Err(e) => Err(e),
                    Ok((version_major, p3)) => if !version_supported(version_major) {
                        Err(LoadFault::VersionUnsupported(version_major, version_minor))
                    } else {
                        body_of(d, p3, magic, version_minor, version_major)
                    },
                },
            }
        },
    }
}

/// What follows the version, from the constant pool on.
pub open spec fn body_of(d: Seq<u8>, p: int, magic: u32, version_minor: u16, version_major: u16) -> Result<
    HeaderModel,
    LoadFault,
> {
    match pool_at(d, p) {
        Err(e) => Err(e),
        Ok((constant_pool, p1)) => match flags_at(d, p1, FlagContext::Class) {
            Err(e) => Err(e),
            Ok((access_flags, p2)) => match u16_at(d, p2) {
                Err(e) => Err(e),
                Ok((this_class, p3)) => match u16_at(d, p3) {
                    Err(e) => Err(e),
                    Ok((super_class, p4)) => match interfaces_at(d, p4) {
                        Err(e) => Err(e),
                        Ok((interfaces, p5)) => match members_at(d, p5, FlagContext::Field) {
                            Err(e) => Err(e),
                            Ok((fields, p6)) => match members_at(d, p6, FlagContext::Method) {
                                Err(e) => Err(e),
                                Ok((methods, p7)) => match attributes_at(d, p7) {
                                    Err(e) => Err(e),
                                    Ok((attributes, _)) => Ok(
                                        HeaderModel {
                                            magic,
                                            version_minor,
                                            version_major,
                                            constant_pool,
                                            access_flags,
                                            this_class,
                                            super_class,
                                            interfaces,
                                            fields,
                                            methods,
                                            attributes,
                                        },
                                    ),
                                },
                            },
                        },
                    },
                },
            },
        },
    }
}

impl ClassFileHeader {
    /// Decodes the structure of a class file from its bytes.
    pub fn from_bytes(d: &[u8]) -> (r: Result<ClassFileHeader, ClassLoadError>)
        ensures
            match r {
                Ok(h) => header_of(d@) == Ok::<_, LoadFault>(h@),
                Err(e) => header_of(d@) == Err::<HeaderModel, _>(e@),
            },
    {
        let (magic, p) = read_u32(d, 0)?;
        if magic != MAGIC {
            return Err(ClassLoadError::MagicMismatch(magic));
        }
        let (version_minor, p) = read_u16(d, p)?;
        let (version_major, p) = read_u16(d, p)?;
        if version_major < MIN_MAJOR_VERSION || version_major > MAX_MAJOR_VERSION {
            return Err(ClassLoadError::VersionUnsupported(version_major, version_minor));
        }
        let (constant_pool, p) = read_pool(d, p)?;
        let (access_flags, p) = read_flags(d, p, FlagContext::Class)?;
        let (this_class, p) = read_u16(d, p)?;
        let (super_class, p) = read_u16(d, p)?;
        let (interfaces, p) = read_interfaces(d, p)?;
        let (fields, p) = read_members(d, p, FlagContext::Field)?;
        let (methods, p) = read_members(d, p, FlagContext::Method)?;
        let (attributes, _) = read_attributes(d, p)?;
        Ok(
            ClassFileHeader {
                magic,
                version_minor,
                version_major,
                constant_pool,
                access_flags,
                this_class,
                super_class,
                interfaces,
                fields,
                methods,
                attributes,
            },
        )
    }
}

/// In the constant pool of every decoded class file, a `Long` or `Double`
/// slot is followed by the placeholder slot.
pub proof fn lemma_header_pool_paired(d: Seq<u8>)
    ensures
        header_of(d) matches Ok(h) ==> crate::pool::wide_paired(h.constant_pool),
{
    crate::pool::lemma_pool_wide_paired(d, 8);
}

/// Methods are decoded with the method reading of their flag word, fields
/// and the class with theirs: bit 0x0020 is `Synchronized` on a method and
/// `Super` on a class.
pub proof fn lemma_member_flag_context(d: Seq<u8>, p: int)
    ensures
        member_at(d, p, FlagContext::Method) matches Ok((m, _)) ==> m.access_flags == flags_of(
            crate::bytes::be16(d, p),
            FlagContext::Method,
        ),
        flags_of(0x0020, FlagContext::Method) == seq![AccessFlags::Synchronized],
        flags_of(0x0020, FlagContext::Class) == seq![AccessFlags::Super],
{
    assert(0x0020u16 & 0x0001u16 != 0x0001u16) by (bit_vector);
    assert(0x0020u16 & 0x0002u16 != 0x0002u16) by (bit_vector);
    assert(0x0020u16 & 0x0004u16 != 0x0004u16) by (bit_vector);
    assert(0x0020u16 & 0x0008u16 != 0x0008u16) by (bit_vector);
    assert(0x0020u16 & 0x0010u16 != 0x0010u16) by (bit_vector);
    assert(0x0020u16 & 0x0020u16 == 0x0020u16) by (bit_vector);
    assert(0x0020u16 & 0x0040u16 != 0x0040u16) by (bit_vector);
    assert(0x0020u16 & 0x0080u16 != 0x0080u16) by (bit_vector);
    assert(0x0020u16 & 0x0100u16 != 0x0100u16) by (bit_vector);
    assert(0x0020u16 & 0x0200u16 != 0x0200u16) by (bit_vector);
    assert(0x0020u16 & 0x0400u16 != 0x0400u16) by (bit_vector);
    assert(0x0020u16 & 0x0800u16 != 0x0800u16) by (bit_vector);
    assert(0x0020u16 & 0x1000u16 != 0x1000u16) by (bit_vector);
    assert(0x0020u16 & 0x2000u16 != 0x2000u16) by (bit_vector);
    assert(0x0020u16 & 0x4000u16 != 0x4000u16) by (bit_vector);
    assert(flags_of(0x0020, FlagContext::Method) =~= seq![AccessFlags::Synchronized]);
    assert(flags_of(0x0020, FlagContext::Class) =~= seq![AccessFlags::Super]);
}

} // verus!
