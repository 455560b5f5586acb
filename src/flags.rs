use vstd::prelude::*;
use crate::bytes::{read_u16, u16_at};
use crate::error::{ClassLoadError, LoadFault, Step};

verus! {

/// A named access flag.
#[derive(Clone, Copy, Debug, PartialEq, Eq, Structural)]
pub enum AccessFlags {
    Public,
    Final,
    Super,
    Interface,
    Abstract,
    Synthetic,
    Annotation,
    Enum,
    Private,
    Protected,
    Static,
    Volatile,
    Transient,
    Synchronized,
    Bridge,
    Varargs,
    Native,
    Strict,
}

/// What a flag word belongs to: three bits mean different things for each.
#[derive(Clone, Copy, Debug, PartialEq, Eq, Structural)]
pub enum FlagContext {
    Class,
    Field,
    Method,
}

/// `f` where every bit of `mask` is set in `v`, else nothing.
pub open spec fn flag_if(v: u16, mask: u16, f: AccessFlags) -> Seq<AccessFlags> {
    if v & mask == mask {
        seq![f]
    } else {
        seq![]
    }
}

/// The flags of word `v` read in context `ctx`, in bit order.
pub open spec fn flags_of(v: u16, ctx: FlagContext) -> Seq<AccessFlags> {
    let m = ctx == FlagContext::Method;
    Seq::empty() + flag_if(v, 0x0001, AccessFlags::Public) + flag_if(v, 0x0002, AccessFlags::Private)
        + flag_if(v, 0x0004, AccessFlags::Protected) + flag_if(v, 0x0008, AccessFlags::Static)
        + flag_if(v, 0x0010, AccessFlags::Final) + flag_if(
        v,
        0x0020,
        if m { AccessFlags::Synchronized } else { AccessFlags::Super },
    ) + flag_if(v, 0x0040, if m { AccessFlags::Bridge } else { AccessFlags::Volatile }) + flag_if(
        v,
        0x0080,
        if m { AccessFlags::Varargs } else { AccessFlags::Transient },
    ) + flag_if(v, 0x0100, AccessFlags::Native) + flag_if(v, 0x0200, AccessFlags::Interface)
        + flag_if(v, 0x0400, AccessFlags::Abstract) + flag_if(v, 0x0800, AccessFlags::Strict)
        + flag_if(v, 0x1000, AccessFlags::Synthetic) + flag_if(v, 0x2000, AccessFlags::Annotation)
        + flag_if(v, 0x4000, AccessFlags::Enum)
}

fn push_if(out: &mut Vec<AccessFlags>, v: u16, mask: u16, f: AccessFlags)
    ensures
        final(out)@ == old(out)@ + flag_if(v, mask, f),
{
    if v & mask == mask {
        out.push(f);
    }
    proof {
        assert(final(out)@ =~= old(out)@ + flag_if(v, mask, f));
    }
}

impl AccessFlags {
    /// The flags of a 16-bit word in the given context.
    pub fn decode(v: u16, ctx: FlagContext) -> (r: Vec<AccessFlags>)
        ensures
            r@ == flags_of(v, ctx),
    {
        let m = match ctx {
            FlagContext::Method => true,
            _ => false,
        };
        let mut out: Vec<AccessFlags> = Vec::new();
        push_if(&mut out, v, 0x0001, AccessFlags::Public);
        push_if(&mut out, v, 0x0002, AccessFlags::Private);
        push_if(&mut out, v, 0x0004, AccessFlags::Protected);
        push_if(&mut out, v, 0x0008, AccessFlags::Static);
        push_if(&mut out, v, 0x0010, AccessFlags::Final);
        push_if(&mut out, v, 0x0020, if m { AccessFlags::Synchronized } else { AccessFlags::Super });
        push_if(&mut out, v, 0x0040, if m { AccessFlags::Bridge } else { AccessFlags::Volatile });
        push_if(&mut out, v, 0x0080, if m { AccessFlags::Varargs } else { AccessFlags::Transient });
        push_if(&mut out, v, 0x0100, AccessFlags::Native);
        push_if(&mut out, v, 0x0200, AccessFlags::Interface);
        push_if(&mut out, v, 0x0400, AccessFlags::Abstract);
        push_if(&mut out, v, 0x0800, AccessFlags::Strict);
        push_if(&mut out, v, 0x1000, AccessFlags::Synthetic);
        push_if(&mut out, v, 0x2000, AccessFlags::Annotation);
        push_if(&mut out, v, 0x4000, AccessFlags::Enum);
        out
    }
}

/// A flag word at `p`, decoded in context `ctx`.
pub open spec fn flags_at(d: Seq<u8>, p: int, ctx: FlagContext) -> Step<Seq<AccessFlags>> {
    match u16_at(d, p) {
        Err(e) => Err(e),
        Ok((v, q)) => Ok((flags_of(v, ctx), q)),
    }
}

pub fn read_flags(d: &[u8], p: usize, ctx: FlagContext) -> (r: Result<
    (Vec<AccessFlags>, usize),
    ClassLoadError,
>)
    ensures
        match r {
            Ok((v, e)) => flags_at(d@, p as int, ctx) == Ok::<_, LoadFault>((v@, e as int)),
            Err(e) => flags_at(d@, p as int, ctx) == Err::<(Seq<AccessFlags>, int), _>(e@),
        },
{
    let (v, q) = read_u16(d, p)?;
    Ok((AccessFlags::decode(v, ctx), q))
}

} // verus!
