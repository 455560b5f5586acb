use vstd::prelude::*;
use crate::bytes::{
    read_bytes, read_u16, read_u32, read_u8, bytes_at, u16_at, u32_at, u8_at, list_from, prepend,
    lemma_list_step, lemma_list_ends,
};
use crate::annotations::{
    Annotation, AnnotationModel, ParameterAnnotation, read_annotations, read_parameters,
    annotations_at, annotations_model, parameters_at, parameters_model,
};
use crate::bytes::same_text;
use crate::error::{ClassLoadError, LoadFault, Step};

verus! {

/// An attribute as stored: its name's pool index, its declared length and
/// exactly that many bytes, whatever the name.
#[derive(Debug, PartialEq, Eq)]
pub struct AttributeInfo {
    pub attribute_name_index: u16,
    pub attribute_length: u32,
    pub info: Vec<u8>,
}

/// The mathematical value of an `AttributeInfo`.
pub struct RawAttribute {
    pub name_index: u16,
    pub length: u32,
    pub info: Seq<u8>,
}

impl View for AttributeInfo {
    type V = RawAttribute;

    open spec fn view(&self) -> RawAttribute {
        RawAttribute {
            name_index: self.attribute_name_index,
            length: self.attribute_length,
            info: self.info@,
        }
    }
}

pub open spec fn attributes_view(v: Seq<AttributeInfo>) -> Seq<RawAttribute> {
    v.map_values(|a: AttributeInfo| a@)
}

/// One attribute at `p`: name index, 4-byte length, then the bytes.
pub open spec fn attribute_at(d: Seq<u8>, p: int) -> Step<RawAttribute> {
    match u16_at(d, p) {
        Err(e) => Err(e),
        Ok((name, q)) => match u32_at(d, q) {
            Err(e) => Err(e),
            Ok((len, r)) => match bytes_at(d, r, len as int) {
                Err(e) => Err(e),
                Ok((info, s)) => Ok((RawAttribute { name_index: name, length: len, info }, s)),
            },
        },
    }
}

/// An attribute table at `p`: a 16-bit count, then that many attributes.
pub open spec fn attributes_at(d: Seq<u8>, p: int) -> Step<Seq<RawAttribute>> {
    match u16_at(d, p) {
        Err(e) => Err(e),
        Ok((n, q)) => list_from(d, q, n as nat, attribute_item()),
    }
}

pub open spec fn attribute_item() -> spec_fn(Seq<u8>, int) -> Step<RawAttribute> {
    |d: Seq<u8>, p: int| attribute_at(d, p)
}

pub fn read_attribute(d: &[u8], p: usize) -> (r: Result<(AttributeInfo, usize), ClassLoadError>)
    ensures
        match r {
            Ok((v, e)) => attribute_at(d@, p as int) == Ok::<_, LoadFault>((v@, e as int)),
            Err(e) => attribute_at(d@, p as int) == Err::<(RawAttribute, int), _>(e@),
        },
{
    let (name, q) = read_u16(d, p)?;
    let (len, r) = read_u32(d, q)?;
    let (info, s) = read_bytes(d, r, len as usize)?;
    Ok((AttributeInfo { attribute_name_index: name, attribute_length: len, info }, s))
}

pub fn read_attributes(d: &[u8], p: usize) -> (r: Result<(Vec<AttributeInfo>, usize), ClassLoadError>)
    ensures
        match r {
            Ok((v, e)) => attributes_at(d@, p as int) == Ok::<_, LoadFault>(
                (attributes_view(v@), e as int),
            ),
            Err(e) => attributes_at(d@, p as int) == Err::<(Seq<RawAttribute>, int), _>(e@),
        },
{
    let (n, q0) = read_u16(d, p)?;
    let mut out: Vec<AttributeInfo> = Vec::new();
    let mut q = q0;
    let mut i: u16 = 0;
    proof {
        lemma_list_ends(d@, q as int, attribute_item(), list_from(d@, q as int, n as nat, attribute_item()));
        assert(attributes_view(out@) =~= seq![]);
    }
    while i < n
        invariant
            i <= n,
            attributes_at(d@, p as int) == prepend(
                attributes_view(out@),
                list_from(d@, q as int, (n - i) as nat, attribute_item()),
            ),
        decreases n - i,
    {
        proof {
            assert(attribute_item()(d@, q as int) == attribute_at(d@, q as int));
            lemma_list_step(d@, q as int, (n - i) as nat, attribute_item(), attributes_view(out@));
        }
        let (a, next) = read_attribute(d, q)?;
        proof {
            assert(attributes_view(out@.push(a)) =~= attributes_view(out@).push(a@));
        }
        out.push(a);
        q = next;
        i = i + 1;
    }
    proof {
        lemma_list_ends(d@, q as int, attribute_item(), list_from(d@, q as int, 0, attribute_item()));
    }
    Ok((out, q))
}


/// A row of a method's exception table.
#[derive(Clone, Copy, Debug, PartialEq, Eq, Structural)]
pub struct ExceptionEntry {
    pub pc_start: u16,
    pub pc_end: u16,
    pub handler_pc: u16,
    /// Pool index of the caught class, or 0 to catch everything.
    pub catch_type: u16,
}

pub open spec fn exception_at(d: Seq<u8>, p: int) -> Step<ExceptionEntry> {
    if 0 <= p && p + 8 <= d.len() {
        Ok(
            (
                ExceptionEntry {
                    pc_start: be16_at(d, p),
                    pc_end: be16_at(d, p + 2),
                    handler_pc: be16_at(d, p + 4),
                    catch_type: be16_at(d, p + 6),
                },
                p + 8,
            ),
        )
    } else {
        Err(LoadFault::ClassFileReadFailure)
    }
}

pub open spec fn be16_at(d: Seq<u8>, p: int) -> u16 {
    crate::bytes::be16(d, p)
}

pub open spec fn exception_item() -> spec_fn(Seq<u8>, int) -> Step<ExceptionEntry> {
    |d: Seq<u8>, p: int| exception_at(d, p)
}

fn read_exception(d: &[u8], p: usize) -> (r: Result<(ExceptionEntry, usize), ClassLoadError>)
    ensures
        match r {
            Ok((v, e)) => exception_at(d@, p as int) == Ok::<_, LoadFault>((v, e as int)),
            Err(e) => exception_at(d@, p as int) == Err::<(ExceptionEntry, int), _>(e@),
        },
{
    let (pc_start, q) = read_u16(d, p)?;
    let (pc_end, q) = read_u16(d, q)?;
    let (handler_pc, q) = read_u16(d, q)?;
    let (catch_type, q) = read_u16(d, q)?;
    Ok((ExceptionEntry { pc_start, pc_end, handler_pc, catch_type }, q))
}

/// An exception table at `p`: a 16-bit count, then that many rows.
pub open spec fn exceptions_at(d: Seq<u8>, p: int) -> Step<Seq<ExceptionEntry>> {
    match u16_at(d, p) {
        Err(e) => Err(e),
        Ok((n, q)) => list_from(d, q, n as nat, exception_item()),
    }
}

fn read_exceptions(d: &[u8], p: usize) -> (r: Result<(Vec<ExceptionEntry>, usize), ClassLoadError>)
    ensures
        match r {
            Ok((v, e)) => exceptions_at(d@, p as int) == Ok::<_, LoadFault>((v@, e as int)),
            Err(e) => exceptions_at(d@, p as int) == Err::<(Seq<ExceptionEntry>, int), _>(e@),
        },
{
    let (n, q0) = read_u16(d, p)?;
    let mut out: Vec<ExceptionEntry> = Vec::new();
    let mut q = q0;
    let mut i: u16 = 0;
    proof {
        lemma_list_ends(d@, q as int, exception_item(), list_from(d@, q as int, n as nat, exception_item()));
    }
    while i < n
        invariant
            i <= n,
            exceptions_at(d@, p as int) == prepend(out@, list_from(d@, q as int, (n - i) as nat, exception_item())),
        decreases n - i,
    {
        proof {
            assert(exception_item()(d@, q as int) == exception_at(d@, q as int));
            lemma_list_step(d@, q as int, (n - i) as nat, exception_item(), out@);
        }
        let (x, next) = read_exception(d, q)?;
        out.push(x);
        q = next;
        i = i + 1;
    }
    proof {
        lemma_list_ends(d@, q as int, exception_item(), list_from(d@, q as int, 0, exception_item()));
    }
    Ok((out, q))
}

/// The parts of a Code attribute.
#[derive(Debug, PartialEq, Eq)]
pub struct CodeAttribute {
    pub max_stack: u16,
    pub max_locals: u16,
    pub code: Vec<u8>,
    pub exception_table: Vec<ExceptionEntry>,
    /// Nested attributes, kept raw.
    pub attributes: Vec<AttributeInfo>,
}

/// The mathematical value of a `CodeAttribute`.
pub struct CodeModel {
    pub max_stack: u16,
    pub max_locals: u16,
    pub code: Seq<u8>,
    pub exception_table: Seq<ExceptionEntry>,
    pub attributes: Seq<RawAttribute>,
}

impl View for CodeAttribute {
    type V = CodeModel;

    open spec fn view(&self) -> CodeModel {
        CodeModel {
            max_stack: self.max_stack,
            max_locals: self.max_locals,
            code: self.code@,
            exception_table: self.exception_table@,
            attributes: attributes_view(self.attributes@),
        }
    }
}

/// The body of a Code attribute; bytes after its last table are not read.
pub open spec fn code_of(d: Seq<u8>) -> Result<CodeModel, LoadFault> {
    match u16_at(d, 0) {
        Err(e) => Err(e),
        Ok((max_stack, p1)) => match u16_at(d, p1) {
            Err(e) => Err(e),
            Ok((max_locals, p2)) => match u32_at(d, p2) {
                Err(e) => Err(e),
                Ok((len, p3)) => match bytes_at(d, p3, len as int) {
                    Err(e) => Err(e),
                    Ok((code, p4)) => match exceptions_at(d, p4) {
                        Err(e) => Err(e),
                        Ok((exception_table, p5)) => match attributes_at(d, p5) {
                            Err(e) => Err(e),
                            Ok((attributes, _)) => Ok(
                                CodeModel { max_stack, max_locals, code, exception_table, attributes },
                            ),
                        },
                    },
                },
            },
        },
    }
}

pub fn read_code(d: &[u8]) -> (r: Result<CodeAttribute, ClassLoadError>)
    ensures
        match r {
            Ok(v) => code_of(d@) == Ok::<_, LoadFault>(v@),
            Err(e) => code_of(d@) == Err::<CodeModel, _>(e@),
        },
{
    let (max_stack, p) = read_u16(d, 0)?;
    let (max_locals, p) = read_u16(d, p)?;
    let (len, p) = read_u32(d, p)?;
    let (code, p) = read_bytes(d, p, len as usize)?;
    let (exception_table, p) = read_exceptions(d, p)?;
    let (attributes, _) = read_attributes(d, p)?;
    Ok(CodeAttribute { max_stack, max_locals, code, exception_table, attributes })
}


/// An attribute interpreted by its name.
#[derive(Debug, PartialEq, Eq)]
pub enum AttributeValue {
    ConstantValue(u16),
    SourceFile(u16),
    Code(CodeAttribute),
    RuntimeInvisibleParameterAnnotations(Vec<ParameterAnnotation>),
    RuntimeInvisibleAnnotations(Vec<Annotation>),
    /// The bytes of an attribute whose name is not interpreted.
    Unidentified(Vec<u8>),
}

/// The mathematical value of an `AttributeValue`.
pub enum AttributeModel {
    ConstantValue(u16),
    SourceFile(u16),
    Code(CodeModel),
    RuntimeInvisibleParameterAnnotations(Seq<Seq<AnnotationModel>>),
    RuntimeInvisibleAnnotations(Seq<AnnotationModel>),
    Unidentified(Seq<u8>),
}

impl View for AttributeValue {
    type V = AttributeModel;

    open spec fn view(&self) -> AttributeModel {
        match self {
            AttributeValue::ConstantValue(i) => AttributeModel::ConstantValue(*i),
            AttributeValue::SourceFile(i) => AttributeModel::SourceFile(*i),
            AttributeValue::Code(c) => AttributeModel::Code(c@),
            AttributeValue::RuntimeInvisibleParameterAnnotations(v) => {
                AttributeModel::RuntimeInvisibleParameterAnnotations(parameters_model(v@))
            },
            AttributeValue::RuntimeInvisibleAnnotations(v) => AttributeModel::RuntimeInvisibleAnnotations(
                annotations_model(v@),
            ),
            AttributeValue::Unidentified(b) => AttributeModel::Unidentified(b@),
        }
    }
}

/// What an attribute named `name` with bytes `d` means. Bytes after the
/// interpreted structure are not read.
pub open spec fn interpret(name: Seq<char>, d: Seq<u8>) -> Result<AttributeModel, LoadFault> {
    if name == "ConstantValue"@ {
        match u16_at(d, 0) {
            Err(e) => Err(e),
            Ok((i, _)) => Ok(AttributeModel::ConstantValue(i)),
        }
    } else if name == "SourceFile"@ {
        match u16_at(d, 0) {
            Err(e) => Err(e),
            Ok((i, _)) => Ok(AttributeModel::SourceFile(i)),
        }
    } else if name == "Code"@ {
        match code_of(d) {
            Err(e) => Err(e),
            Ok(c) => Ok(AttributeModel::Code(c)),
        }
    } else if name == "RuntimeInvisibleParameterAnnotations"@ {
        match u8_at(d, 0) {
            Err(e) => Err(e),
            Ok((n, q)) => match parameters_at(d, q, n as nat) {
                Err(e) => Err(e),
                Ok((v, _)) => Ok(AttributeModel::RuntimeInvisibleParameterAnnotations(v)),
            },
        }
    } else if name == "RuntimeInvisibleAnnotations"@ {
        match u16_at(d, 0) {
            Err(e) => Err(e),
            Ok((n, q)) => match annotations_at(d, q, n as nat) {
                Err(e) => Err(e),
                Ok((v, _)) => Ok(AttributeModel::RuntimeInvisibleAnnotations(v)),
            },
        }
    } else {
        Ok(AttributeModel::Unidentified(d))
    }
}

/// The name of an interpreted attribute's kind.
pub open spec fn attribute_kind(v: AttributeModel) -> Seq<char> {
    match v {
        AttributeModel::ConstantValue(..) => "ConstantValue"@,
        AttributeModel::SourceFile(..) => "SourceFile"@,
        AttributeModel::Code(..) => "Code"@,
        AttributeModel::RuntimeInvisibleParameterAnnotations(..) => "RuntimeInvisibleParameterAnnotations"@,
        AttributeModel::RuntimeInvisibleAnnotations(..) => "RuntimeInvisibleAnnotations"@,
        AttributeModel::Unidentified(..) => "Unidentified"@,
    }
}

impl AttributeValue {
    /// The name of this attribute's kind.
    pub fn kind_name(&self) -> (r: String)
        ensures
            r@ == attribute_kind(self@),
    {
        match self {
            AttributeValue::ConstantValue(..) => String::from_str("ConstantValue"),
            AttributeValue::SourceFile(..) => String::from_str("SourceFile"),
            AttributeValue::Code(..) => String::from_str("Code"),
            AttributeValue::RuntimeInvisibleParameterAnnotations(..) => String::from_str(
                "RuntimeInvisibleParameterAnnotations",
            ),
            AttributeValue::RuntimeInvisibleAnnotations(..) => String::from_str(
                "RuntimeInvisibleAnnotations",
            ),
            AttributeValue::Unidentified(..) => String::from_str("Unidentified"),
        }
    }

    /// Interprets the bytes of an attribute by the attribute's name.
    pub fn from_name_and_info(name: &str, info: &[u8]) -> (r: Result<AttributeValue, ClassLoadError>)
        ensures
            match r {
                Ok(v) => interpret(name@, info@) == Ok::<_, LoadFault>(v@),
                Err(e) => interpret(name@, info@) == Err::<AttributeModel, _>(e@),
            },
    {
        if same_text(name, "ConstantValue") {
            let (i, _) = read_u16(info, 0)?;
            Ok(AttributeValue::ConstantValue(i))
        } else if same_text(name, "SourceFile") {
            let (i, _) = read_u16(info, 0)?;
            Ok(AttributeValue::SourceFile(i))
        } else if same_text(name, "Code") {
            let c = read_code(info)?;
            Ok(AttributeValue::Code(c))
        } else if same_text(name, "RuntimeInvisibleParameterAnnotations") {
            let (n, q) = read_u8(info, 0)?;
            let (v, _) = read_parameters(info, q, n)?;
            Ok(AttributeValue::RuntimeInvisibleParameterAnnotations(v))
        } else if same_text(name, "RuntimeInvisibleAnnotations") {
            let (n, q) = read_u16(info, 0)?;
            let (v, _) = read_annotations(info, q, n)?;
            Ok(AttributeValue::RuntimeInvisibleAnnotations(v))
        } else {
            Ok(AttributeValue::Unidentified(vstd::slice::slice_to_vec(info)))
        }
    }
}

} // verus!
