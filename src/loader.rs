use vstd::prelude::*;
use crate::attributes::{
    AttributeInfo, AttributeModel, AttributeValue, RawAttribute, attribute_kind, interpret, code_of,
    read_code,
};
use crate::bytes::same_text;
use crate::error::{ClassLoadError, LoadFault};
use crate::header::{ClassFileHeader, HeaderModel, Member, header_of};
use crate::pool::{ConstantPoolTag, PoolEntry, entry_kind};

verus! {

/// The slot at 1-based `key`, if there is one.
pub open spec fn constant_at(pool: Seq<PoolEntry>, key: int) -> Option<PoolEntry> {
    if 1 <= key <= pool.len() {
        Some(pool[key - 1])
    } else {
        None
    }
}

/// The text at 1-based `key`, where that slot is a Utf8 entry.
pub open spec fn utf8_at(pool: Seq<PoolEntry>, key: int) -> Option<Seq<char>> {
    match constant_at(pool, key) {
        Some(PoolEntry::Utf8(_, _, t)) => Some(t),
        _ => None,
    }
}

/// Resolves index `i` as text: a missing slot (0 or past the end) and a
/// slot of another kind are faults of their own.
pub open spec fn utf8_ref(pool: Seq<PoolEntry>, i: u16) -> Result<Seq<char>, LoadFault> {
    match constant_at(pool, i as int) {
        None => Err(LoadFault::ConstantPoolMissing(i)),
        Some(PoolEntry::Utf8(_, _, t)) => Ok(t),
        Some(x) => Err(LoadFault::ConstantPoolTypeMismatch("Utf8"@, entry_kind(x))),
    }
}

/// An attribute's resolved name and its interpretation.
pub open spec fn attribute_value_of(pool: Seq<PoolEntry>, a: RawAttribute) -> Result<
    (Seq<char>, AttributeModel),
    LoadFault,
> {
    match utf8_ref(pool, a.name_index) {
        Err(e) => Err(e),
        Ok(name) => match interpret(name, a.info) {
            Err(e) => Err(e),
            Ok(v) => Ok((name, v)),
        },
    }
}

/// The first attribute from `i` on that is named `name`, interpreted. The
/// names of the attributes passed are resolved; their bodies are not read.
pub open spec fn attribute_named_from(
    pool: Seq<PoolEntry>,
    attrs: Seq<RawAttribute>,
    name: Seq<char>,
    i: int,
) -> Result<AttributeModel, LoadFault>
    decreases attrs.len() - i,
{
    if i < 0 || i >= attrs.len() {
        Err(LoadFault::AttributeMissing(name))
    } else {
        match utf8_ref(pool, attrs[i].name_index) {
            Err(e) => Err(e),
            Ok(n) => if n == name {
                interpret(n, attrs[i].info)
            } else {
                attribute_named_from(pool, attrs, name, i + 1)
            },
        }
    }

}

/// The class-level attribute named `name`.
pub open spec fn class_attribute_of(h: HeaderModel, name: Seq<char>) -> Result<AttributeModel, LoadFault> {
    attribute_named_from(h.constant_pool, h.attributes, name, 0)
}

/// The name of the source file, from the class's SourceFile attribute.
pub open spec fn source_file_of(h: HeaderModel) -> Result<Seq<char>, LoadFault> {
    match class_attribute_of(h, "SourceFile"@) {
        Err(e) => Err(e),
        Ok(AttributeModel::SourceFile(i)) => utf8_ref(h.constant_pool, i),
        Ok(v) => Err(LoadFault::AttributeTypeMismatch("SourceFile"@, attribute_kind(v))),
    }
}

/// The class's name: this-class leads to a Class entry, which leads to a
/// Utf8 entry; a NameAndType entry found there instead is followed to its name.
pub open spec fn class_name_of(h: HeaderModel) -> Result<Seq<char>, LoadFault> {
    let pool = h.constant_pool;
    match constant_at(pool, h.this_class as int) {
        None => Err(LoadFault::ConstantPoolMissing(h.this_class)),
        Some(PoolEntry::Class(ci)) => match constant_at(pool, ci as int) {
            None => Err(LoadFault::ConstantPoolMissing(ci)),
            Some(PoolEntry::Utf8(_, _, t)) => Ok(t),
            Some(PoolEntry::NameAndType(ni, _)) => utf8_ref(pool, ni),
            Some(x) => Err(LoadFault::ConstantPoolTypeMismatch("Utf8"@, entry_kind(x))),
        },
        Some(x) => Err(LoadFault::ConstantPoolTypeMismatch("Class"@, entry_kind(x))),
    }
}

/// A method: its name, its descriptor and its instruction bytes.
#[derive(Debug, PartialEq, Eq)]
pub struct Method {
    pub method_name: String,
    pub descriptor: String,
    /// Empty where the method has no Code attribute.
    pub code: Vec<u8>,
}

/// The mathematical value of a `Method`.
pub struct MethodModel {
    pub name: Seq<char>,
    pub descriptor: Seq<char>,
    pub code: Seq<u8>,
}

impl View for Method {
    type V = MethodModel;

    open spec fn view(&self) -> MethodModel {
        MethodModel { name: self.method_name@, descriptor: self.descriptor@, code: self.code@ }
    }
}

pub open spec fn methods_view(v: Seq<Method>) -> Seq<MethodModel> {
    v.map_values(|m: Method| m@)
}

/// The instruction bytes of the last Code attribute from `i` on, else
/// `code`. Every attribute's name is resolved; only Code bodies are read.
pub open spec fn code_from(pool: Seq<PoolEntry>, attrs: Seq<RawAttribute>, i: int, code: Seq<u8>) -> Result<
    Seq<u8>,
    LoadFault,
>
    decreases attrs.len() - i,
{
    if i < 0 || i >= attrs.len() {
        Ok(code)
    } else {
        match utf8_ref(pool, attrs[i].name_index) {
            Err(e) => Err(e),
            Ok(n) => if n == "Code"@ {
                match code_of(attrs[i].info) {
                    Err(e) => Err(e),
                    Ok(c) => code_from(pool, attrs, i + 1, c.code),
                }
            } else {
                code_from(pool, attrs, i + 1, code)
            },
        }
    }
}

/// A method table entry resolved into a `MethodModel`.
pub open spec fn method_of(pool: Seq<PoolEntry>, m: Member) -> Result<MethodModel, LoadFault> {
    match utf8_ref(pool, m.name_index) {
        Err(e) => Err(e),
        Ok(name) => match utf8_ref(pool, m.descriptor_index) {
            Err(e) => Err(e),
            Ok(descriptor) => match code_from(pool, m.attributes, 0, seq![]) {
                Err(e) => Err(e),
                Ok(code) => Ok(MethodModel { name, descriptor, code }),
            },
        },
    }
}

/// The methods from `i` on, each resolved, in table order.
pub open spec fn methods_from(pool: Seq<PoolEntry>, ms: Seq<Member>, i: int) -> Result<
    Seq<MethodModel>,
    LoadFault,
>
    decreases ms.len() - i,
{
    if i < 0 || i >= ms.len() {
        Ok(seq![])
    } else {
        match method_of(pool, ms[i]) {
            Err(e) => Err(e),
            Ok(m) => match methods_from(pool, ms, i + 1) {
                Err(e) => Err(e),
                Ok(rest) => Ok(seq![m] + rest),
            },
        }
    }
}

/// `r` with `acc` put in front of its items.
pub open spec fn after<T>(acc: Seq<T>, r: Result<Seq<T>, LoadFault>) -> Result<Seq<T>, LoadFault> {
    match r {
        Err(e) => Err(e),
        Ok(rest) => Ok(acc + rest),
    }
}

/// Every attribute from `i` on, resolved and interpreted, in table order.
pub open spec fn attribute_values_from(pool: Seq<PoolEntry>, attrs: Seq<RawAttribute>, i: int) -> Result<
    Seq<(Seq<char>, AttributeModel)>,
    LoadFault,
>
    decreases attrs.len() - i,
{
    if i < 0 || i >= attrs.len() {
        Ok(seq![])
    } else {
        match attribute_value_of(pool, attrs[i]) {
            Err(e) => Err(e),
            Ok(v) => match attribute_values_from(pool, attrs, i + 1) {
                Err(e) => Err(e),
                Ok(rest) => Ok(seq![v] + rest),
            },
        }
    }
}

pub open spec fn named_values_view(v: Seq<(&String, AttributeValue)>) -> Seq<(Seq<char>, AttributeModel)> {
    v.map_values(|x: (&String, AttributeValue)| (x.0@, x.1@))
}

/// Resolves the indices of a class file's structure.
pub struct ClassReader {
    pub header: ClassFileHeader,
}

impl ClassReader {
    pub fn new(header: ClassFileHeader) -> (r: Self)
        ensures
            r.header@ == header@,
    {
        ClassReader { header }
    }

    /// The slot at 1-based `key`; none for 0 or past the end.
    pub fn get_constant_value(&self, key: usize) -> (r: Option<&ConstantPoolTag>)
        ensures
            match r {
                Some(e) => constant_at(self.header@.constant_pool, key as int) == Some(e@),
                None => constant_at(self.header@.constant_pool, key as int) is None,
            },
    {
        if key >= 1 && key <= self.header.constant_pool.len() {
            Some(&self.header.constant_pool[key - 1])
        } else {
            None
        }
    }

    /// The text at 1-based `index`, where that slot is a Utf8 entry.
    pub fn get_constant_utf8(&self, index: usize) -> (r: Option<&String>)
        ensures
            match r {
                Some(s) => utf8_at(self.header@.constant_pool, index as int) == Some(s@),
                None => utf8_at(self.header@.constant_pool, index as int) is None,
            },
    {
        match self.get_constant_value(index) {
            Some(ConstantPoolTag::Utf8(_, _, value)) => Some(value),
            _ => None,
        }
    }

    /// The text at index `index`; a missing slot and a slot of another kind
    /// are faults of their own.
    pub fn resolve_utf8(&self, index: u16) -> (r: Result<&String, ClassLoadError>)
        ensures
            match r {
                Ok(s) => utf8_ref(self.header@.constant_pool, index) == Ok::<_, LoadFault>(s@),
                Err(e) => utf8_ref(self.header@.constant_pool, index) == Err::<Seq<char>, _>(e@),
            },
    {
        match self.get_constant_value(index as usize) {
            None => Err(ClassLoadError::ConstantPoolMissing(index)),
            Some(ConstantPoolTag::Utf8(_, _, value)) => Ok(value),
            Some(x) => Err(
                ClassLoadError::ConstantPoolTypeMismatch(String::from_str("Utf8"), x.kind_name()),
            ),
        }
    }

    /// An attribute's resolved name and its interpretation.
    pub fn get_attribute_value(&self, attribute: &AttributeInfo) -> (r: Result<
        (&String, AttributeValue),
        ClassLoadError,
    >)
        ensures
            match r {
                Ok((n, v)) => attribute_value_of(self.header@.constant_pool, attribute@) == Ok::<
                    _,
                    LoadFault,
                >((n@, v@)),
                Err(e) => attribute_value_of(self.header@.constant_pool, attribute@) == Err::<
                    (Seq<char>, AttributeModel),
                    _,
                >(e@),
            },
    {
        let name = self.resolve_utf8(attribute.attribute_name_index)?;
        let v = AttributeValue::from_name_and_info(name.as_str(), attribute.info.as_slice())?;
        Ok((name, v))
    }

    /// Every class-level attribute with its name, in table order.
    pub fn get_attributes_map(&self) -> (r: Result<Vec<(&String, AttributeValue)>, ClassLoadError>)
        ensures
            match r {
                Ok(v) => attribute_values_from(self.header@.constant_pool, self.header@.attributes, 0)
                    == Ok::<_, LoadFault>(named_values_view(v@)),
                Err(e) => attribute_values_from(self.header@.constant_pool, self.header@.attributes, 0)
                    == Err::<Seq<(Seq<char>, AttributeModel)>, _>(e@),
            },
    {
        let attrs = &self.header.attributes;
        let ghost pool = self.header@.constant_pool;
        let ghost all = self.header@.attributes;
        let mut out: Vec<(&String, AttributeValue)> = Vec::new();
        let mut i: usize = 0;
        proof {
            assert(named_values_view(out@) =~= seq![]);
            if let Ok(rest) = attribute_values_from(pool, all, 0) {
                assert(seq![] + rest =~= rest);
            }
        }
        while i < attrs.len()
            invariant
                i <= attrs@.len(),
                attrs == &self.header.attributes,
                all == self.header@.attributes,
                pool == self.header@.constant_pool,
                attribute_values_from(pool, all, 0) == after(
                    named_values_view(out@),
                    attribute_values_from(pool, all, i as int),
                ),
            decreases attrs@.len() - i,
        {
            let (name, value) = self.get_attribute_value(&attrs[i])?;
            let ghost x = (name@, value@);
            let ghost before = out@;
            proof {
                if let Ok(rest) = attribute_values_from(pool, all, i + 1) {
                    assert(named_values_view(out@) + (seq![x] + rest) =~= named_values_view(out@).push(
                        x,
                    ) + rest);
                }
            }
            out.push((name, value));
            proof {
                assert(named_values_view(out@) =~= named_values_view(before).push(x));
            }
            i = i + 1;
        }
        proof {
            assert(named_values_view(out@) + seq![] =~= named_values_view(out@));
        }
        Ok(out)
    }

    /// The first class-level attribute named `name`.
    pub fn get_class_attribute(&self, name: &str) -> (r: Result<AttributeValue, ClassLoadError>)
        ensures
            match r {
                Ok(v) => class_attribute_of(self.header@, name@) == Ok::<_, LoadFault>(v@),
                Err(e) => class_attribute_of(self.header@, name@) == Err::<AttributeModel, _>(e@),
            },
    {
        let attrs = &self.header.attributes;
        let mut i: usize = 0;
        while i < attrs.len()
            invariant
                i <= attrs@.len(),
                attrs == &self.header.attributes,
                class_attribute_of(self.header@, name@) == attribute_named_from(
                    self.header@.constant_pool,
                    self.header@.attributes,
                    name@,
                    i as int,
                ),
            decreases attrs@.len() - i,
        {
            let attr_name = self.resolve_utf8(attrs[i].attribute_name_index)?;
            if same_text(attr_name.as_str(), name) {
                return AttributeValue::from_name_and_info(
                    attr_name.as_str(),
                    attrs[i].info.as_slice(),
                );
            }
            i = i + 1;
        }
        Err(ClassLoadError::AttributeMissing(String::from_str(name)))
    }

    /// The name of the source file.
    pub fn get_source_file(&self) -> (r: Result<&String, ClassLoadError>)
        ensures
            match r {
                Ok(s) => source_file_of(self.header@) == Ok::<_, LoadFault>(s@),
                Err(e) => source_file_of(self.header@) == Err::<Seq<char>, _>(e@),
            },
    {
        let key = "SourceFile";
        match self.get_class_attribute(key)? {
            AttributeValue::SourceFile(i) => self.resolve_utf8(i),
            v => Err(ClassLoadError::AttributeTypeMismatch(String::from_str(key), v.kind_name())),
        }
    }

    /// The name of the class.
    pub fn get_class_name(&self) -> (r: Result<&String, ClassLoadError>)
        ensures
            match r {
                Ok(s) => class_name_of(self.header@) == Ok::<_, LoadFault>(s@),
                Err(e) => class_name_of(self.header@) == Err::<Seq<char>, _>(e@),
            },
    {
        let this_class = self.header.this_class;
        match self.get_constant_value(this_class as usize) {
            None => Err(ClassLoadError::ConstantPoolMissing(this_class)),
            Some(ConstantPoolTag::Class(ci)) => match self.get_constant_value(*ci as usize) {
                None => Err(ClassLoadError::ConstantPoolMissing(*ci)),
                Some(ConstantPoolTag::Utf8(_, _, name)) => Ok(name),
                Some(ConstantPoolTag::NameAndType(ni, _)) => self.resolve_utf8(*ni),
                Some(x) => Err(
                    ClassLoadError::ConstantPoolTypeMismatch(String::from_str("Utf8"), x.kind_name()),
                ),
            },
            Some(x) => Err(
                ClassLoadError::ConstantPoolTypeMismatch(String::from_str("Class"), x.kind_name()),
            ),
        }
    }

    /// The instruction bytes of the last Code attribute of a method, empty
    /// where there is none.
    fn get_code(&self, method: &crate::header::MemberInfo) -> (r: Result<Vec<u8>, ClassLoadError>)
        ensures
            match r {
                Ok(c) => code_from(self.header@.constant_pool, method@.attributes, 0, seq![]) == Ok::<
                    _,
                    LoadFault,
                >(c@),
                Err(e) => code_from(self.header@.constant_pool, method@.attributes, 0, seq![]) == Err::<
                    Seq<u8>,
                    _,
                >(e@),
            },
    {
        let attrs = &method.attributes;
        let mut code: Vec<u8> = Vec::new();
        let mut i: usize = 0;
        proof {
            assert(code@ =~= seq![]);
        }
        while i < attrs.len()
            invariant
                i <= attrs@.len(),
                attrs == &method.attributes,
                method@.attributes == crate::attributes::attributes_view(attrs@),
                code_from(self.header@.constant_pool, method@.attributes, 0, seq![]) == code_from(
                    self.header@.constant_pool,
                    method@.attributes,
                    i as int,
                    code@,
                ),
            decreases attrs@.len() - i,
        {
            let name = self.resolve_utf8(attrs[i].attribute_name_index)?;
            if same_text(name.as_str(), "Code") {
                let c = read_code(attrs[i].info.as_slice())?;
                code = c.code;
            }
            i = i + 1;
        }
        Ok(code)
    }

    /// Every method, resolved, in table order.
    pub fn get_methods(&self) -> (r: Result<Vec<Method>, ClassLoadError>)
        ensures
            match r {
                Ok(v) => methods_from(self.header@.constant_pool, self.header@.methods, 0) == Ok::<
                    _,
                    LoadFault,
                >(methods_view(v@)),
                Err(e) => methods_from(self.header@.constant_pool, self.header@.methods, 0) == Err::<
                    Seq<MethodModel>,
                    _,
                >(e@),
            },
    {
        let ms = &self.header.methods;
        let ghost pool = self.header@.constant_pool;
        let ghost all = self.header@.methods;
        let mut out: Vec<Method> = Vec::new();
        let mut i: usize = 0;
        proof {
            assert(methods_view(out@) =~= seq![]);
            if let Ok(rest) = methods_from(pool, all, 0) {
                assert(seq![] + rest =~= rest);
            }
        }
        while i < ms.len()
            invariant
                i <= ms@.len(),
                ms == &self.header.methods,
                all == self.header@.methods,
                pool == self.header@.constant_pool,
                methods_from(pool, all, 0) == after(methods_view(out@), methods_from(pool, all, i as int)),
            decreases ms@.len() - i,
        {
            let m = &ms[i];
            let name = self.resolve_utf8(m.name_index)?;
            let descriptor = self.resolve_utf8(m.descriptor_index)?;
            let code = self.get_code(m)?;
            let method = Method { method_name: name.clone(), descriptor: descriptor.clone(), code };
            proof {
                assert(method_of(pool, all[i as int]) == Ok::<_, LoadFault>(method@));
                if let Ok(rest) = methods_from(pool, all, i + 1) {
                    assert(methods_view(out@) + (seq![method@] + rest) =~= methods_view(
                        out@.push(method),
                    ) + rest);
                }
                assert(methods_view(out@.push(method)) =~= methods_view(out@).push(method@));
            }
            out.push(method);
            i = i + 1;
        }
        proof {
            assert(methods_view(out@) + seq![] =~= methods_view(out@));
        }
        Ok(out)
    }
}

/// A class resolved from its file: the only value a load hands out.
#[derive(Debug, PartialEq, Eq)]
pub struct Class {
    class_name: String,
    source_file_name: String,
    methods: Vec<Method>,
}

/// The mathematical value of a `Class`.
pub struct ClassModel {
    pub class_name: Seq<char>,
    pub source_file_name: Seq<char>,
    pub methods: Seq<MethodModel>,
}

impl View for Class {
    type V = ClassModel;

    closed spec fn view(&self) -> ClassModel {
        ClassModel {
            class_name: self.class_name@,
            source_file_name: self.source_file_name@,
            methods: methods_view(self.methods@),
        }
    }
}

/// A class resolved from its structure: the source file is resolved first,
/// then the class name, then the methods.
pub open spec fn class_of(h: HeaderModel) -> Result<ClassModel, LoadFault> {
    match source_file_of(h) {
        Err(e) => Err(e),
        Ok(source_file_name) => match class_name_of(h) {
            Err(e) => Err(e),
            Ok(class_name) => match methods_from(h.constant_pool, h.methods, 0) {
                Err(e) => Err(e),
                Ok(methods) => Ok(ClassModel { class_name, source_file_name, methods }),
            },
        },
    }
}

/// The class that the bytes `d` hold: structure first, then resolution.
pub open spec fn load_of(d: Seq<u8>) -> Result<ClassModel, LoadFault> {
    match header_of(d) {
        Err(e) => Err(e),
        Ok(h) => class_of(h),
    }
}

/// The position of the last method in `ms[0..n]` named `name`.
pub open spec fn last_named(ms: Seq<MethodModel>, name: Seq<char>, n: int) -> Option<int>
    decreases n,
{
    if n <= 0 {
        None
    } else if ms[n - 1].name == name {
        Some(n - 1)
    } else {
        last_named(ms, name, n - 1)
    }
}

impl Class {
    /// Resolves a class from its structure.
    pub fn from_header(header: ClassFileHeader) -> (r: Result<Self, ClassLoadError>)
        ensures
            match r {
                Ok(c) => class_of(header@) == Ok::<_, LoadFault>(c@),
                Err(e) => class_of(header@) == Err::<ClassModel, _>(e@),
            },
    {
        let reader = ClassReader::new(header);
        let source_file_name = reader.get_source_file()?;
        let class_name = reader.get_class_name()?;
        let methods = reader.get_methods()?;
        Ok(
            Class {
                class_name: class_name.clone(),
                source_file_name: source_file_name.clone(),
                methods,
            },
        )
    }

    pub fn class_name(&self) -> (r: &String)
        ensures
            r@ == self@.class_name,
    {
        &self.class_name
    }

    pub fn source_file_name(&self) -> (r: &String)
        ensures
            r@ == self@.source_file_name,
    {
        &self.source_file_name
    }

    /// Every method, in table order.
    pub fn methods(&self) -> (r: &Vec<Method>)
        ensures
            methods_view(r@) == self@.methods,
    {
        &self.methods
    }

    /// The last method named `name`, where one is.
    pub fn get_method(&self, name: &str) -> (r: Option<&Method>)
        ensures
            match last_named(self@.methods, name@, self@.methods.len() as int) {
                Some(k) => r matches Some(m) && m@ == self@.methods[k],
                None => r is None,
            },
    {
        let mut i: usize = self.methods.len();
        while i > 0
            invariant
                i <= self.methods@.len(),
                self@.methods.len() == self.methods@.len(),
                last_named(self@.methods, name@, self@.methods.len() as int) == last_named(
                    self@.methods,
                    name@,
                    i as int,
                ),
            decreases i,
        {
            if same_text(self.methods[i - 1].method_name.as_str(), name) {
                return Some(&self.methods[i - 1]);
            }
            i = i - 1;
        }
        None
    }

    /// The entry point, by its conventional name `main`.
    pub fn get_main(&self) -> (r: Option<&Method>)
        ensures
            match last_named(self@.methods, "main"@, self@.methods.len() as int) {
                Some(k) => r matches Some(m) && m@ == self@.methods[k],
                None => r is None,
            },
    {
        self.get_method("main")
    }
}

/// Loads classes from their bytes; every load decodes its input afresh.
#[derive(Debug, Clone, Copy)]
pub struct Loader {}

impl Loader {
    pub fn new() -> Self {
        Loader {  }
    }

    /// The class that `bytes` hold.
    pub fn load_from_bytes(&self, bytes: &[u8]) -> (r: Result<Class, ClassLoadError>)
        ensures
            match r {
                Ok(c) => load_of(bytes@) == Ok::<_, LoadFault>(c@),
                Err(e) => load_of(bytes@) == Err::<ClassModel, _>(e@),
            },
    {
        let header = ClassFileHeader::from_bytes(bytes)?;
        Class::from_header(header)
    }
}

/// Input that does not start with the magic sentinel fails with the four
/// bytes it does start with, whatever follows them.
pub proof fn lemma_magic_mismatch(d: Seq<u8>)
    requires
        d.len() >= 4,
        crate::bytes::be32(d, 0) != crate::header::MAGIC,
    ensures
        load_of(d) == Err::<ClassModel, _>(LoadFault::MagicMismatch(crate::bytes::be32(d, 0))),
{
}

/// Whether the name of attribute `a` resolves to text other than `name`.
pub open spec fn named_otherwise(pool: Seq<PoolEntry>, a: RawAttribute, name: Seq<char>) -> bool {
    match utf8_ref(pool, a.name_index) {
        Ok(n) => n != name,
        Err(_) => false,
    }
}

/// Looking up a class-level attribute that the class lacks fails with that
/// name as missing, once every attribute's name resolves; the other
/// attributes' bodies are never read.
pub proof fn lemma_attribute_missing(h: HeaderModel, name: Seq<char>)
    requires
        forall|i: int|
            0 <= i < h.attributes.len() ==> #[trigger] named_otherwise(
                h.constant_pool,
                h.attributes[i],
                name,
            ),
    ensures
        class_attribute_of(h, name) == Err::<AttributeModel, _>(LoadFault::AttributeMissing(name)),
{
    lemma_attribute_missing_from(h, name, 0);
}

proof fn lemma_attribute_missing_from(h: HeaderModel, name: Seq<char>, i: int)
    requires
        0 <= i,
        forall|j: int|
            0 <= j < h.attributes.len() ==> #[trigger] named_otherwise(
                h.constant_pool,
                h.attributes[j],
                name,
            ),
    ensures
        attribute_named_from(h.constant_pool, h.attributes, name, i) == Err::<AttributeModel, _>(
            LoadFault::AttributeMissing(name),
        ),
    decreases h.attributes.len() - i,
{
    if i < h.attributes.len() {
        assert(named_otherwise(h.constant_pool, h.attributes[i], name));
        lemma_attribute_missing_from(h, name, i + 1);
    }
}

/// Loading is a function of the bytes alone: the same input gives the same
/// class, name, source file and methods alike, or the same fault.
pub proof fn lemma_load_deterministic(a: Seq<u8>, b: Seq<u8>)
    requires
        a == b,
    ensures
        load_of(a) == load_of(b),
        load_of(a) matches Ok(c) ==> c.class_name == load_of(b)->Ok_0.class_name
            && c.source_file_name == load_of(b)->Ok_0.source_file_name && c.methods == load_of(
            b,
        )->Ok_0.methods,
{
}

} // verus!
