use vstd::prelude::*;
use crate::bytes::{read_u16, read_u8, u16_at, u8_at, cons, prepend, lemma_cons_step};
use crate::error::{ClassLoadError, LoadFault, Step};

verus! {

/// How deep element values may nest before decoding gives up.
pub const MAX_ELEMENT_DEPTH: usize = 64;

/// A name and its value inside an annotation.
#[derive(Debug, PartialEq, Eq)]
pub struct ElementValuePair {
    pub name_index: u16,
    pub value: ElementValue,
}

/// An annotation: its type and its named values.
#[derive(Debug, PartialEq, Eq)]
pub struct Annotation {
    pub type_index: u16,
    pub element_value_pairs: Vec<ElementValuePair>,
}

/// The value of an annotation element.
#[derive(Debug, PartialEq, Eq)]
pub enum ElementValue {
    ConstValueIndex(u16),
    EnumConstValue(u16, u16),
    ClassInfoIndex(u16),
    AnnotationValue(Annotation),
    ArrayValue(Vec<ElementValue>),
}

/// The annotations of one method parameter.
#[derive(Debug, PartialEq, Eq)]
pub struct ParameterAnnotation {
    pub annotations: Vec<Annotation>,
}

/// The mathematical value of an `ElementValue`.
pub enum ElementModel {
    ConstValueIndex(u16),
    EnumConstValue(u16, u16),
    ClassInfoIndex(u16),
    AnnotationValue(AnnotationModel),
    ArrayValue(Seq<ElementModel>),
}

/// The mathematical value of an `Annotation`: its type and its (name, value) pairs.
pub struct AnnotationModel {
    pub type_index: u16,
    pub pairs: Seq<(u16, ElementModel)>,
}

pub open spec fn value_model(v: ElementValue) -> ElementModel
    decreases v,
{
    match v {
        ElementValue::ConstValueIndex(i) => ElementModel::ConstValueIndex(i),
        ElementValue::EnumConstValue(a, b) => ElementModel::EnumConstValue(a, b),
        ElementValue::ClassInfoIndex(i) => ElementModel::ClassInfoIndex(i),
        ElementValue::AnnotationValue(a) => ElementModel::AnnotationValue(annotation_model(a)),
        ElementValue::ArrayValue(vs) => ElementModel::ArrayValue(values_model(vs@)),
    }
}

pub open spec fn values_model(s: Seq<ElementValue>) -> Seq<ElementModel>
    decreases s,
{
    if s.len() == 0 {
        seq![]
    } else {
        values_model(s.drop_last()).push(value_model(s.last()))
    }
}

pub open spec fn annotation_model(a: Annotation) -> AnnotationModel
    decreases a,
{
    AnnotationModel { type_index: a.type_index, pairs: pairs_model(a.element_value_pairs@) }
}

pub open spec fn pairs_model(s: Seq<ElementValuePair>) -> Seq<(u16, ElementModel)>
    decreases s,
{
    if s.len() == 0 {
        seq![]
    } else {
        pairs_model(s.drop_last()).push((s.last().name_index, value_model(s.last().value)))
    }
}

pub open spec fn annotations_model(s: Seq<Annotation>) -> Seq<AnnotationModel> {
    s.map_values(|a: Annotation| annotation_model(a))
}

pub open spec fn parameters_model(s: Seq<ParameterAnnotation>) -> Seq<Seq<AnnotationModel>> {
    s.map_values(|p: ParameterAnnotation| annotations_model(p.annotations@))
}

/// Tags of element values that hold one constant-pool index of a constant.
pub open spec fn is_const_tag(t: u8) -> bool {
    t == 0x73 || t == 0x42 || t == 0x43 || t == 0x44 || t == 0x46 || t == 0x49 || t == 0x4a
        || t == 0x53 || t == 0x5a
}

/// The element value at `p`, allowed `depth` more levels of nesting: a tag
/// byte, then a constant (`s B C D F I J S Z`), an enum (`e`), a class (`c`),
/// a nested annotation (`@`) or an array (`[`).
pub open spec fn value_at(d: Seq<u8>, p: int, depth: nat) -> Step<ElementModel>
    decreases depth, 0nat, 0nat,
{
    if depth == 0 {
        Err(LoadFault::NestingTooDeep)
    } else {
        match u8_at(d, p) {
            Err(e) => Err(e),
            Ok((t, q)) => if is_const_tag(t) || t == 0x63 {
                match u16_at(d, q) {
                    Err(e) => Err(e),
                    Ok((i, r)) => Ok(
                        (
                            if t == 0x63 {
                                ElementModel::ClassInfoIndex(i)
                            } else {
                                ElementModel::ConstValueIndex(i)
                            },
                            r,
                        ),
                    ),
                }
            } else if t == 0x65 {
                match u16_at(d, q) {
                    Err(e) => Err(e),
                    Ok((a, r)) => match u16_at(d, r) {
                        Err(e) => Err(e),
                        Ok((b, s)) => Ok((ElementModel::EnumConstValue(a, b), s)),
                    },
                }
            } else if t == 0x40 {
                match annotation_at(d, q, (depth - 1) as nat) {
                    Err(e) => Err(e),
                    Ok((a, r)) => Ok((ElementModel::AnnotationValue(a), r)),
                }
            } else if t == 0x5b {
                match u16_at(d, q) {
                    Err(e) => Err(e),
                    Ok((n, r)) => match values_at(d, r, n as nat, (depth - 1) as nat) {
                        Err(e) => Err(e),
                        Ok((vs, s)) => Ok((ElementModel::ArrayValue(vs), s)),
                    },
                }
            } else {
                Err(LoadFault::UnknownElementValueTag(t))
            },
        }
    }
}

/// `n` element values in a row.
pub open spec fn values_at(d: Seq<u8>, p: int, n: nat, depth: nat) -> Step<Seq<ElementModel>>
    decreases depth, 1nat, n,
{
    if n == 0 {
        Ok((seq![], p))
    } else {
        match value_at(d, p, depth) {
            Err(e) => Err(e),
            Ok((v, q)) => cons(v, values_at(d, q, (n - 1) as nat, depth)),
        }
    }
}

/// The name index and value of a pair at `p`.
pub open spec fn pair_at(d: Seq<u8>, p: int, depth: nat) -> Step<(u16, ElementModel)>
    decreases depth, 0nat, 1nat,
{
    match u16_at(d, p) {
        Err(e) => Err(e),
        Ok((name, q)) => match value_at(d, q, depth) {
            Err(e) => Err(e),
            Ok((v, r)) => Ok(((name, v), r)),
        },
    }
}

/// `n` name and value pairs in a row.
pub open spec fn pairs_at(d: Seq<u8>, p: int, n: nat, depth: nat) -> Step<Seq<(u16, ElementModel)>>
    decreases depth, 1nat, n,
{
    if n == 0 {
        Ok((seq![], p))
    } else {
        match pair_at(d, p, depth) {
            Err(e) => Err(e),
            Ok((x, q)) => cons(x, pairs_at(d, q, (n - 1) as nat, depth)),
        }
    }
}

/// An annotation at `p`: type index, pair count, pairs.
pub open spec fn annotation_at(d: Seq<u8>, p: int, depth: nat) -> Step<AnnotationModel>
    decreases depth, 2nat, 0nat,
{
    match u16_at(d, p) {
        Err(e) => Err(e),
        Ok((type_index, q)) => match u16_at(d, q) {
            Err(e) => Err(e),
            Ok((n, r)) => match pairs_at(d, r, n as nat, depth) {
                Err(e) => Err(e),
                Ok((pairs, s)) => Ok((AnnotationModel { type_index, pairs }, s)),
            },
        },
    }
}

/// `n` annotations in a row, each allowed the full nesting depth.
pub open spec fn annotations_at(d: Seq<u8>, p: int, n: nat) -> Step<Seq<AnnotationModel>>
    decreases n,
{
    if n == 0 {
        Ok((seq![], p))
    } else {
        match annotation_at(d, p, MAX_ELEMENT_DEPTH as nat) {
            Err(e) => Err(e),
            Ok((a, q)) => cons(a, annotations_at(d, q, (n - 1) as nat)),
        }
    }
}

/// `n` parameters in a row, each a 16-bit count and that many annotations.
pub open spec fn parameters_at(d: Seq<u8>, p: int, n: nat) -> Step<Seq<Seq<AnnotationModel>>>
    decreases n,
{
    if n == 0 {
        Ok((seq![], p))
    } else {
        match u16_at(d, p) {
            Err(e) => Err(e),
            Ok((k, q)) => match annotations_at(d, q, k as nat) {
                Err(e) => Err(e),
                Ok((anns, r)) => cons(anns, parameters_at(d, r, (n - 1) as nat)),
            },
        }
    }
}

proof fn lemma_done<T>(acc: Seq<T>, p: int)
    ensures
        prepend(acc, Ok::<_, LoadFault>((seq![], p))) == Ok::<_, LoadFault>((acc, p)),
        prepend(seq![], Ok::<_, LoadFault>((acc, p))) == Ok::<_, LoadFault>((acc, p)),
{
    assert(acc + seq![] =~= acc);
    assert(seq![] + acc =~= acc);
}

proof fn lemma_start<T>(s: Step<Seq<T>>)
    ensures
        prepend(seq![], s) == s,
{
    if let Ok((rest, r)) = s {
        assert(seq![] + rest =~= rest);
    }
}

fn read_value(d: &[u8], p: usize, depth: usize) -> (r: Result<(ElementValue, usize), ClassLoadError>)
    ensures
        match r {
            Ok((v, e)) => value_at(d@, p as int, depth as nat) == Ok::<_, LoadFault>(
                (value_model(v), e as int),
            ),
            Err(e) => value_at(d@, p as int, depth as nat) == Err::<(ElementModel, int), _>(e@),
        },
    decreases depth, 0nat,
{
    if depth == 0 {
        return Err(ClassLoadError::NestingTooDeep);
    }
    let (t, q) = read_u8(d, p)?;
    if t == 0x73 || t == 0x42 || t == 0x43 || t == 0x44 || t == 0x46 || t == 0x49 || t == 0x4a
        || t == 0x53 || t == 0x5a {
        let (i, r) = read_u16(d, q)?;
        Ok((ElementValue::ConstValueIndex(i), r))
    } else if t == 0x63 {
        let (i, r) = read_u16(d, q)?;
        Ok((ElementValue::ClassInfoIndex(i), r))
    } else if t == 0x65 {
        let (a, r) = read_u16(d, q)?;
        let (b, s) = read_u16(d, r)?;
        Ok((ElementValue::EnumConstValue(a, b), s))
    } else if t == 0x40 {
        let (a, r) = read_annotation(d, q, depth - 1)?;
        Ok((ElementValue::AnnotationValue(a), r))
    } else if t == 0x5b {
        let (n, r0) = read_u16(d, q)?;
        let mut values: Vec<ElementValue> = Vec::new();
        let mut r = r0;
        let mut i: u16 = 0;
        let ghost whole = values_at(d@, r0 as int, n as nat, (depth - 1) as nat);
        proof {
            lemma_start(whole);
        }
        while i < n
            invariant
                i <= n,
                depth > 0,
                whole == values_at(d@, r0 as int, n as nat, (depth - 1) as nat),
                value_at(d@, p as int, depth as nat) == match whole {
                    Err(e) => Err(e),
                    Ok((vs, s)) => Ok((ElementModel::ArrayValue(vs), s)),
                },
                whole == prepend(
                    values_model(values@),
                    values_at(d@, r as int, (n - i) as nat, (depth - 1) as nat),
                ),
            decreases n - i,
        {
            let ghost rest = values_at(d@, r as int, (n - i) as nat, (depth - 1) as nat);
            let (v, next) = match read_value(d, r, depth - 1) {
                Ok(x) => x,
                Err(e) => {
                    proof {
                        assert(rest == Err::<(Seq<ElementModel>, int), _>(e@));
                    }
                    return Err(e);
                },
            };
            proof {
                assert(rest == cons(
                    value_model(v),
                    values_at(d@, next as int, (n - i - 1) as nat, (depth - 1) as nat),
                ));
                lemma_cons_step(
                    values_model(values@),
                    value_model(v),
                    values_at(d@, next as int, (n - i - 1) as nat, (depth - 1) as nat),
                );
                assert(values@.push(v).drop_last() =~= values@);
            }
            values.push(v);
            r = next;
            i = i + 1;
        }
        proof {
            lemma_done(values_model(values@), r as int);
        }
        Ok((ElementValue::ArrayValue(values), r))
    } else {
        Err(ClassLoadError::UnknownElementValueTag(t))
    }
}

fn read_annotation(d: &[u8], p: usize, depth: usize) -> (r: Result<(Annotation, usize), ClassLoadError>)
    ensures
        match r {
            Ok((v, e)) => annotation_at(d@, p as int, depth as nat) == Ok::<_, LoadFault>(
                (annotation_model(v), e as int),
            ),
            Err(e) => annotation_at(d@, p as int, depth as nat) == Err::<(AnnotationModel, int), _>(
                e@,
            ),
        },
    decreases depth, 1nat,
{
    let (type_index, q) = read_u16(d, p)?;
    let (n, q0) = read_u16(d, q)?;
    let mut pairs: Vec<ElementValuePair> = Vec::new();
    let mut q = q0;
    let mut i: u16 = 0;
    let ghost whole = pairs_at(d@, q0 as int, n as nat, depth as nat);
    proof {
        lemma_start(whole);
    }
    while i < n
        invariant
            i <= n,
            whole == pairs_at(d@, q0 as int, n as nat, depth as nat),
            annotation_at(d@, p as int, depth as nat) == match whole {
                Err(e) => Err(e),
                Ok((pairs, s)) => Ok((AnnotationModel { type_index, pairs }, s)),
            },
            whole == prepend(pairs_model(pairs@), pairs_at(d@, q as int, (n - i) as nat, depth as nat)),
        decreases n - i,
    {
        let ghost rest = pairs_at(d@, q as int, (n - i) as nat, depth as nat);
        let (name_index, r) = match read_u16(d, q) {
            Ok(x) => x,
            Err(e) => {
                proof {
                    assert(pair_at(d@, q as int, depth as nat) == Err::<((u16, ElementModel), int), _>(e@));
                    assert(rest == Err::<(Seq<(u16, ElementModel)>, int), _>(e@));
                }
                return Err(e);
            },
        };
        let (value, next) = match read_value(d, r, depth) {
            Ok(x) => x,
            Err(e) => {
                proof {
                    assert(pair_at(d@, q as int, depth as nat) == Err::<((u16, ElementModel), int), _>(e@));
                    assert(rest == Err::<(Seq<(u16, ElementModel)>, int), _>(e@));
                }
                return Err(e);
            },
        };
        let pair = ElementValuePair { name_index, value };
        proof {
            assert(pair_at(d@, q as int, depth as nat) == Ok::<_, LoadFault>(
                ((name_index, value_model(pair.value)), next as int),
            ));
            assert(rest == cons(
                (name_index, value_model(pair.value)),
                pairs_at(d@, next as int, (n - i - 1) as nat, depth as nat),
            ));
            lemma_cons_step(
                pairs_model(pairs@),
                (name_index, value_model(pair.value)),
                pairs_at(d@, next as int, (n - i - 1) as nat, depth as nat),
            );
            assert(pairs@.push(pair).drop_last() =~= pairs@);
        }
        pairs.push(pair);
        q = next;
        i = i + 1;
    }
    proof {
        lemma_done(pairs_model(pairs@), q as int);
    }
    Ok((Annotation { type_index, element_value_pairs: pairs }, q))
}

/// Reads `n` annotations in a row.
pub fn read_annotations(d: &[u8], p: usize, n: u16) -> (r: Result<(Vec<Annotation>, usize), ClassLoadError>)
    ensures
        match r {
            Ok((v, e)) => annotations_at(d@, p as int, n as nat) == Ok::<_, LoadFault>(
                (annotations_model(v@), e as int),
            ),
            Err(e) => annotations_at(d@, p as int, n as nat) == Err::<(Seq<AnnotationModel>, int), _>(
                e@,
            ),
        },
{
    let mut out: Vec<Annotation> = Vec::new();
    let mut q = p;
    let mut i: u16 = 0;
    let ghost whole = annotations_at(d@, p as int, n as nat);
    proof {
        lemma_start(whole);
        assert(annotations_model(out@) =~= seq![]);
    }
    while i < n
        invariant
            i <= n,
            whole == annotations_at(d@, p as int, n as nat),
            whole == prepend(annotations_model(out@), annotations_at(d@, q as int, (n - i) as nat)),
        decreases n - i,
    {
        let (a, next) = read_annotation(d, q, MAX_ELEMENT_DEPTH)?;
        proof {
            lemma_cons_step(
                annotations_model(out@),
                annotation_model(a),
                annotations_at(d@, next as int, (n - i - 1) as nat),
            );
            assert(annotations_model(out@.push(a)) =~= annotations_model(out@).push(annotation_model(a)));
        }
        out.push(a);
        q = next;
        i = i + 1;
    }
    proof {
        lemma_done(annotations_model(out@), q as int);
    }
    Ok((out, q))
}

/// Reads `n` parameters' annotations in a row.
pub fn read_parameters(d: &[u8], p: usize, n: u8) -> (r: Result<
    (Vec<ParameterAnnotation>, usize),
    ClassLoadError,
>)
    ensures
        match r {
            Ok((v, e)) => parameters_at(d@, p as int, n as nat) == Ok::<_, LoadFault>(
                (parameters_model(v@), e as int),
            ),
            Err(e) => parameters_at(d@, p as int, n as nat) == Err::<
                (Seq<Seq<AnnotationModel>>, int),
                _,
            >(e@),
        },
{
    let mut out: Vec<ParameterAnnotation> = Vec::new();
    let mut q = p;
    let mut i: u8 = 0;
    let ghost whole = parameters_at(d@, p as int, n as nat);
    proof {
        lemma_start(whole);
        assert(parameters_model(out@) =~= seq![]);
    }
    while i < n
        invariant
            i <= n,
            whole == parameters_at(d@, p as int, n as nat),
            whole == prepend(parameters_model(out@), parameters_at(d@, q as int, (n - i) as nat)),
        decreases n - i,
    {
        let (k, r) = read_u16(d, q)?;
        let (annotations, next) = read_annotations(d, r, k)?;
        let x = ParameterAnnotation { annotations };
        proof {
            lemma_cons_step(
                parameters_model(out@),
                annotations_model(x.annotations@),
                parameters_at(d@, next as int, (n - i - 1) as nat),
            );
            assert(parameters_model(out@.push(x)) =~= parameters_model(out@).push(
                annotations_model(x.annotations@),
            ));
        }
        out.push(x);
        q = next;
        i = i + 1;
    }
    proof {
        lemma_done(parameters_model(out@), q as int);
    }
    Ok((out, q))
}

} // verus!
