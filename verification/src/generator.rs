//! From schema to source text: one enumeration per multi-alternative
//! field (deduplicated by derived name), one record per entity and per
//! operation, and a constructor, setters and getters for every record,
//! all rendered deterministically.

use crate::casing::to_upper_camel;
use crate::casing::upper_camel;
use crate::parser::spec_enum_name;
use crate::parser::spec_parsed_type;
use crate::parser::ApiStructure;
use crate::parser::ApiStructureView;
use crate::parser::EntityView;
use crate::parser::FunctionView;
use crate::parser::Param;
use crate::parser::ParamView;
use crate::parser::RustType;
use crate::parser::RustTypeView;
use crate::strutil::string_eq_str;
use vstd::prelude::*;
use vstd::string::StringExecFns;

verus! {

/// Generation failed: two distinct declarations derived the same name.
#[derive(Debug, PartialEq, Eq, Structural, Clone, Copy)]
pub enum GenerateError {
    /// Two fields derived the same enum or record name with differing
    /// content, which would silently drop one of them.
    AmbiguousName,
}

/// One variant of an emitted enumeration: its name, and the type it
/// wraps.
#[derive(Debug, PartialEq)]
pub struct EnumVariant {
    pub name: String,
    pub wrapped: String,
}

/// The mathematical value of an `EnumVariant`.
pub struct EnumVariantView {
    pub name: Seq<char>,
    pub wrapped: Seq<char>,
}

impl DeepView for EnumVariant {
    type V = EnumVariantView;

    open spec fn deep_view(&self) -> EnumVariantView {
        self.view()
    }
}

impl View for EnumVariant {
    type V = EnumVariantView;

    open spec fn view(&self) -> EnumVariantView {
        EnumVariantView { name: self.name@, wrapped: self.wrapped@ }
    }
}

/// One emitted enumeration: its derived name and its variants in order.
#[derive(Debug, PartialEq)]
pub struct GeneratedEnum {
    pub name: String,
    pub variants: Vec<EnumVariant>,
}

/// The mathematical value of a `GeneratedEnum`.
pub struct GeneratedEnumView {
    pub name: Seq<char>,
    pub variants: Seq<EnumVariantView>,
}

impl DeepView for GeneratedEnum {
    type V = GeneratedEnumView;

    open spec fn deep_view(&self) -> GeneratedEnumView {
        self.view()
    }
}

impl View for GeneratedEnum {
    type V = GeneratedEnumView;

    open spec fn view(&self) -> GeneratedEnumView {
        GeneratedEnumView { name: self.name@, variants: self.variants.deep_view() }
    }
}

/// One field of an emitted record: its name, its resolved type before
/// any optional wrapper, and whether it is required.
#[derive(Debug, PartialEq)]
pub struct FieldDecl {
    pub name: String,
    pub field_type: String,
    pub required: bool,
}

/// The mathematical value of a `FieldDecl`.
pub struct FieldDeclView {
    pub name: Seq<char>,
    pub field_type: Seq<char>,
    pub required: bool,
}

impl DeepView for FieldDecl {
    type V = FieldDeclView;

    open spec fn deep_view(&self) -> FieldDeclView {
        self.view()
    }
}

impl View for FieldDecl {
    type V = FieldDeclView;

    open spec fn view(&self) -> FieldDeclView {
        FieldDeclView {
            name: self.name@,
            field_type: self.field_type@,
            required: self.required,
        }
    }
}

/// One emitted record: its name and its fields in document order.
#[derive(Debug, PartialEq)]
pub struct GeneratedRecord {
    pub name: String,
    pub fields: Vec<FieldDecl>,
}

/// The mathematical value of a `GeneratedRecord`.
pub struct GeneratedRecordView {
    pub name: Seq<char>,
    pub fields: Seq<FieldDeclView>,
}

impl DeepView for GeneratedRecord {
    type V = GeneratedRecordView;

    open spec fn deep_view(&self) -> GeneratedRecordView {
        self.view()
    }
}

impl View for GeneratedRecord {
    type V = GeneratedRecordView;

    open spec fn view(&self) -> GeneratedRecordView {
        GeneratedRecordView { name: self.name@, fields: self.fields.deep_view() }
    }
}

/// The target-type name a scalar token maps to: the boolean literals map
/// to bool, the integer type to isize, and any other token names itself.
pub open spec fn spec_token_mapped(t: Seq<char>) -> Seq<char> {
    if t == "Boolean"@ || t == "True"@ || t == "False"@ {
        "bool"@
    } else if t == "Integer"@ {
        "isize"@
    } else {
        t
    }
}

/// The variant one alternative token gives rise to: a primitive token
/// gets a fixed scheme, the mapped type name in UpperCamelCase with
/// "Variant" appended; a structural token names its own type.  Either
/// way the variant wraps the mapped type.
pub open spec fn spec_variant_of(t: Seq<char>) -> EnumVariantView {
    let m = spec_token_mapped(t);
    if m == "bool"@ || m == "isize"@ || m == "String"@ {
        EnumVariantView { name: upper_camel(m) + "Variant"@, wrapped: m }
    } else {
        EnumVariantView { name: m, wrapped: m }
    }
}

/// The already-emitted enumeration of the given name, if any.
pub open spec fn spec_enum_lookup(es: Seq<GeneratedEnumView>, name: Seq<char>) -> Option<
    GeneratedEnumView,
>
    decreases es.len(),
{
    if es.len() == 0 {
        None
    } else if es.last().name == name {
        Some(es.last())
    } else {
        spec_enum_lookup(es.drop_last(), name)
    }
}

/// The already-emitted record of the given name, if any.
pub open spec fn spec_record_lookup(rs: Seq<GeneratedRecordView>, name: Seq<char>) -> Option<
    GeneratedRecordView,
>
    decreases rs.len(),
{
    if rs.len() == 0 {
        None
    } else if rs.last().name == name {
        Some(rs.last())
    } else {
        spec_record_lookup(rs.drop_last(), name)
    }
}

/// What one field contributes to the emitted enumerations: nothing for a
/// scalar field; for a multi-alternative field, its enumeration, unless
/// one of identical content was already emitted (then nothing), or one
/// of the same name but different content exists (then the run fails).
pub open spec fn spec_enum_step(
    es: Seq<GeneratedEnumView>,
    rs: Seq<GeneratedRecordView>,
    p: ParamView,
) -> Result<Seq<GeneratedEnumView>, GenerateError> {
    match spec_parsed_type(p).rust_type {
        RustTypeView::Simple(_) => Ok(es),
        RustTypeView::Enum(toks) => {
            let e = GeneratedEnumView {
                name: spec_enum_name(p.name),
                variants: toks.map_values(|t: Seq<char>| spec_variant_of(t)),
            };
            match spec_enum_lookup(es, e.name) {
                Some(prev) => if prev.variants == e.variants {
                    Ok(es)
                } else {
                    Err(GenerateError::AmbiguousName)
                },
                None => if spec_record_lookup(rs, e.name) is Some {
                    Err(GenerateError::AmbiguousName)
                } else {
                    Ok(es.push(e))
                },
            }
        },
    }
}

/// The enumerations after walking one parameter list, in first-seen
/// order.
pub open spec fn spec_enums_of_params(
    es: Seq<GeneratedEnumView>,
    rs: Seq<GeneratedRecordView>,
    ps: Seq<ParamView>,
) -> Result<Seq<GeneratedEnumView>, GenerateError>
    decreases ps.len(),
{
    if ps.len() == 0 {
        Ok(es)
    } else {
        match spec_enum_step(es, rs, ps[0]) {
            Err(e) => Err(e),
            Ok(es2) => spec_enums_of_params(es2, rs, ps.drop_first()),
        }
    }
}

/// The enumerations after walking every entity's fields, in schema
/// order.
pub open spec fn spec_enums_of_entities(
    es: Seq<GeneratedEnumView>,
    rs: Seq<GeneratedRecordView>,
    ents: Seq<EntityView>,
) -> Result<Seq<GeneratedEnumView>, GenerateError>
    decreases ents.len(),
{
    if ents.len() == 0 {
        Ok(es)
    } else {
        match spec_enums_of_params(es, rs, ents[0].fields) {
            Err(e) => Err(e),
            Ok(es2) => spec_enums_of_entities(es2, rs, ents.drop_first()),
        }
    }
}

/// The enumerations after walking every operation's parameters, in
/// schema order.
pub open spec fn spec_enums_of_functions(
    es: Seq<GeneratedEnumView>,
    rs: Seq<GeneratedRecordView>,
    fns: Seq<FunctionView>,
) -> Result<Seq<GeneratedEnumView>, GenerateError>
    decreases fns.len(),
{
    if fns.len() == 0 {
        Ok(es)
    } else {
        match spec_enums_of_params(es, rs, fns[0].params) {
            Err(e) => Err(e),
            Ok(es2) => spec_enums_of_functions(es2, rs, fns.drop_first()),
        }
    }
}

/// The base type name a field resolves to: the scalar name from type
/// inference, or the derived enum name for a multi-alternative field.
pub open spec fn spec_base_type(p: ParamView) -> Seq<char> {
    match spec_parsed_type(p).rust_type {
        RustTypeView::Simple(n) => n,
        RustTypeView::Enum(_) => spec_enum_name(p.name),
    }
}

/// The resolved type of one entity field, before any optional wrapper: a
/// field typed as the entity itself is boxed to break the structural
/// self-reference, and an array field is wrapped in a vector, in that
/// order.
pub open spec fn spec_entity_field_type(owner: Seq<char>, p: ParamView) -> Seq<char> {
    let base = spec_base_type(p);
    let boxed = if base == owner {
        "Box<"@ + base + ">"@
    } else {
        base
    };
    if spec_parsed_type(p).array {
        "Vec<"@ + boxed + ">"@
    } else {
        boxed
    }
}

/// The resolved type of one operation parameter, before any optional
/// wrapper; operations are not self-referential, so nothing is boxed.
pub open spec fn spec_function_field_type(p: ParamView) -> Seq<char> {
    let base = spec_base_type(p);
    if spec_parsed_type(p).array {
        "Vec<"@ + base + ">"@
    } else {
        base
    }
}

/// The record one entity yields: named after the entity, one field per
/// table row, in order.
pub open spec fn spec_entity_record(e: EntityView) -> GeneratedRecordView {
    GeneratedRecordView {
        name: e.name,
        fields: e.fields.map_values(
            |p: ParamView|
                FieldDeclView {
                    name: p.name,
                    field_type: spec_entity_field_type(e.name, p),
                    required: p.required,
                },
        ),
    }
}

/// The parameter record one operation yields, named after the operation
/// in UpperCamelCase with "Params" appended.
pub open spec fn spec_function_record(f: FunctionView) -> GeneratedRecordView {
    GeneratedRecordView {
        name: upper_camel(f.name) + "Params"@,
        fields: f.params.map_values(
            |p: ParamView|
                FieldDeclView {
                    name: p.name,
                    field_type: spec_function_field_type(p),
                    required: p.required,
                },
        ),
    }
}

/// What one record contributes: itself, unless an identical one was
/// already emitted (then nothing), or a declaration of the same name but
/// different content exists (then the run fails).
pub open spec fn spec_record_step(
    es: Seq<GeneratedEnumView>,
    rs: Seq<GeneratedRecordView>,
    r: GeneratedRecordView,
) -> Result<Seq<GeneratedRecordView>, GenerateError> {
    match spec_record_lookup(rs, r.name) {
        Some(prev) => if prev == r {
            Ok(rs)
        } else {
            Err(GenerateError::AmbiguousName)
        },
        None => if spec_enum_lookup(es, r.name) is Some {
            Err(GenerateError::AmbiguousName)
        } else {
            Ok(rs.push(r))
        },
    }
}

/// The records after walking every entity, in schema order.
pub open spec fn spec_records_of_entities(
    es: Seq<GeneratedEnumView>,
    rs: Seq<GeneratedRecordView>,
    ents: Seq<EntityView>,
) -> Result<Seq<GeneratedRecordView>, GenerateError>
    decreases ents.len(),
{
    if ents.len() == 0 {
        Ok(rs)
    } else {
        match spec_record_step(es, rs, spec_entity_record(ents[0])) {
            Err(e) => Err(e),
            Ok(rs2) => spec_records_of_entities(es, rs2, ents.drop_first()),
        }
    }
}

/// The records after walking every operation, in schema order.
pub open spec fn spec_records_of_functions(
    es: Seq<GeneratedEnumView>,
    rs: Seq<GeneratedRecordView>,
    fns: Seq<FunctionView>,
) -> Result<Seq<GeneratedRecordView>, GenerateError>
    decreases fns.len(),
{
    if fns.len() == 0 {
        Ok(rs)
    } else {
        match spec_record_step(es, rs, spec_function_record(fns[0])) {
            Err(e) => Err(e),
            Ok(rs2) => spec_records_of_functions(es, rs2, fns.drop_first()),
        }
    }
}

/// Builds the variant one alternative token gives rise to.
fn variant_of_token(tok: &String) -> (v: EnumVariant)
    ensures
        v@ == spec_variant_of(tok@),
{
    let mapped: String = if string_eq_str(tok, "Boolean") || string_eq_str(tok, "True")
        || string_eq_str(tok, "False") {
        String::from_str("bool")
    } else if string_eq_str(tok, "Integer") {
        String::from_str("isize")
    } else {
        tok.clone()
    };
    if string_eq_str(&mapped, "bool") || string_eq_str(&mapped, "isize") || string_eq_str(
        &mapped,
        "String",
    ) {
        let name = to_upper_camel(mapped.as_str()).concat("Variant");
        EnumVariant { name, wrapped: mapped }
    } else {
        EnumVariant { name: mapped.clone(), wrapped: mapped }
    }
}

/// Builds the variants of every token of an alternative, in order.
#[verifier::loop_isolation(false)]
fn variants_of_tokens(toks: &Vec<String>) -> (vs: Vec<EnumVariant>)
    ensures
        vs.deep_view() == toks.deep_view().map_values(|t: Seq<char>| spec_variant_of(t)),
{
    let n = toks.len();
    let mut vs: Vec<EnumVariant> = Vec::new();
    for k in 0..n
        invariant
            vs.deep_view() == toks.deep_view().take(k as int).map_values(
                |t: Seq<char>| spec_variant_of(t),
            ),
        decreases n - k,
    {
        let v = variant_of_token(&toks[k]);
        let ghost before = vs.deep_view();
        let ghost vv = v@;
        vs.push(v);
        proof {
            assert(toks.deep_view()[k as int] == toks@[k as int]@);
            assert(vs.deep_view() =~= before.push(vv));
            assert(toks.deep_view().take(k + 1 as int).map_values(
                |t: Seq<char>| spec_variant_of(t),
            ) =~= before.push(vv));
        }
    }
    proof {
        assert(toks.deep_view().take(n as int) =~= toks.deep_view());
    }
    vs
}

/// Whether two variant lists hold the same variants in the same order.
#[verifier::loop_isolation(false)]
fn variants_eq(a: &Vec<EnumVariant>, b: &Vec<EnumVariant>) -> (r: bool)
    ensures
        r == (a.deep_view() == b.deep_view()),
{
    if a.len() != b.len() {
        proof {
            assert(a.deep_view().len() != b.deep_view().len());
        }
        return false;
    }
    let n = a.len();
    for k in 0..n
        invariant
            forall|j: int| 0 <= j < k ==> a.deep_view()[j] == b.deep_view()[j],
        decreases n - k,
    {
        let x = &a[k];
        let y = &b[k];
        if !(x.name == y.name) || !(x.wrapped == y.wrapped) {
            proof {
                assert(a.deep_view()[k as int] == a@[k as int]@);
                assert(b.deep_view()[k as int] == b@[k as int]@);
            }
            return false;
        }
        proof {
            assert(a.deep_view()[k as int] == a@[k as int]@);
            assert(b.deep_view()[k as int] == b@[k as int]@);
        }
    }
    proof {
        assert(a.deep_view() =~= b.deep_view());
    }
    true
}

/// Whether two field lists hold the same fields in the same order.
#[verifier::loop_isolation(false)]
fn fields_eq(a: &Vec<FieldDecl>, b: &Vec<FieldDecl>) -> (r: bool)
    ensures
        r == (a.deep_view() == b.deep_view()),
{
    if a.len() != b.len() {
        proof {
            assert(a.deep_view().len() != b.deep_view().len());
        }
        return false;
    }
    let n = a.len();
    for k in 0..n
        invariant
            forall|j: int| 0 <= j < k ==> a.deep_view()[j] == b.deep_view()[j],
        decreases n - k,
    {
        let x = &a[k];
        let y = &b[k];
        if !(x.name == y.name) || !(x.field_type == y.field_type) || x.required != y.required {
            proof {
                assert(a.deep_view()[k as int] == a@[k as int]@);
                assert(b.deep_view()[k as int] == b@[k as int]@);
            }
            return false;
        }
        proof {
            assert(a.deep_view()[k as int] == a@[k as int]@);
            assert(b.deep_view()[k as int] == b@[k as int]@);
        }
    }
    proof {
        assert(a.deep_view() =~= b.deep_view());
    }
    true
}

/// Finds the already-created enumeration of the given name, if any.
#[verifier::loop_isolation(false)]
fn find_enum(es: &Vec<GeneratedEnum>, name: &String) -> (r: Option<usize>)
    ensures
        match r {
            Some(i) => i < es@.len() && spec_enum_lookup(es.deep_view(), name@) == Some(
                es.deep_view()[i as int],
            ),
            None => spec_enum_lookup(es.deep_view(), name@) is None,
        },
{
    let mut k = es.len();
    proof {
        assert(es.deep_view().take(k as int) =~= es.deep_view());
    }
    while k > 0
        invariant
            k <= es@.len(),
            spec_enum_lookup(es.deep_view(), name@) == spec_enum_lookup(
                es.deep_view().take(k as int),
                name@,
            ),
        decreases k,
    {
        proof {
            assert(es.deep_view().take(k as int).drop_last() =~= es.deep_view().take(k - 1));
            assert(es.deep_view().take(k as int).last() == es.deep_view()[k - 1]);
            assert(es.deep_view()[k - 1] == es@[k - 1]@);
        }
        if es[k - 1].name == *name {
            return Some(k - 1);
        }
        k = k - 1;
    }
    None
}

/// Finds the already-created record of the given name, if any.
#[verifier::loop_isolation(false)]
fn find_record(rs: &Vec<GeneratedRecord>, name: &String) -> (r: Option<usize>)
    ensures
        match r {
            Some(i) => i < rs@.len() && spec_record_lookup(rs.deep_view(), name@) == Some(
                rs.deep_view()[i as int],
            ),
            None => spec_record_lookup(rs.deep_view(), name@) is None,
        },
{
    let mut k = rs.len();
    proof {
        assert(rs.deep_view().take(k as int) =~= rs.deep_view());
    }
    while k > 0
        invariant
            k <= rs@.len(),
            spec_record_lookup(rs.deep_view(), name@) == spec_record_lookup(
                rs.deep_view().take(k as int),
                name@,
            ),
        decreases k,
    {
        proof {
            assert(rs.deep_view().take(k as int).drop_last() =~= rs.deep_view().take(k - 1));
            assert(rs.deep_view().take(k as int).last() == rs.deep_view()[k - 1]);
            assert(rs.deep_view()[k - 1] == rs@[k - 1]@);
        }
        if rs[k - 1].name == *name {
            return Some(k - 1);
        }
        k = k - 1;
    }
    None
}

/// Walks one field for the enum pass, extending `es` as
/// `spec_enum_step` says.
fn enum_step(es: &mut Vec<GeneratedEnum>, rs: &Vec<GeneratedRecord>, p: &Param) -> (r: Result<
    (),
    GenerateError,
>)
    ensures
        r matches Ok(_) ==> spec_enum_step(old(es).deep_view(), rs.deep_view(), p@) == Result::<
            Seq<GeneratedEnumView>,
            GenerateError,
        >::Ok(final (es).deep_view()),
        r matches Err(e) ==> spec_enum_step(old(es).deep_view(), rs.deep_view(), p@) == Result::<
            Seq<GeneratedEnumView>,
            GenerateError,
        >::Err(e) && *final (es) == *old(es),
{
    let pt = p.as_rust_type();
    match pt.rust_type {
        RustType::Simple(_) => Ok(()),
        RustType::Enum(toks) => {
            let name = p.enum_name();
            let variants = variants_of_tokens(&toks);
            match find_enum(es, &name) {
                Some(i) => {
                    if variants_eq(&es[i].variants, &variants) {
                        proof {
                            assert(es.deep_view()[i as int].variants == es@[i as int]@.variants);
                        }
                        Ok(())
                    } else {
                        proof {
                            assert(es.deep_view()[i as int].variants == es@[i as int]@.variants);
                        }
                        Err(GenerateError::AmbiguousName)
                    }
                },
                None => {
                    match find_record(rs, &name) {
                        Some(_) => Err(GenerateError::AmbiguousName),
                        None => {
                            let ghost before = es.deep_view();
                            let ghost nv = name@;
                            let ghost vv = variants.deep_view();
                            es.push(GeneratedEnum { name, variants });
                            proof {
                                assert(es.deep_view() =~= before.push(
                                    GeneratedEnumView { name: nv, variants: vv },
                                ));
                            }
                            Ok(())
                        },
                    }
                },
            }
        },
    }
}

/// Walks one parameter list for the enum pass.
#[verifier::loop_isolation(false)]
fn enums_of_params(es: &mut Vec<GeneratedEnum>, rs: &Vec<GeneratedRecord>, ps: &Vec<Param>) -> (r:
    Result<(), GenerateError>)
    ensures
        r matches Ok(_) ==> spec_enums_of_params(old(es).deep_view(), rs.deep_view(), ps.deep_view())
            == Result::<Seq<GeneratedEnumView>, GenerateError>::Ok(final (es).deep_view()),
        r matches Err(e) ==> spec_enums_of_params(
            old(es).deep_view(),
            rs.deep_view(),
            ps.deep_view(),
        ) == Result::<Seq<GeneratedEnumView>, GenerateError>::Err(e),
{
    let ghost orig = es.deep_view();
    let n = ps.len();
    proof {
        assert(ps.deep_view().skip(0) =~= ps.deep_view());
    }
    for k in 0..n
        invariant
            spec_enums_of_params(orig, rs.deep_view(), ps.deep_view()) == spec_enums_of_params(
                es.deep_view(),
                rs.deep_view(),
                ps.deep_view().skip(k as int),
            ),
        decreases n - k,
    {
        proof {
            assert(ps.deep_view().skip(k as int)[0] == ps.deep_view()[k as int]);
            assert(ps.deep_view()[k as int] == ps@[k as int]@);
            assert(ps.deep_view().skip(k as int).drop_first() =~= ps.deep_view().skip(k + 1));
        }
        let step = enum_step(es, rs, &ps[k]);
        if let Err(e) = step {
            return Err(e);
        }
    }
    proof {
        assert(ps.deep_view().skip(n as int) =~= Seq::<ParamView>::empty());
    }
    Ok(())
}

/// Walks every entity's fields for the enum pass, in schema order.
#[verifier::loop_isolation(false)]
fn enums_of_entities(
    es: &mut Vec<GeneratedEnum>,
    rs: &Vec<GeneratedRecord>,
    ents: &Vec<crate::parser::Entity>,
) -> (r: Result<(), GenerateError>)
    ensures
        r matches Ok(_) ==> spec_enums_of_entities(
            old(es).deep_view(),
            rs.deep_view(),
            ents.deep_view(),
        ) == Result::<Seq<GeneratedEnumView>, GenerateError>::Ok(final (es).deep_view()),
        r matches Err(e) ==> spec_enums_of_entities(
            old(es).deep_view(),
            rs.deep_view(),
            ents.deep_view(),
        ) == Result::<Seq<GeneratedEnumView>, GenerateError>::Err(e),
{
    let ghost orig = es.deep_view();
    let n = ents.len();
    proof {
        assert(ents.deep_view().skip(0) =~= ents.deep_view());
    }
    for k in 0..n
        invariant
            spec_enums_of_entities(orig, rs.deep_view(), ents.deep_view())
                == spec_enums_of_entities(
                es.deep_view(),
                rs.deep_view(),
                ents.deep_view().skip(k as int),
            ),
        decreases n - k,
    {
        proof {
            assert(ents.deep_view().skip(k as int)[0] == ents.deep_view()[k as int]);
            assert(ents.deep_view()[k as int] == ents@[k as int]@);
            assert(ents.deep_view().skip(k as int).drop_first() =~= ents.deep_view().skip(k + 1));
        }
        let step = enums_of_params(es, rs, &ents[k].fields);
        if let Err(e) = step {
            return Err(e);
        }
    }
    proof {
        assert(ents.deep_view().skip(n as int) =~= Seq::<EntityView>::empty());
    }
    Ok(())
}

/// Walks every operation's parameters for the enum pass, in schema
/// order.
#[verifier::loop_isolation(false)]
fn enums_of_functions(
    es: &mut Vec<GeneratedEnum>,
    rs: &Vec<GeneratedRecord>,
    fns: &Vec<crate::parser::Function>,
) -> (r: Result<(), GenerateError>)
    ensures
        r matches Ok(_) ==> spec_enums_of_functions(
            old(es).deep_view(),
            rs.deep_view(),
            fns.deep_view(),
        ) == Result::<Seq<GeneratedEnumView>, GenerateError>::Ok(final (es).deep_view()),
        r matches Err(e) ==> spec_enums_of_functions(
            old(es).deep_view(),
            rs.deep_view(),
            fns.deep_view(),
        ) == Result::<Seq<GeneratedEnumView>, GenerateError>::Err(e),
{
    let ghost orig = es.deep_view();
    let n = fns.len();
    proof {
        assert(fns.deep_view().skip(0) =~= fns.deep_view());
    }
    for k in 0..n
        invariant
            spec_enums_of_functions(orig, rs.deep_view(), fns.deep_view())
                == spec_enums_of_functions(
                es.deep_view(),
                rs.deep_view(),
                fns.deep_view().skip(k as int),
            ),
        decreases n - k,
    {
        proof {
            assert(fns.deep_view().skip(k as int)[0] == fns.deep_view()[k as int]);
            assert(fns.deep_view()[k as int] == fns@[k as int]@);
            assert(fns.deep_view().skip(k as int).drop_first() =~= fns.deep_view().skip(k + 1));
        }
        let step = enums_of_params(es, rs, &fns[k].params);
        if let Err(e) = step {
            return Err(e);
        }
    }
    proof {
        assert(fns.deep_view().skip(n as int) =~= Seq::<FunctionView>::empty());
    }
    Ok(())
}

/// Resolves the type of one entity field, boxing a self-reference and
/// wrapping an array in a vector.
fn entity_field_type(owner: &String, p: &Param) -> (r: String)
    ensures
        r@ == spec_entity_field_type(owner@, p@),
{
    let pt = p.as_rust_type();
    let base: String = match pt.rust_type {
        RustType::Simple(n) => n,
        RustType::Enum(_) => p.enum_name(),
    };
    let boxed: String = if base == *owner {
        String::from_str("Box<").concat(base.as_str()).concat(">")
    } else {
        base
    };
    if pt.array {
        String::from_str("Vec<").concat(boxed.as_str()).concat(">")
    } else {
        boxed
    }
}

/// Resolves the type of one operation parameter, wrapping an array in a
/// vector.
fn function_field_type(p: &Param) -> (r: String)
    ensures
        r@ == spec_function_field_type(p@),
{
    let pt = p.as_rust_type();
    let base: String = match pt.rust_type {
        RustType::Simple(n) => n,
        RustType::Enum(_) => p.enum_name(),
    };
    if pt.array {
        String::from_str("Vec<").concat(base.as_str()).concat(">")
    } else {
        base
    }
}

/// Builds the record one entity yields.
#[verifier::loop_isolation(false)]
fn entity_record(e: &crate::parser::Entity) -> (r: GeneratedRecord)
    ensures
        r@ == spec_entity_record(e@),
{
    let n = e.fields.len();
    let mut fields: Vec<FieldDecl> = Vec::new();
    for k in 0..n
        invariant
            fields.deep_view() == e@.fields.take(k as int).map_values(
                |p: ParamView|
                    FieldDeclView {
                        name: p.name,
                        field_type: spec_entity_field_type(e@.name, p),
                        required: p.required,
                    },
            ),
        decreases n - k,
    {
        let p = &e.fields[k];
        let ft = entity_field_type(&e.name, p);
        let ghost before = fields.deep_view();
        let f = FieldDecl { name: p.name.clone(), field_type: ft, required: p.required };
        let ghost fv = f@;
        fields.push(f);
        proof {
            assert(e@.fields[k as int] == e.fields@[k as int]@);
            assert(fields.deep_view() =~= before.push(fv));
            assert(e@.fields.take(k + 1 as int).map_values(
                |p: ParamView|
                    FieldDeclView {
                        name: p.name,
                        field_type: spec_entity_field_type(e@.name, p),
                        required: p.required,
                    },
            ) =~= before.push(fv));
        }
    }
    proof {
        assert(e@.fields.take(n as int) =~= e@.fields);
    }
    GeneratedRecord { name: e.name.clone(), fields }
}

/// Builds the parameter record one operation yields.
#[verifier::loop_isolation(false)]
fn function_record(f: &crate::parser::Function) -> (r: GeneratedRecord)
    ensures
        r@ == spec_function_record(f@),
{
    let n = f.params.len();
    let mut fields: Vec<FieldDecl> = Vec::new();
    for k in 0..n
        invariant
            fields.deep_view() == f@.params.take(k as int).map_values(
                |p: ParamView|
                    FieldDeclView {
                        name: p.name,
                        field_type: spec_function_field_type(p),
                        required: p.required,
                    },
            ),
        decreases n - k,
    {
        let p = &f.params[k];
        let ft = function_field_type(p);
        let ghost before = fields.deep_view();
        let fd = FieldDecl { name: p.name.clone(), field_type: ft, required: p.required };
        let ghost fv = fd@;
        fields.push(fd);
        proof {
            assert(f@.params[k as int] == f.params@[k as int]@);
            assert(fields.deep_view() =~= before.push(fv));
            assert(f@.params.take(k + 1 as int).map_values(
                |p: ParamView|
                    FieldDeclView {
                        name: p.name,
                        field_type: spec_function_field_type(p),
                        required: p.required,
                    },
            ) =~= before.push(fv));
        }
    }
    proof {
        assert(f@.params.take(n as int) =~= f@.params);
    }
    let name = to_upper_camel(f.name.as_str()).concat("Params");
    GeneratedRecord { name, fields }
}

/// Walks one record for the record pass, extending `rs` as
/// `spec_record_step` says.
fn record_step(es: &Vec<GeneratedEnum>, rs: &mut Vec<GeneratedRecord>, rec: GeneratedRecord) -> (r:
    Result<(), GenerateError>)
    ensures
        r matches Ok(_) ==> spec_record_step(es.deep_view(), old(rs).deep_view(), rec@) == Result::<
            Seq<GeneratedRecordView>,
            GenerateError,
        >::Ok(final (rs).deep_view()),
        r matches Err(e) ==> spec_record_step(es.deep_view(), old(rs).deep_view(), rec@)
            == Result::<Seq<GeneratedRecordView>, GenerateError>::Err(e),
{
    match find_record(rs, &rec.name) {
        Some(i) => {
            let same = if rs[i].name == rec.name {
                fields_eq(&rs[i].fields, &rec.fields)
            } else {
                false
            };
            proof {
                assert(rs.deep_view()[i as int] == rs@[i as int]@);
            }
            if same {
                Ok(())
            } else {
                Err(GenerateError::AmbiguousName)
            }
        },
        None => {
            match find_enum(es, &rec.name) {
                Some(_) => Err(GenerateError::AmbiguousName),
                None => {
                    let ghost before = rs.deep_view();
                    let ghost rv = rec@;
                    rs.push(rec);
                    proof {
                        assert(rs.deep_view() =~= before.push(rv));
                    }
                    Ok(())
                },
            }
        },
    }
}

/// Walks every entity for the record pass, in schema order.
#[verifier::loop_isolation(false)]
fn records_of_entities(
    es: &Vec<GeneratedEnum>,
    rs: &mut Vec<GeneratedRecord>,
    ents: &Vec<crate::parser::Entity>,
) -> (r: Result<(), GenerateError>)
    ensures
        r matches Ok(_) ==> spec_records_of_entities(
            es.deep_view(),
            old(rs).deep_view(),
            ents.deep_view(),
        ) == Result::<Seq<GeneratedRecordView>, GenerateError>::Ok(final (rs).deep_view()),
        r matches Err(e) ==> spec_records_of_entities(
            es.deep_view(),
            old(rs).deep_view(),
            ents.deep_view(),
        ) == Result::<Seq<GeneratedRecordView>, GenerateError>::Err(e),
{
    let ghost orig = rs.deep_view();
    let n = ents.len();
    proof {
        assert(ents.deep_view().skip(0) =~= ents.deep_view());
    }
    for k in 0..n
        invariant
            spec_records_of_entities(es.deep_view(), orig, ents.deep_view())
                == spec_records_of_entities(
                es.deep_view(),
                rs.deep_view(),
                ents.deep_view().skip(k as int),
            ),
        decreases n - k,
    {
        proof {
            assert(ents.deep_view().skip(k as int)[0] == ents.deep_view()[k as int]);
            assert(ents.deep_view()[k as int] == ents@[k as int]@);
            assert(ents.deep_view().skip(k as int).drop_first() =~= ents.deep_view().skip(k + 1));
        }
        let rec = entity_record(&ents[k]);
        let step = record_step(es, rs, rec);
        if let Err(e) = step {
            return Err(e);
        }
    }
    proof {
        assert(ents.deep_view().skip(n as int) =~= Seq::<EntityView>::empty());
    }
    Ok(())
}

/// Walks every operation for the record pass, in schema order.
#[verifier::loop_isolation(false)]
fn records_of_functions(
    es: &Vec<GeneratedEnum>,
    rs: &mut Vec<GeneratedRecord>,
    fns: &Vec<crate::parser::Function>,
) -> (r: Result<(), GenerateError>)
    ensures
        r matches Ok(_) ==> spec_records_of_functions(
            es.deep_view(),
            old(rs).deep_view(),
            fns.deep_view(),
        ) == Result::<Seq<GeneratedRecordView>, GenerateError>::Ok(final (rs).deep_view()),
        r matches Err(e) ==> spec_records_of_functions(
            es.deep_view(),
            old(rs).deep_view(),
            fns.deep_view(),
        ) == Result::<Seq<GeneratedRecordView>, GenerateError>::Err(e),
{
    let ghost orig = rs.deep_view();
    let n = fns.len();
    proof {
        assert(fns.deep_view().skip(0) =~= fns.deep_view());
    }
    for k in 0..n
        invariant
            spec_records_of_functions(es.deep_view(), orig, fns.deep_view())
                == spec_records_of_functions(
                es.deep_view(),
                rs.deep_view(),
                fns.deep_view().skip(k as int),
            ),
        decreases n - k,
    {
        proof {
            assert(fns.deep_view().skip(k as int)[0] == fns.deep_view()[k as int]);
            assert(fns.deep_view()[k as int] == fns@[k as int]@);
            assert(fns.deep_view().skip(k as int).drop_first() =~= fns.deep_view().skip(k + 1));
        }
        let rec = function_record(&fns[k]);
        let step = record_step(es, rs, rec);
        if let Err(e) = step {
            return Err(e);
        }
    }
    proof {
        assert(fns.deep_view().skip(n as int) =~= Seq::<FunctionView>::empty());
    }
    Ok(())
}

/// The enum pass only appends: walking a parameter list never shortens
/// the emitted list.
proof fn lemma_enums_of_params_extends(
    es: Seq<GeneratedEnumView>,
    rs: Seq<GeneratedRecordView>,
    ps: Seq<ParamView>,
)
    ensures
        spec_enums_of_params(es, rs, ps) matches Ok(es2) ==> es.len() <= es2.len(),
    decreases ps.len(),
{
    if ps.len() > 0 {
        match spec_enum_step(es, rs, ps[0]) {
            Err(_) => {},
            Ok(es2) => {
                lemma_enums_of_params_extends(es2, rs, ps.drop_first());
            },
        }
    }
}

/// The enum pass over the entities only appends.
proof fn lemma_enums_of_entities_extends(
    es: Seq<GeneratedEnumView>,
    rs: Seq<GeneratedRecordView>,
    ents: Seq<EntityView>,
)
    ensures
        spec_enums_of_entities(es, rs, ents) matches Ok(es2) ==> es.len() <= es2.len(),
    decreases ents.len(),
{
    if ents.len() > 0 {
        lemma_enums_of_params_extends(es, rs, ents[0].fields);
        match spec_enums_of_params(es, rs, ents[0].fields) {
            Err(_) => {},
            Ok(es2) => {
                lemma_enums_of_entities_extends(es2, rs, ents.drop_first());
            },
        }
    }
}

/// The enum pass over the operations only appends.
proof fn lemma_enums_of_functions_extends(
    es: Seq<GeneratedEnumView>,
    rs: Seq<GeneratedRecordView>,
    fns: Seq<FunctionView>,
)
    ensures
        spec_enums_of_functions(es, rs, fns) matches Ok(es2) ==> es.len() <= es2.len(),
    decreases fns.len(),
{
    if fns.len() > 0 {
        lemma_enums_of_params_extends(es, rs, fns[0].params);
        match spec_enums_of_params(es, rs, fns[0].params) {
            Err(_) => {},
            Ok(es2) => {
                lemma_enums_of_functions_extends(es2, rs, fns.drop_first());
            },
        }
    }
}

/// The record pass over the entities only appends.
proof fn lemma_records_of_entities_extends(
    es: Seq<GeneratedEnumView>,
    rs: Seq<GeneratedRecordView>,
    ents: Seq<EntityView>,
)
    ensures
        spec_records_of_entities(es, rs, ents) matches Ok(rs2) ==> rs.len() <= rs2.len(),
    decreases ents.len(),
{
    if ents.len() > 0 {
        match spec_record_step(es, rs, spec_entity_record(ents[0])) {
            Err(_) => {},
            Ok(rs2) => {
                lemma_records_of_entities_extends(es, rs2, ents.drop_first());
            },
        }
    }
}

/// The record pass over the operations only appends.
proof fn lemma_records_of_functions_extends(
    es: Seq<GeneratedEnumView>,
    rs: Seq<GeneratedRecordView>,
    fns: Seq<FunctionView>,
)
    ensures
        spec_records_of_functions(es, rs, fns) matches Ok(rs2) ==> rs.len() <= rs2.len(),
    decreases fns.len(),
{
    if fns.len() > 0 {
        match spec_record_step(es, rs, spec_function_record(fns[0])) {
            Err(_) => {},
            Ok(rs2) => {
                lemma_records_of_functions_extends(es, rs2, fns.drop_first());
            },
        }
    }
}

/// The attribute line above every emitted declaration.
pub open spec fn spec_derive_line() -> Seq<char> {
    "#[derive(Clone, Debug, PartialEq)]\n"@
}

/// The parts joined with a separator between consecutive parts.
pub open spec fn spec_join_with(parts: Seq<Seq<char>>, sep: Seq<char>) -> Seq<char>
    decreases parts.len(),
{
    if parts.len() == 0 {
        Seq::empty()
    } else if parts.len() == 1 {
        parts[0]
    } else {
        spec_join_with(parts.drop_last(), sep) + sep + parts.last()
    }
}

/// One variant line of an emitted enumeration.
pub open spec fn spec_variant_line(v: EnumVariantView) -> Seq<char> {
    "    "@ + v.name + "("@ + v.wrapped + "),\n"@
}

/// The variant lines of an emitted enumeration, in order.
pub open spec fn spec_variant_lines(vs: Seq<EnumVariantView>) -> Seq<char>
    decreases vs.len(),
{
    if vs.len() == 0 {
        Seq::empty()
    } else {
        spec_variant_lines(vs.drop_last()) + spec_variant_line(vs.last())
    }
}

/// The text of one enumeration declaration.
pub open spec fn spec_enum_text(e: GeneratedEnumView) -> Seq<char> {
    spec_derive_line() + "pub enum "@ + e.name + " {\n"@ + spec_variant_lines(e.variants)
        + "}\n\n"@
}

/// The type a field carries in its record: its resolved type, inside an
/// optional wrapper when the field is not required.
pub open spec fn spec_wrapped_type(f: FieldDeclView) -> Seq<char> {
    if f.required {
        f.field_type
    } else {
        "Option<"@ + f.field_type + ">"@
    }
}

/// One field line of an emitted record.
pub open spec fn spec_field_line(f: FieldDeclView) -> Seq<char> {
    "    pub "@ + f.name + ": "@ + spec_wrapped_type(f) + ",\n"@
}

/// The field lines of an emitted record, in order.
pub open spec fn spec_field_lines(fs: Seq<FieldDeclView>) -> Seq<char>
    decreases fs.len(),
{
    if fs.len() == 0 {
        Seq::empty()
    } else {
        spec_field_lines(fs.drop_last()) + spec_field_line(fs.last())
    }
}

/// The text of one record declaration.
pub open spec fn spec_record_text(r: GeneratedRecordView) -> Seq<char> {
    spec_derive_line() + "pub struct "@ + r.name + " {\n"@ + spec_field_lines(r.fields)
        + "}\n\n"@
}

/// The constructor arguments: one "name: type" piece per required field,
/// in order.
pub open spec fn spec_arg_parts(fs: Seq<FieldDeclView>) -> Seq<Seq<char>>
    decreases fs.len(),
{
    if fs.len() == 0 {
        Seq::empty()
    } else {
        spec_arg_parts(fs.drop_last()) + (if fs.last().required {
            seq![fs.last().name + ": "@ + fs.last().field_type]
        } else {
            Seq::empty()
        })
    }
}

/// The constructor initialisers for the required fields: each field name
/// itself, in order.
pub open spec fn spec_req_name_parts(fs: Seq<FieldDeclView>) -> Seq<Seq<char>>
    decreases fs.len(),
{
    if fs.len() == 0 {
        Seq::empty()
    } else {
        spec_req_name_parts(fs.drop_last()) + (if fs.last().required {
            seq![fs.last().name]
        } else {
            Seq::empty()
        })
    }
}

/// The constructor initialisers for the optional fields: each defaults
/// to the empty value, in order.
pub open spec fn spec_opt_none_parts(fs: Seq<FieldDeclView>) -> Seq<Seq<char>>
    decreases fs.len(),
{
    if fs.len() == 0 {
        Seq::empty()
    } else {
        spec_opt_none_parts(fs.drop_last()) + (if !fs.last().required {
            seq![fs.last().name + ": None"@]
        } else {
            Seq::empty()
        })
    }
}

/// The constructor of one record: it takes every required field and
/// leaves every optional field empty.
pub open spec fn spec_new_method(r: GeneratedRecordView) -> Seq<char> {
    "    pub fn new("@ + spec_join_with(spec_arg_parts(r.fields), ", "@)
        + ") -> Self {\n        Self { "@ + spec_join_with(
        spec_req_name_parts(r.fields) + spec_opt_none_parts(r.fields),
        ", "@,
    ) + " }\n    }\n"@
}

/// The mutating setter of one field; an optional field's setter takes
/// the wrapped value.
pub open spec fn spec_setter_method(f: FieldDeclView) -> Seq<char> {
    "    pub fn set_"@ + f.name + "(&mut self, "@ + f.name + ": "@ + spec_wrapped_type(f)
        + ") {\n        self."@ + f.name + " = "@ + f.name + ";\n    }\n"@
}

/// The getter of one field: primitives are handed out by copy, all other
/// values as an owned clone.
pub open spec fn spec_getter_method(f: FieldDeclView) -> Seq<char> {
    "    pub fn "@ + f.name + "(&self) -> "@ + spec_wrapped_type(f) + " {\n        self."@ + f.name
        + (if f.required && (f.field_type == "isize"@ || f.field_type == "bool"@) {
        Seq::<char>::empty()
    } else {
        ".clone()"@
    }) + "\n    }\n"@
}

/// The setters of the fields whose requirement equals `req`, in order.
pub open spec fn spec_setter_parts(fs: Seq<FieldDeclView>, req: bool) -> Seq<Seq<char>>
    decreases fs.len(),
{
    if fs.len() == 0 {
        Seq::empty()
    } else {
        spec_setter_parts(fs.drop_last(), req) + (if fs.last().required == req {
            seq![spec_setter_method(fs.last())]
        } else {
            Seq::empty()
        })
    }
}

/// The getters of the fields whose requirement equals `req`, in order.
pub open spec fn spec_getter_parts(fs: Seq<FieldDeclView>, req: bool) -> Seq<Seq<char>>
    decreases fs.len(),
{
    if fs.len() == 0 {
        Seq::empty()
    } else {
        spec_getter_parts(fs.drop_last(), req) + (if fs.last().required == req {
            seq![spec_getter_method(fs.last())]
        } else {
            Seq::empty()
        })
    }
}

/// The methods of one record's construction and accessor block: the
/// constructor, the setters of the required then the optional fields,
/// then the getters in the same order.
pub open spec fn spec_method_parts(r: GeneratedRecordView) -> Seq<Seq<char>> {
    seq![spec_new_method(r)] + spec_setter_parts(r.fields, true) + spec_setter_parts(
        r.fields,
        false,
    ) + spec_getter_parts(r.fields, true) + spec_getter_parts(r.fields, false)
}

/// The construction and accessor block of one record.
pub open spec fn spec_impl_text(r: GeneratedRecordView) -> Seq<char> {
    "impl "@ + r.name + " {\n"@ + spec_join_with(spec_method_parts(r), "\n"@) + "}\n\n"@
}

/// The enumeration declarations, in order.
pub open spec fn spec_render_enums(es: Seq<GeneratedEnumView>) -> Seq<char>
    decreases es.len(),
{
    if es.len() == 0 {
        Seq::empty()
    } else {
        spec_render_enums(es.drop_last()) + spec_enum_text(es.last())
    }
}

/// The record declarations, in order.
pub open spec fn spec_render_records(rs: Seq<GeneratedRecordView>) -> Seq<char>
    decreases rs.len(),
{
    if rs.len() == 0 {
        Seq::empty()
    } else {
        spec_render_records(rs.drop_last()) + spec_record_text(rs.last())
    }
}

/// The construction and accessor blocks, in order.
pub open spec fn spec_render_impls(rs: Seq<GeneratedRecordView>) -> Seq<char>
    decreases rs.len(),
{
    if rs.len() == 0 {
        Seq::empty()
    } else {
        spec_render_impls(rs.drop_last()) + spec_impl_text(rs.last())
    }
}

/// Joins the parts with a separator between consecutive parts.
#[verifier::loop_isolation(false)]
fn join_with(parts: &Vec<String>, sep: &str) -> (r: String)
    ensures
        r@ == spec_join_with(parts.deep_view(), sep@),
{
    let mut out = String::new();
    let n = parts.len();
    for k in 0..n
        invariant
            out@ == spec_join_with(parts.deep_view().take(k as int), sep@),
        decreases n - k,
    {
        if k > 0 {
            out.append(sep);
        }
        out.append(parts[k].as_str());
        proof {
            assert(parts.deep_view()[k as int] == parts@[k as int]@);
            assert(parts.deep_view().take(k + 1 as int).drop_last() =~= parts.deep_view().take(
                k as int,
            ));
            assert(parts.deep_view().take(k + 1 as int).last() == parts.deep_view()[k as int]);
        }
    }
    proof {
        assert(parts.deep_view().take(n as int) =~= parts.deep_view());
    }
    out
}

/// Renders one enumeration declaration.
#[verifier::loop_isolation(false)]
fn render_enum(e: &GeneratedEnum) -> (r: String)
    ensures
        r@ == spec_enum_text(e@),
{
    let mut out = String::from_str("#[derive(Clone, Debug, PartialEq)]\n");
    out.append("pub enum ");
    out.append(e.name.as_str());
    out.append(" {\n");
    let ghost head = out@;
    let n = e.variants.len();
    for k in 0..n
        invariant
            out@ == head + spec_variant_lines(e@.variants.take(k as int)),
        decreases n - k,
    {
        let v = &e.variants[k];
        out.append("    ");
        out.append(v.name.as_str());
        out.append("(");
        out.append(v.wrapped.as_str());
        out.append("),\n");
        proof {
            assert(e@.variants[k as int] == e.variants@[k as int]@);
            assert(e@.variants.take(k + 1 as int).drop_last() =~= e@.variants.take(k as int));
            assert(e@.variants.take(k + 1 as int).last() == e@.variants[k as int]);
            assert(out@ =~= head + spec_variant_lines(e@.variants.take(k + 1 as int)));
        }
    }
    out.append("}\n\n");
    proof {
        assert(e@.variants.take(n as int) =~= e@.variants);
        assert(out@ =~= spec_enum_text(e@));
    }
    out
}

/// Renders the type a field carries in its record.
fn render_wrapped_type(f: &FieldDecl) -> (r: String)
    ensures
        r@ == spec_wrapped_type(f@),
{
    if f.required {
        f.field_type.clone()
    } else {
        String::from_str("Option<").concat(f.field_type.as_str()).concat(">")
    }
}

/// Renders one record declaration.
#[verifier::loop_isolation(false)]
fn render_record(rec: &GeneratedRecord) -> (r: String)
    ensures
        r@ == spec_record_text(rec@),
{
    let mut out = String::from_str("#[derive(Clone, Debug, PartialEq)]\n");
    out.append("pub struct ");
    out.append(rec.name.as_str());
    out.append(" {\n");
    let ghost head = out@;
    let n = rec.fields.len();
    for k in 0..n
        invariant
            out@ == head + spec_field_lines(rec@.fields.take(k as int)),
        decreases n - k,
    {
        let f = &rec.fields[k];
        let wt = render_wrapped_type(f);
        out.append("    pub ");
        out.append(f.name.as_str());
        out.append(": ");
        out.append(wt.as_str());
        out.append(",\n");
        proof {
            assert(rec@.fields[k as int] == rec.fields@[k as int]@);
            assert(rec@.fields.take(k + 1 as int).drop_last() =~= rec@.fields.take(k as int));
            assert(rec@.fields.take(k + 1 as int).last() == rec@.fields[k as int]);
            assert(out@ =~= head + spec_field_lines(rec@.fields.take(k + 1 as int)));
        }
    }
    out.append("}\n\n");
    proof {
        assert(rec@.fields.take(n as int) =~= rec@.fields);
        assert(out@ =~= spec_record_text(rec@));
    }
    out
}

/// Renders one record's constructor.
#[verifier::loop_isolation(false)]
fn render_new_method(rec: &GeneratedRecord) -> (r: String)
    ensures
        r@ == spec_new_method(rec@),
{
    let n = rec.fields.len();
    let mut args: Vec<String> = Vec::new();
    proof {
        assert(args.deep_view() =~= spec_arg_parts(rec@.fields.take(0)));
    }
    for k in 0..n
        invariant
            args.deep_view() == spec_arg_parts(rec@.fields.take(k as int)),
        decreases n - k,
    {
        let f = &rec.fields[k];
        proof {
            assert(rec@.fields[k as int] == rec.fields@[k as int]@);
            assert(rec@.fields.take(k + 1 as int).drop_last() =~= rec@.fields.take(k as int));
            assert(rec@.fields.take(k + 1 as int).last() == rec@.fields[k as int]);
        }
        if f.required {
            let ghost before = args.deep_view();
            let piece = String::from_str(f.name.as_str()).concat(": ").concat(
                f.field_type.as_str(),
            );
            let ghost pv = piece@;
            args.push(piece);
            proof {
                assert(args.deep_view() =~= before.push(pv));
                assert(spec_arg_parts(rec@.fields.take(k + 1 as int)) =~= before.push(pv));
            }
        }
    }
    let mut inits: Vec<String> = Vec::new();
    proof {
        assert(inits.deep_view() =~= spec_req_name_parts(rec@.fields.take(0)));
    }
    for k in 0..n
        invariant
            inits.deep_view() == spec_req_name_parts(rec@.fields.take(k as int)),
        decreases n - k,
    {
        let f = &rec.fields[k];
        proof {
            assert(rec@.fields[k as int] == rec.fields@[k as int]@);
            assert(rec@.fields.take(k + 1 as int).drop_last() =~= rec@.fields.take(k as int));
            assert(rec@.fields.take(k + 1 as int).last() == rec@.fields[k as int]);
        }
        if f.required {
            let ghost before = inits.deep_view();
            let piece = f.name.clone();
            let ghost pv = piece@;
            inits.push(piece);
            proof {
                assert(inits.deep_view() =~= before.push(pv));
                assert(spec_req_name_parts(rec@.fields.take(k + 1 as int)) =~= before.push(pv));
            }
        }
    }
    let ghost req_parts = inits.deep_view();
    for k in 0..n
        invariant
            inits.deep_view() == req_parts + spec_opt_none_parts(rec@.fields.take(k as int)),
        decreases n - k,
    {
        let f = &rec.fields[k];
        proof {
            assert(rec@.fields[k as int] == rec.fields@[k as int]@);
            assert(rec@.fields.take(k + 1 as int).drop_last() =~= rec@.fields.take(k as int));
            assert(rec@.fields.take(k + 1 as int).last() == rec@.fields[k as int]);
        }
        if !f.required {
            let ghost before = inits.deep_view();
            let piece = String::from_str(f.name.as_str()).concat(": None");
            let ghost pv = piece@;
            inits.push(piece);
            proof {
                assert(inits.deep_view() =~= before.push(pv));
                assert(req_parts + spec_opt_none_parts(rec@.fields.take(k + 1 as int))
                    =~= before.push(pv));
            }
        }
    }
    proof {
        assert(rec@.fields.take(n as int) =~= rec@.fields);
    }
    let joined_args = join_with(&args, ", ");
    let joined_inits = join_with(&inits, ", ");
    let mut out = String::from_str("    pub fn new(");
    out.append(joined_args.as_str());
    out.append(") -> Self {\n        Self { ");
    out.append(joined_inits.as_str());
    out.append(" }\n    }\n");
    proof {
        assert(out@ =~= spec_new_method(rec@));
    }
    out
}

/// Renders the setter of one field.
fn render_setter(f: &FieldDecl) -> (r: String)
    ensures
        r@ == spec_setter_method(f@),
{
    let wt = render_wrapped_type(f);
    let mut out = String::from_str("    pub fn set_");
    out.append(f.name.as_str());
    out.append("(&mut self, ");
    out.append(f.name.as_str());
    out.append(": ");
    out.append(wt.as_str());
    out.append(") {\n        self.");
    out.append(f.name.as_str());
    out.append(" = ");
    out.append(f.name.as_str());
    out.append(";\n    }\n");
    proof {
        assert(out@ =~= spec_setter_method(f@));
    }
    out
}

/// Renders the getter of one field.
fn render_getter(f: &FieldDecl) -> (r: String)
    ensures
        r@ == spec_getter_method(f@),
{
    let wt = render_wrapped_type(f);
    let mut out = String::from_str("    pub fn ");
    out.append(f.name.as_str());
    out.append("(&self) -> ");
    out.append(wt.as_str());
    out.append(" {\n        self.");
    out.append(f.name.as_str());
    let copies = f.required && (string_eq_str(&f.field_type, "isize") || string_eq_str(
        &f.field_type,
        "bool",
    ));
    if !copies {
        out.append(".clone()");
    }
    out.append("\n    }\n");
    proof {
        assert(out@ =~= spec_getter_method(f@));
    }
    out
}

/// Renders one record's construction and accessor block.
#[verifier::loop_isolation(false)]
#[verifier::rlimit(50)]
fn render_impl(rec: &GeneratedRecord) -> (r: String)
    ensures
        r@ == spec_impl_text(rec@),
{
    let n = rec.fields.len();
    let mut methods: Vec<String> = Vec::new();
    let new_method = render_new_method(rec);
    let ghost nv = new_method@;
    methods.push(new_method);
    proof {
        assert(methods.deep_view() =~= seq![nv]);
    }
    let ghost base0 = methods.deep_view();
    for k in 0..n
        invariant
            methods.deep_view() == base0 + spec_setter_parts(rec@.fields.take(k as int), true),
        decreases n - k,
    {
        let f = &rec.fields[k];
        proof {
            assert(rec@.fields[k as int] == rec.fields@[k as int]@);
            assert(rec@.fields.take(k + 1 as int).drop_last() =~= rec@.fields.take(k as int));
            assert(rec@.fields.take(k + 1 as int).last() == rec@.fields[k as int]);
        }
        if f.required {
            let m = render_setter(f);
            let ghost before = methods.deep_view();
            let ghost mv = m@;
            methods.push(m);
            proof {
                assert(methods.deep_view() =~= before.push(mv));
                assert(base0 + spec_setter_parts(rec@.fields.take(k + 1 as int), true)
                    =~= before.push(mv));
            }
        }
    }
    let ghost base1 = methods.deep_view();
    for k in 0..n
        invariant
            methods.deep_view() == base1 + spec_setter_parts(rec@.fields.take(k as int), false),
        decreases n - k,
    {
        let f = &rec.fields[k];
        proof {
            assert(rec@.fields[k as int] == rec.fields@[k as int]@);
            assert(rec@.fields.take(k + 1 as int).drop_last() =~= rec@.fields.take(k as int));
            assert(rec@.fields.take(k + 1 as int).last() == rec@.fields[k as int]);
        }
        if !f.required {
            let m = render_setter(f);
            let ghost before = methods.deep_view();
            let ghost mv = m@;
            methods.push(m);
            proof {
                assert(methods.deep_view() =~= before.push(mv));
                assert(base1 + spec_setter_parts(rec@.fields.take(k + 1 as int), false)
                    =~= before.push(mv));
            }
        }
    }
    let ghost base2 = methods.deep_view();
    for k in 0..n
        invariant
            methods.deep_view() == base2 + spec_getter_parts(rec@.fields.take(k as int), true),
        decreases n - k,
    {
        let f = &rec.fields[k];
        proof {
            assert(rec@.fields[k as int] == rec.fields@[k as int]@);
            assert(rec@.fields.take(k + 1 as int).drop_last() =~= rec@.fields.take(k as int));
            assert(rec@.fields.take(k + 1 as int).last() == rec@.fields[k as int]);
        }
        if f.required {
            let m = render_getter(f);
            let ghost before = methods.deep_view();
            let ghost mv = m@;
            methods.push(m);
            proof {
                assert(methods.deep_view() =~= before.push(mv));
                assert(base2 + spec_getter_parts(rec@.fields.take(k + 1 as int), true)
                    =~= before.push(mv));
            }
        }
    }
    let ghost base3 = methods.deep_view();
    for k in 0..n
        invariant
            methods.deep_view() == base3 + spec_getter_parts(rec@.fields.take(k as int), false),
        decreases n - k,
    {
        let f = &rec.fields[k];
        proof {
            assert(rec@.fields[k as int] == rec.fields@[k as int]@);
            assert(rec@.fields.take(k + 1 as int).drop_last() =~= rec@.fields.take(k as int));
            assert(rec@.fields.take(k + 1 as int).last() == rec@.fields[k as int]);
        }
        if !f.required {
            let m = render_getter(f);
            let ghost before = methods.deep_view();
            let ghost mv = m@;
            methods.push(m);
            proof {
                assert(methods.deep_view() =~= before.push(mv));
                assert(base3 + spec_getter_parts(rec@.fields.take(k + 1 as int), false)
                    =~= before.push(mv));
            }
        }
    }
    proof {
        assert(rec@.fields.take(n as int) =~= rec@.fields);
        assert(methods.deep_view() =~= spec_method_parts(rec@));
    }
    let joined = join_with(&methods, "\n");
    let mut out = String::from_str("impl ");
    out.append(rec.name.as_str());
    out.append(" {\n");
    out.append(joined.as_str());
    out.append("}\n\n");
    proof {
        assert(out@ =~= spec_impl_text(rec@));
    }
    out
}

/// The mathematical state of a `Generator`: the schema it was built
/// over, the declarations emitted so far, and the output text.
pub struct GeneratorView {
    pub structure: ApiStructureView,
    pub enums: Seq<GeneratedEnumView>,
    pub records: Seq<GeneratedRecordView>,
    pub output: Seq<char>,
}

/// Renders a schema into declarations, constructors and accessors.
pub struct Generator {
    structure: ApiStructure,
    created_enums: Vec<GeneratedEnum>,
    created_structs: Vec<GeneratedRecord>,
    output: String,
}

impl View for Generator {
    type V = GeneratorView;

    closed spec fn view(&self) -> GeneratorView {
        GeneratorView {
            structure: self.structure@,
            enums: self.created_enums.deep_view(),
            records: self.created_structs.deep_view(),
            output: self.output@,
        }
    }
}

/// One full generation step over the whole schema: the enum pass over
/// entities then operations, the record pass over entities then
/// operations, and the rendering of what those passes newly created —
/// enums first, then records, then their construction and accessor
/// blocks.
pub open spec fn spec_generate(g: GeneratorView) -> Result<GeneratorView, GenerateError> {
    match spec_enums_of_entities(g.enums, g.records, g.structure.entities) {
        Err(e) => Err(e),
        Ok(es1) => match spec_enums_of_functions(es1, g.records, g.structure.functions) {
            Err(e) => Err(e),
            Ok(es2) => match spec_records_of_entities(es2, g.records, g.structure.entities) {
                Err(e) => Err(e),
                Ok(rs1) => match spec_records_of_functions(es2, rs1, g.structure.functions) {
                    Err(e) => Err(e),
                    Ok(rs2) => Ok(
                        GeneratorView {
                            structure: g.structure,
                            enums: es2,
                            records: rs2,
                            output: g.output + spec_render_enums(es2.skip(g.enums.len() as int))
                                + spec_render_records(rs2.skip(g.records.len() as int))
                                + spec_render_impls(rs2.skip(g.records.len() as int)),
                        },
                    ),
                },
            },
        },
    }
}

/// A generation step over the entities alone.
pub open spec fn spec_generate_entity_data(g: GeneratorView) -> Result<
    GeneratorView,
    GenerateError,
> {
    match spec_enums_of_entities(g.enums, g.records, g.structure.entities) {
        Err(e) => Err(e),
        Ok(es1) => match spec_records_of_entities(es1, g.records, g.structure.entities) {
            Err(e) => Err(e),
            Ok(rs1) => Ok(
                GeneratorView {
                    structure: g.structure,
                    enums: es1,
                    records: rs1,
                    output: g.output + spec_render_enums(es1.skip(g.enums.len() as int))
                        + spec_render_records(rs1.skip(g.records.len() as int))
                        + spec_render_impls(rs1.skip(g.records.len() as int)),
                },
            ),
        },
    }
}

/// A generation step over the operations alone.
pub open spec fn spec_generate_function_data(g: GeneratorView) -> Result<
    GeneratorView,
    GenerateError,
> {
    match spec_enums_of_functions(g.enums, g.records, g.structure.functions) {
        Err(e) => Err(e),
        Ok(es1) => match spec_records_of_functions(es1, g.records, g.structure.functions) {
            Err(e) => Err(e),
            Ok(rs1) => Ok(
                GeneratorView {
                    structure: g.structure,
                    enums: es1,
                    records: rs1,
                    output: g.output + spec_render_enums(es1.skip(g.enums.len() as int))
                        + spec_render_records(rs1.skip(g.records.len() as int))
                        + spec_render_impls(rs1.skip(g.records.len() as int)),
                },
            ),
        },
    }
}

impl Generator {
    /// Holds a schema, with nothing emitted yet.
    pub fn new(structure: ApiStructure) -> (g: Generator)
        ensures
            g@.structure == structure@,
            g@.enums == Seq::<GeneratedEnumView>::empty(),
            g@.records == Seq::<GeneratedRecordView>::empty(),
            g@.output == Seq::<char>::empty(),
    {
        let g = Generator {
            structure,
            created_enums: Vec::new(),
            created_structs: Vec::new(),
            output: String::new(),
        };
        proof {
            assert(g.created_enums.deep_view() =~= Seq::<GeneratedEnumView>::empty());
            assert(g.created_structs.deep_view() =~= Seq::<GeneratedRecordView>::empty());
        }
        g
    }

    /// Appends the declarations from position `eb` of the enums and `rb`
    /// of the records on, and the accessor blocks of those records, to
    /// the output.
    #[verifier::loop_isolation(false)]
    #[verifier::rlimit(50)]
    fn render_from(&mut self, eb: usize, rb: usize)
        requires
            eb <= old(self)@.enums.len(),
            rb <= old(self)@.records.len(),
        ensures
            final (self)@.structure == old(self)@.structure,
            final (self)@.enums == old(self)@.enums,
            final (self)@.records == old(self)@.records,
            final (self)@.output == old(self)@.output + spec_render_enums(
                old(self)@.enums.skip(eb as int),
            ) + spec_render_records(old(self)@.records.skip(rb as int)) + spec_render_impls(
                old(self)@.records.skip(rb as int),
            ),
    {
        let en = self.created_enums.len();
        let rn = self.created_structs.len();
        let mut text = String::new();
        let ghost edv = self.created_enums.deep_view();
        let ghost rdv = self.created_structs.deep_view();
        for k in eb..en
            invariant
                text@ == spec_render_enums(edv.subrange(eb as int, k as int)),
        decreases en - k,
        {
            let t = render_enum(&self.created_enums[k]);
            text.append(t.as_str());
            proof {
                assert(edv[k as int] == self.created_enums@[k as int]@);
                assert(edv.subrange(eb as int, k + 1 as int).drop_last() =~= edv.subrange(
                    eb as int,
                    k as int,
                ));
                assert(edv.subrange(eb as int, k + 1 as int).last() == edv[k as int]);
            }
        }
        proof {
            assert(edv.subrange(eb as int, en as int) =~= edv.skip(eb as int));
        }
        let ghost head1 = text@;
        for k in rb..rn
            invariant
                text@ == head1 + spec_render_records(rdv.subrange(rb as int, k as int)),
        decreases rn - k,
        {
            let t = render_record(&self.created_structs[k]);
            text.append(t.as_str());
            proof {
                assert(rdv[k as int] == self.created_structs@[k as int]@);
                assert(rdv.subrange(rb as int, k + 1 as int).drop_last() =~= rdv.subrange(
                    rb as int,
                    k as int,
                ));
                assert(rdv.subrange(rb as int, k + 1 as int).last() == rdv[k as int]);
                assert(text@ =~= head1 + spec_render_records(
                    rdv.subrange(rb as int, k + 1 as int),
                ));
            }
        }
        let ghost head2 = text@;
        for k in rb..rn
            invariant
                text@ == head2 + spec_render_impls(rdv.subrange(rb as int, k as int)),
        decreases rn - k,
        {
            let t = render_impl(&self.created_structs[k]);
            text.append(t.as_str());
            proof {
                assert(rdv[k as int] == self.created_structs@[k as int]@);
                assert(rdv.subrange(rb as int, k + 1 as int).drop_last() =~= rdv.subrange(
                    rb as int,
                    k as int,
                ));
                assert(rdv.subrange(rb as int, k + 1 as int).last() == rdv[k as int]);
                assert(text@ =~= head2 + spec_render_impls(rdv.subrange(rb as int, k + 1 as int)));
            }
        }
        proof {
            assert(rdv.subrange(rb as int, rn as int) =~= rdv.skip(rb as int));
        }
        self.output.append(text.as_str());
        proof {
            assert(final (self)@.output =~= old(self)@.output + spec_render_enums(
                old(self)@.enums.skip(eb as int),
            ) + spec_render_records(old(self)@.records.skip(rb as int)) + spec_render_impls(
                old(self)@.records.skip(rb as int),
            ));
        }
    }

    /// Runs the full generation step over the whole schema; on a name
    /// collision with differing content nothing is rendered and the
    /// collision is reported.
    pub fn generate(&mut self) -> (r: Result<(), GenerateError>)
        ensures
            r matches Ok(_) ==> spec_generate(old(self)@) == Result::<
                GeneratorView,
                GenerateError,
            >::Ok(final (self)@),
            r matches Err(e) ==> spec_generate(old(self)@) == Result::<
                GeneratorView,
                GenerateError,
            >::Err(e) && final (self)@.output == old(self)@.output && final (self)@.structure
                == old(self)@.structure,
    {
        let eb = self.created_enums.len();
        let rb = self.created_structs.len();
        let r1 = enums_of_entities(
            &mut self.created_enums,
            &self.created_structs,
            &self.structure.entities,
        );
        if let Err(e) = r1 {
            return Err(e);
        }
        let r2 = enums_of_functions(
            &mut self.created_enums,
            &self.created_structs,
            &self.structure.functions,
        );
        if let Err(e) = r2 {
            return Err(e);
        }
        let r3 = records_of_entities(
            &self.created_enums,
            &mut self.created_structs,
            &self.structure.entities,
        );
        if let Err(e) = r3 {
            return Err(e);
        }
        let r4 = records_of_functions(
            &self.created_enums,
            &mut self.created_structs,
            &self.structure.functions,
        );
        if let Err(e) = r4 {
            return Err(e);
        }
        proof {
            lemma_enums_of_entities_extends(
                old(self)@.enums,
                old(self)@.records,
                old(self)@.structure.entities,
            );
            lemma_enums_of_functions_extends(
                spec_enums_of_entities(
                    old(self)@.enums,
                    old(self)@.records,
                    old(self)@.structure.entities,
                )->Ok_0,
                old(self)@.records,
                old(self)@.structure.functions,
            );
            lemma_records_of_entities_extends(
                self@.enums,
                old(self)@.records,
                old(self)@.structure.entities,
            );
            lemma_records_of_functions_extends(
                self@.enums,
                spec_records_of_entities(
                    self@.enums,
                    old(self)@.records,
                    old(self)@.structure.entities,
                )->Ok_0,
                old(self)@.structure.functions,
            );
        }
        self.render_from(eb, rb);
        Ok(())
    }

    /// Runs the generation step over the entities alone.
    pub fn generate_entity_data(&mut self) -> (r: Result<(), GenerateError>)
        ensures
            r matches Ok(_) ==> spec_generate_entity_data(old(self)@) == Result::<
                GeneratorView,
                GenerateError,
            >::Ok(final (self)@),
            r matches Err(e) ==> spec_generate_entity_data(old(self)@) == Result::<
                GeneratorView,
                GenerateError,
            >::Err(e) && final (self)@.output == old(self)@.output && final (self)@.structure
                == old(self)@.structure,
    {
        let eb = self.created_enums.len();
        let rb = self.created_structs.len();
        let r1 = enums_of_entities(
            &mut self.created_enums,
            &self.created_structs,
            &self.structure.entities,
        );
        if let Err(e) = r1 {
            return Err(e);
        }
        let r2 = records_of_entities(
            &self.created_enums,
            &mut self.created_structs,
            &self.structure.entities,
        );
        if let Err(e) = r2 {
            return Err(e);
        }
        proof {
            lemma_enums_of_entities_extends(
                old(self)@.enums,
                old(self)@.records,
                old(self)@.structure.entities,
            );
            lemma_records_of_entities_extends(
                self@.enums,
                old(self)@.records,
                old(self)@.structure.entities,
            );
        }
        self.render_from(eb, rb);
        Ok(())
    }

    /// Runs the generation step over the operations alone.
    pub fn generate_function_data(&mut self) -> (r: Result<(), GenerateError>)
        ensures
            r matches Ok(_) ==> spec_generate_function_data(old(self)@) == Result::<
                GeneratorView,
                GenerateError,
            >::Ok(final (self)@),
            r matches Err(e) ==> spec_generate_function_data(old(self)@) == Result::<
                GeneratorView,
                GenerateError,
            >::Err(e) && final (self)@.output == old(self)@.output && final (self)@.structure
                == old(self)@.structure,
    {
        let eb = self.created_enums.len();
        let rb = self.created_structs.len();
        let r1 = enums_of_functions(
            &mut self.created_enums,
            &self.created_structs,
            &self.structure.functions,
        );
        if let Err(e) = r1 {
            return Err(e);
        }
        let r2 = records_of_functions(
            &self.created_enums,
            &mut self.created_structs,
            &self.structure.functions,
        );
        if let Err(e) = r2 {
            return Err(e);
        }
        proof {
            lemma_enums_of_functions_extends(
                old(self)@.enums,
                old(self)@.records,
                old(self)@.structure.functions,
            );
            lemma_records_of_functions_extends(
                self@.enums,
                old(self)@.records,
                old(self)@.structure.functions,
            );
        }
        self.render_from(eb, rb);
        Ok(())
    }

    /// The rendered output accumulated so far.
    pub fn to_string(&self) -> (r: String)
        ensures
            r@ == self@.output,
    {
        self.output.clone()
    }
}

/// Whether no two of the emitted enumerations share a name.
pub open spec fn spec_unique_enum_names(es: Seq<GeneratedEnumView>) -> bool {
    forall|i: int, j: int|
        0 <= i < j < es.len() ==> (#[trigger] es[i]).name != (#[trigger] es[j]).name
}

/// A name that the lookup does not find names no emitted enumeration.
proof fn lemma_enum_lookup_none(es: Seq<GeneratedEnumView>, name: Seq<char>)
    ensures
        spec_enum_lookup(es, name) is None <==> forall|i: int|
            0 <= i < es.len() ==> (#[trigger] es[i]).name != name,
    decreases es.len(),
{
    if es.len() > 0 {
        lemma_enum_lookup_none(es.drop_last(), name);
        assert(forall|i: int|
            0 <= i < es.len() - 1 ==> (#[trigger] es[i]).name == es.drop_last()[i].name);
        if es.last().name == name {
            assert(es[es.len() - 1].name == name);
        }
    }
}

/// Walking one field keeps the emitted enumeration names
/// collision-free.
proof fn lemma_enum_step_unique(
    es: Seq<GeneratedEnumView>,
    rs: Seq<GeneratedRecordView>,
    p: ParamView,
)
    requires
        spec_unique_enum_names(es),
    ensures
        spec_enum_step(es, rs, p) matches Ok(es2) ==> spec_unique_enum_names(es2),
{
    match spec_parsed_type(p).rust_type {
        RustTypeView::Simple(_) => {},
        RustTypeView::Enum(toks) => {
            let name = spec_enum_name(p.name);
            if spec_enum_lookup(es, name) is None {
                lemma_enum_lookup_none(es, name);
            }
        },
    }
}

/// Walking one parameter list keeps the emitted enumeration names
/// collision-free.
proof fn lemma_enums_of_params_unique(
    es: Seq<GeneratedEnumView>,
    rs: Seq<GeneratedRecordView>,
    ps: Seq<ParamView>,
)
    requires
        spec_unique_enum_names(es),
    ensures
        spec_enums_of_params(es, rs, ps) matches Ok(es2) ==> spec_unique_enum_names(es2),
    decreases ps.len(),
{
    if ps.len() > 0 {
        lemma_enum_step_unique(es, rs, ps[0]);
        match spec_enum_step(es, rs, ps[0]) {
            Err(_) => {},
            Ok(es2) => {
                lemma_enums_of_params_unique(es2, rs, ps.drop_first());
            },
        }
    }
}

/// The enum pass over the entities keeps the names collision-free.
proof fn lemma_enums_of_entities_unique(
    es: Seq<GeneratedEnumView>,
    rs: Seq<GeneratedRecordView>,
    ents: Seq<EntityView>,
)
    requires
        spec_unique_enum_names(es),
    ensures
        spec_enums_of_entities(es, rs, ents) matches Ok(es2) ==> spec_unique_enum_names(es2),
    decreases ents.len(),
{
    if ents.len() > 0 {
        lemma_enums_of_params_unique(es, rs, ents[0].fields);
        match spec_enums_of_params(es, rs, ents[0].fields) {
            Err(_) => {},
            Ok(es2) => {
                lemma_enums_of_entities_unique(es2, rs, ents.drop_first());
            },
        }
    }
}

/// The enum pass over the operations keeps the names collision-free.
proof fn lemma_enums_of_functions_unique(
    es: Seq<GeneratedEnumView>,
    rs: Seq<GeneratedRecordView>,
    fns: Seq<FunctionView>,
)
    requires
        spec_unique_enum_names(es),
    ensures
        spec_enums_of_functions(es, rs, fns) matches Ok(es2) ==> spec_unique_enum_names(es2),
    decreases fns.len(),
{
    if fns.len() > 0 {
        lemma_enums_of_params_unique(es, rs, fns[0].params);
        match spec_enums_of_params(es, rs, fns[0].params) {
            Err(_) => {},
            Ok(es2) => {
                lemma_enums_of_functions_unique(es2, rs, fns.drop_first());
            },
        }
    }
}

/// Enum dedup over a whole run: when a generation step succeeds, no two
/// of the emitted enumerations share a derived name, so two fields that
/// resolve to the same name and identical variants yield exactly one
/// declaration.
pub proof fn lemma_generated_enums_unique(g: GeneratorView)
    requires
        spec_unique_enum_names(g.enums),
        spec_generate(g) is Ok,
    ensures
        spec_unique_enum_names(spec_generate(g)->Ok_0.enums),
{
    lemma_enums_of_entities_unique(g.enums, g.records, g.structure.entities);
    let es1 = spec_enums_of_entities(g.enums, g.records, g.structure.entities)->Ok_0;
    lemma_enums_of_functions_unique(es1, g.records, g.structure.functions);
}

/// Round-trip determinism: two generators that hold the same schema and
/// the same prior state take the same generation step, so generating
/// twice from the same schema renders byte-identical output.
pub proof fn lemma_generation_deterministic(a: GeneratorView, b: GeneratorView)
    requires
        a.structure == b.structure,
        a.enums == b.enums,
        a.records == b.records,
        a.output == b.output,
    ensures
        spec_generate(a) == spec_generate(b),
        spec_generate(a) matches Ok(ga) ==> spec_generate(b) matches Ok(gb) && ga.output
            == gb.output,
{
    assert(a == b);
}

/// Self-reference handling: an entity field whose resolved base type is
/// the entity's own name is emitted behind a boxed indirection, so the
/// record never contains itself by value.
pub proof fn lemma_self_reference_boxed(e: EntityView, i: int)
    requires
        0 <= i < e.fields.len(),
        spec_base_type(e.fields[i]) == e.name,
    ensures
        spec_entity_record(e).fields[i].field_type == (if spec_parsed_type(e.fields[i]).array {
            "Vec<"@ + ("Box<"@ + e.name + ">"@) + ">"@
        } else {
            "Box<"@ + e.name + ">"@
        }),
{
    assert(spec_entity_record(e).fields[i].field_type == spec_entity_field_type(
        e.name,
        e.fields[i],
    ));
}

/// Enum dedup: once a field's enumeration stands in the emitted list, a
/// second field that derives the same name and an identical variant set
/// adds nothing, so exactly one declaration results.
pub proof fn lemma_enum_dedup(
    es: Seq<GeneratedEnumView>,
    rs: Seq<GeneratedRecordView>,
    p: ParamView,
    q: ParamView,
)
    requires
        spec_parsed_type(p).rust_type is Enum,
        spec_parsed_type(q).rust_type is Enum,
        spec_enum_name(p.name) == spec_enum_name(q.name),
        spec_parsed_type(p).rust_type->Enum_0.map_values(|t: Seq<char>| spec_variant_of(t))
            == spec_parsed_type(q).rust_type->Enum_0.map_values(|t: Seq<char>| spec_variant_of(t)),
        spec_enum_step(es, rs, p) is Ok,
    ensures
        spec_enum_step(spec_enum_step(es, rs, p)->Ok_0, rs, q) == spec_enum_step(es, rs, p),
{
    let name = spec_enum_name(p.name);
    let variants = spec_parsed_type(p).rust_type->Enum_0.map_values(
        |t: Seq<char>| spec_variant_of(t),
    );
    let es2 = spec_enum_step(es, rs, p)->Ok_0;
    match spec_enum_lookup(es, name) {
        Some(prev) => {
            assert(es2 == es);
        },
        None => {
            let e = GeneratedEnumView { name, variants };
            assert(es2 == es.push(e));
            assert(es2.last() == e);
            assert(spec_enum_lookup(es2, name) == Some(e));
        },
    }
}

} // verus!
