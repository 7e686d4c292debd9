//! Strict document schema for [`CustomCpuTemplate`].
//!
//! A template document is an object with optional `cpuid_modifiers` and
//! `msr_modifiers` lists.  Validation is strict at every level: an
//! unrecognized, repeated or ill-typed field is rejected, as is a malformed
//! number, register name or bitmap.  Fields are examined in document order
//! and the first problem wins; a required field missing is reported after
//! the walk, in declaration order.

use vstd::prelude::*;

use crate::bitmap::decode_bitmap;
use crate::bitmap::fv_fits;
use crate::bitmap::lemma_bitmap_round_trip;
use crate::bitmap::encode_bitmap;
use crate::bitmap::encode_bitmap_spec;
use crate::bitmap::decode_bitmap_spec;
use crate::bitmap::strip_bitmap_prefix;
use crate::bitmap::BitmapParseError;
use crate::bitmap::BitmapParseErrorView;
use crate::doc::DocField;
use crate::doc::DocValue;
use crate::num_text::format_u32;
use crate::num_text::lemma_format_parse_round_trip;
use crate::num_text::format_u32_spec;
use crate::num_text::parse_u32;
use crate::num_text::parse_u32_spec;
use crate::num_text::NumberParseError;
use crate::num_text::NumberParseErrorView;
use crate::template::CpuidLeafModifier;
use crate::template::CpuidLeafModifierView;
use crate::template::CpuidRegister;
use crate::template::CpuidRegisterModifier;
use crate::template::CustomCpuTemplate;
use crate::template::CustomCpuTemplateView;
use crate::template::KvmCpuidFlags;
use crate::template::RegisterModifier;
use crate::template::RegisterValueFilter;

verus! {

/// Rejected document, with the first problem found in document order.
#[derive(Debug, Clone, PartialEq, Eq)]
pub enum SchemaValidationError {
    /// A field name outside the recognized set, at any nesting level.
    UnknownField(String),
    /// A recognized field name appearing twice in one object.
    DuplicateField(String),
    /// A required field that the object does not hold.
    MissingField(String),
    /// A value of the wrong shape; carries the field or entity name.
    InvalidType(String),
    /// A register name outside the four-register set.
    InvalidRegister,
    /// A malformed numeric text.
    Number(NumberParseError),
    /// A malformed bitmap text.
    Bitmap(BitmapParseError),
}

/// Mathematical model of a [`SchemaValidationError`].
pub ghost enum SchemaValidationErrorView {
    UnknownField(Seq<char>),
    DuplicateField(Seq<char>),
    MissingField(Seq<char>),
    InvalidType(Seq<char>),
    InvalidRegister,
    Number(NumberParseErrorView),
    Bitmap(BitmapParseErrorView),
}

impl View for SchemaValidationError {
    type V = SchemaValidationErrorView;

    open spec fn view(&self) -> SchemaValidationErrorView {
        match self {
            SchemaValidationError::UnknownField(s) => SchemaValidationErrorView::UnknownField(s@),
            SchemaValidationError::DuplicateField(s) => SchemaValidationErrorView::DuplicateField(
                s@,
            ),
            SchemaValidationError::MissingField(s) => SchemaValidationErrorView::MissingField(s@),
            SchemaValidationError::InvalidType(s) => SchemaValidationErrorView::InvalidType(s@),
            SchemaValidationError::InvalidRegister => SchemaValidationErrorView::InvalidRegister,
            SchemaValidationError::Number(e) => SchemaValidationErrorView::Number(e@),
            SchemaValidationError::Bitmap(e) => SchemaValidationErrorView::Bitmap(e@),
        }
    }
}

/// The register selected by a lowercase register name, if any.
pub open spec fn register_of_name(s: Seq<char>) -> Option<CpuidRegister> {
    if s == "eax"@ {
        Some(CpuidRegister::Eax)
    } else if s == "ebx"@ {
        Some(CpuidRegister::Ebx)
    } else if s == "ecx"@ {
        Some(CpuidRegister::Ecx)
    } else if s == "edx"@ {
        Some(CpuidRegister::Edx)
    } else {
        None
    }
}

/// The lowercase name of a register.
pub open spec fn name_of_register(r: CpuidRegister) -> Seq<char> {
    match r {
        CpuidRegister::Eax => "eax"@,
        CpuidRegister::Ebx => "ebx"@,
        CpuidRegister::Ecx => "ecx"@,
        CpuidRegister::Edx => "edx"@,
    }
}

/// Walks the fields of a register modifier object in document order,
/// carrying the fields already seen.
pub open spec fn scan_reg(
    pairs: Seq<DocField>,
    register: Option<CpuidRegister>,
    bitmap: Option<RegisterValueFilter>,
) -> Result<CpuidRegisterModifier, SchemaValidationErrorView>
    decreases pairs.len(),
{
    if pairs.len() == 0 {
        if register is None {
            Err(SchemaValidationErrorView::MissingField("register"@))
        } else if bitmap is None {
            Err(SchemaValidationErrorView::MissingField("bitmap"@))
        } else {
            Ok(CpuidRegisterModifier { register: register->Some_0, bitmap: bitmap->Some_0 })
        }
    } else {
        let k = pairs[0].name;
        let v = pairs[0].value;
        if k@ == "register"@ {
            if register is Some {
                Err(SchemaValidationErrorView::DuplicateField("register"@))
            } else {
                match v {
                    DocValue::Text(s) => match register_of_name(s@) {
                        Some(reg) => scan_reg(pairs.skip(1), Some(reg), bitmap),
                        None => Err(SchemaValidationErrorView::InvalidRegister),
                    },
                    _ => Err(SchemaValidationErrorView::InvalidType("register"@)),
                }
            }
        } else if k@ == "bitmap"@ {
            if bitmap is Some {
                Err(SchemaValidationErrorView::DuplicateField("bitmap"@))
            } else {
                match v {
                    DocValue::Text(s) => match decode_bitmap_spec(strip_bitmap_prefix(s@)) {
                        Ok(fv) => scan_reg(pairs.skip(1), register, Some(fv)),
                        Err(kind) => Err(
                            SchemaValidationErrorView::Bitmap(
                                BitmapParseErrorView { text: strip_bitmap_prefix(s@), kind },
                            ),
                        ),
                    },
                    _ => Err(SchemaValidationErrorView::InvalidType("bitmap"@)),
                }
            }
        } else {
            Err(SchemaValidationErrorView::UnknownField(k@))
        }
    }
}

/// What decoding a register modifier node returns.
pub open spec fn decode_reg_spec(d: DocValue) -> Result<
    CpuidRegisterModifier,
    SchemaValidationErrorView,
> {
    match d {
        DocValue::Object(pairs) => scan_reg(pairs@, None, None),
        _ => Err(SchemaValidationErrorView::InvalidType("register modifier"@)),
    }
}

/// What decoding a list of register modifier nodes returns: the modifiers
/// in document order, or the first problem.
pub open spec fn decode_reg_items_spec(items: Seq<DocValue>) -> Result<
    Seq<CpuidRegisterModifier>,
    SchemaValidationErrorView,
>
    decreases items.len(),
{
    if items.len() == 0 {
        Ok(Seq::empty())
    } else {
        match decode_reg_spec(items[0]) {
            Err(e) => Err(e),
            Ok(m) => match decode_reg_items_spec(items.skip(1)) {
                Err(e) => Err(e),
                Ok(rest) => Ok(seq![m] + rest),
            },
        }
    }
}

/// Walks the fields of a CPUID leaf modifier object in document order.
pub open spec fn scan_leaf(
    pairs: Seq<DocField>,
    leaf: Option<u32>,
    subleaf: Option<u32>,
    flags: Option<u32>,
    modifiers: Option<Seq<CpuidRegisterModifier>>,
) -> Result<CpuidLeafModifierView, SchemaValidationErrorView>
    decreases pairs.len(),
{
    if pairs.len() == 0 {
        if leaf is None {
            Err(SchemaValidationErrorView::MissingField("leaf"@))
        } else if subleaf is None {
            Err(SchemaValidationErrorView::MissingField("subleaf"@))
        } else if flags is None {
            Err(SchemaValidationErrorView::MissingField("flags"@))
        } else if modifiers is None {
            Err(SchemaValidationErrorView::MissingField("modifiers"@))
        } else {
            Ok(
                CpuidLeafModifierView {
                    leaf: leaf->Some_0,
                    subleaf: subleaf->Some_0,
                    flags: KvmCpuidFlags(flags->Some_0),
                    modifiers: modifiers->Some_0,
                },
            )
        }
    } else {
        let k = pairs[0].name;
        let v = pairs[0].value;
        if k@ == "leaf"@ {
            if leaf is Some {
                Err(SchemaValidationErrorView::DuplicateField("leaf"@))
            } else {
                match v {
                    DocValue::Text(s) => match parse_u32_spec(s@) {
                        Ok(n) => scan_leaf(pairs.skip(1), Some(n), subleaf, flags, modifiers),
                        Err(kind) => Err(
                            SchemaValidationErrorView::Number(
                                NumberParseErrorView { text: s@, kind },
                            ),
                        ),
                    },
                    _ => Err(SchemaValidationErrorView::InvalidType("leaf"@)),
                }
            }
        } else if k@ == "subleaf"@ {
            if subleaf is Some {
                Err(SchemaValidationErrorView::DuplicateField("subleaf"@))
            } else {
                match v {
                    DocValue::Text(s) => match parse_u32_spec(s@) {
                        Ok(n) => scan_leaf(pairs.skip(1), leaf, Some(n), flags, modifiers),
                        Err(kind) => Err(
                            SchemaValidationErrorView::Number(
                                NumberParseErrorView { text: s@, kind },
                            ),
                        ),
                    },
                    _ => Err(SchemaValidationErrorView::InvalidType("subleaf"@)),
                }
            }
        } else if k@ == "flags"@ {
            if flags is Some {
                Err(SchemaValidationErrorView::DuplicateField("flags"@))
            } else {
                match v {
                    DocValue::Number(n) => if n <= u32::MAX as u64 {
                        scan_leaf(pairs.skip(1), leaf, subleaf, Some(n as u32), modifiers)
                    } else {
                        Err(SchemaValidationErrorView::InvalidType("flags"@))
                    },
                    _ => Err(SchemaValidationErrorView::InvalidType("flags"@)),
                }
            }
        } else if k@ == "modifiers"@ {
            if modifiers is Some {
                Err(SchemaValidationErrorView::DuplicateField("modifiers"@))
            } else {
                match v {
                    DocValue::Array(items) => match decode_reg_items_spec(items@) {
                        Ok(mods) => scan_leaf(pairs.skip(1), leaf, subleaf, flags, Some(mods)),
                        Err(e) => Err(e),
                    },
                    _ => Err(SchemaValidationErrorView::InvalidType("modifiers"@)),
                }
            }
        } else {
            Err(SchemaValidationErrorView::UnknownField(k@))
        }
    }
}

/// What decoding a CPUID leaf modifier node returns.
pub open spec fn decode_leaf_spec(d: DocValue) -> Result<
    CpuidLeafModifierView,
    SchemaValidationErrorView,
> {
    match d {
        DocValue::Object(pairs) => scan_leaf(pairs@, None, None, None, None),
        _ => Err(SchemaValidationErrorView::InvalidType("cpuid modifier"@)),
    }
}

/// What decoding a list of CPUID leaf modifier nodes returns.
pub open spec fn decode_leaf_items_spec(items: Seq<DocValue>) -> Result<
    Seq<CpuidLeafModifierView>,
    SchemaValidationErrorView,
>
    decreases items.len(),
{
    if items.len() == 0 {
        Ok(Seq::empty())
    } else {
        match decode_leaf_spec(items[0]) {
            Err(e) => Err(e),
            Ok(m) => match decode_leaf_items_spec(items.skip(1)) {
                Err(e) => Err(e),
                Ok(rest) => Ok(seq![m] + rest),
            },
        }
    }
}

/// Walks the fields of an MSR modifier object in document order.
pub open spec fn scan_msr(
    pairs: Seq<DocField>,
    addr: Option<u32>,
    bitmap: Option<RegisterValueFilter>,
) -> Result<RegisterModifier, SchemaValidationErrorView>
    decreases pairs.len(),
{
    if pairs.len() == 0 {
        if addr is None {
            Err(SchemaValidationErrorView::MissingField("addr"@))
        } else if bitmap is None {
            Err(SchemaValidationErrorView::MissingField("bitmap"@))
        } else {
            Ok(RegisterModifier { addr: addr->Some_0, bitmap: bitmap->Some_0 })
        }
    } else {
        let k = pairs[0].name;
        let v = pairs[0].value;
        if k@ == "addr"@ {
            if addr is Some {
                Err(SchemaValidationErrorView::DuplicateField("addr"@))
            } else {
                match v {
                    DocValue::Text(s) => match parse_u32_spec(s@) {
                        Ok(n) => scan_msr(pairs.skip(1), Some(n), bitmap),
                        Err(kind) => Err(
                            SchemaValidationErrorView::Number(
                                NumberParseErrorView { text: s@, kind },
                            ),
                        ),
                    },
                    _ => Err(SchemaValidationErrorView::InvalidType("addr"@)),
                }
            }
        } else if k@ == "bitmap"@ {
            if bitmap is Some {
                Err(SchemaValidationErrorView::DuplicateField("bitmap"@))
            } else {
                match v {
                    DocValue::Text(s) => match decode_bitmap_spec(strip_bitmap_prefix(s@)) {
                        Ok(fv) => scan_msr(pairs.skip(1), addr, Some(fv)),
                        Err(kind) => Err(
                            SchemaValidationErrorView::Bitmap(
                                BitmapParseErrorView { text: strip_bitmap_prefix(s@), kind },
                            ),
                        ),
                    },
                    _ => Err(SchemaValidationErrorView::InvalidType("bitmap"@)),
                }
            }
        } else {
            Err(SchemaValidationErrorView::UnknownField(k@))
        }
    }
}

/// What decoding an MSR modifier node returns.
pub open spec fn decode_msr_spec(d: DocValue) -> Result<
    RegisterModifier,
    SchemaValidationErrorView,
> {
    match d {
        DocValue::Object(pairs) => scan_msr(pairs@, None, None),
        _ => Err(SchemaValidationErrorView::InvalidType("msr modifier"@)),
    }
}

/// What decoding a list of MSR modifier nodes returns.
pub open spec fn decode_msr_items_spec(items: Seq<DocValue>) -> Result<
    Seq<RegisterModifier>,
    SchemaValidationErrorView,
>
    decreases items.len(),
{
    if items.len() == 0 {
        Ok(Seq::empty())
    } else {
        match decode_msr_spec(items[0]) {
            Err(e) => Err(e),
            Ok(m) => match decode_msr_items_spec(items.skip(1)) {
                Err(e) => Err(e),
                Ok(rest) => Ok(seq![m] + rest),
            },
        }
    }
}

/// Walks the fields of the top-level template object in document order.
/// Either list may be absent and defaults to empty.
pub open spec fn scan_template(
    pairs: Seq<DocField>,
    cpuid: Option<Seq<CpuidLeafModifierView>>,
    msr: Option<Seq<RegisterModifier>>,
) -> Result<CustomCpuTemplateView, SchemaValidationErrorView>
    decreases pairs.len(),
{
    if pairs.len() == 0 {
        Ok(
            CustomCpuTemplateView {
                cpuid_modifiers: match cpuid {
                    Some(s) => s,
                    None => Seq::empty(),
                },
                msr_modifiers: match msr {
                    Some(s) => s,
                    None => Seq::empty(),
                },
            },
        )
    } else {
        let k = pairs[0].name;
        let v = pairs[0].value;
        if k@ == "cpuid_modifiers"@ {
            if cpuid is Some {
                Err(SchemaValidationErrorView::DuplicateField("cpuid_modifiers"@))
            } else {
                match v {
                    DocValue::Array(items) => match decode_leaf_items_spec(items@) {
                        Ok(mods) => scan_template(pairs.skip(1), Some(mods), msr),
                        Err(e) => Err(e),
                    },
                    _ => Err(SchemaValidationErrorView::InvalidType("cpuid_modifiers"@)),
                }
            }
        } else if k@ == "msr_modifiers"@ {
            if msr is Some {
                Err(SchemaValidationErrorView::DuplicateField("msr_modifiers"@))
            } else {
                match v {
                    DocValue::Array(items) => match decode_msr_items_spec(items@) {
                        Ok(mods) => scan_template(pairs.skip(1), cpuid, Some(mods)),
                        Err(e) => Err(e),
                    },
                    _ => Err(SchemaValidationErrorView::InvalidType("msr_modifiers"@)),
                }
            }
        } else {
            Err(SchemaValidationErrorView::UnknownField(k@))
        }
    }
}

/// What decoding a template document returns.
pub open spec fn decode_template_spec(d: DocValue) -> Result<
    CustomCpuTemplateView,
    SchemaValidationErrorView,
> {
    match d {
        DocValue::Object(pairs) => scan_template(pairs@, None, None),
        _ => Err(SchemaValidationErrorView::InvalidType("custom CPU template"@)),
    }
}

/// Whether the characters of `a` and `b` are the same.
pub fn str_eq(a: &str, b: &str) -> (r: bool)
    ensures
        r == (a@ == b@),
{
    let la = a.unicode_len();
    let lb = b.unicode_len();
    if la != lb {
        return false;
    }
    let mut i: usize = 0;
    while i < la
        invariant
            i <= la,
            la == a@.len(),
            la == b@.len(),
            forall|j: int| 0 <= j < i ==> a@[j] == b@[j],
        decreases la - i,
    {
        if a.get_char(i) != b.get_char(i) {
            return false;
        }
        i += 1;
    }
    proof {
        assert(a@ =~= b@);
    }
    true
}

/// Decodes a register modifier object, strictly.
pub fn decode_register_modifier(d: &DocValue) -> (r: Result<
    CpuidRegisterModifier,
    SchemaValidationError,
>)
    ensures
        match r {
            Ok(m) => decode_reg_spec(*d) == Ok::<CpuidRegisterModifier, SchemaValidationErrorView>(
                m,
            ),
            Err(e) => decode_reg_spec(*d) == Err::<
                CpuidRegisterModifier,
                SchemaValidationErrorView,
            >(e@),
        },
{
    match d {
        DocValue::Object(pairs) => {
            let mut register: Option<CpuidRegister> = None;
            let mut bitmap: Option<RegisterValueFilter> = None;
            let mut i: usize = 0;
            proof {
                assert(pairs@.skip(0) =~= pairs@);
            }
            while i < pairs.len()
                invariant
                    i <= pairs@.len(),
                    *d == DocValue::Object(*pairs),
                    scan_reg(pairs@, None, None) == scan_reg(
                        pairs@.skip(i as int),
                        register,
                        bitmap,
                    ),
                decreases pairs@.len() - i,
            {
                proof {
                    assert(pairs@.skip(i as int)[0] == pairs@[i as int]);
                    assert(pairs@.skip(i as int).skip(1) =~= pairs@.skip(i as int + 1));
                }
                let pair = &pairs[i];
                if str_eq(pair.name.as_str(), "register") {
                    if register.is_some() {
                        return Err(
                            SchemaValidationError::DuplicateField("register".to_owned()),
                        );
                    }
                    match &pair.value {
                        DocValue::Text(s) => {
                            if str_eq(s.as_str(), "eax") {
                                register = Some(CpuidRegister::Eax);
                            } else if str_eq(s.as_str(), "ebx") {
                                register = Some(CpuidRegister::Ebx);
                            } else if str_eq(s.as_str(), "ecx") {
                                register = Some(CpuidRegister::Ecx);
                            } else if str_eq(s.as_str(), "edx") {
                                register = Some(CpuidRegister::Edx);
                            } else {
                                return Err(SchemaValidationError::InvalidRegister);
                            }
                        },
                        _ => {
                            return Err(SchemaValidationError::InvalidType("register".to_owned()));
                        },
                    }
                } else if str_eq(pair.name.as_str(), "bitmap") {
                    if bitmap.is_some() {
                        return Err(SchemaValidationError::DuplicateField("bitmap".to_owned()));
                    }
                    match &pair.value {
                        DocValue::Text(s) => match decode_bitmap(s.as_str()) {
                            Ok(fv) => {
                                bitmap = Some(fv);
                            },
                            Err(e) => {
                                return Err(SchemaValidationError::Bitmap(e));
                            },
                        },
                        _ => {
                            return Err(SchemaValidationError::InvalidType("bitmap".to_owned()));
                        },
                    }
                } else {
                    return Err(SchemaValidationError::UnknownField(pair.name.clone()));
                }
                i += 1;
            }
            proof {
                assert(pairs@.skip(pairs@.len() as int) =~= Seq::<DocField>::empty());
            }
            match (register, bitmap) {
                (Some(reg), Some(fv)) => Ok(CpuidRegisterModifier { register: reg, bitmap: fv }),
                (None, _) => Err(SchemaValidationError::MissingField("register".to_owned())),
                (_, None) => Err(SchemaValidationError::MissingField("bitmap".to_owned())),
            }
        },
        _ => Err(SchemaValidationError::InvalidType("register modifier".to_owned())),
    }
}

/// Decodes a list of register modifier objects, from `start` on.
fn decode_reg_items(items: &Vec<DocValue>, start: usize) -> (r: Result<
    Vec<CpuidRegisterModifier>,
    SchemaValidationError,
>)
    requires
        start <= items@.len(),
    ensures
        match r {
            Ok(v) => decode_reg_items_spec(items@.skip(start as int)) == Ok::<
                Seq<CpuidRegisterModifier>,
                SchemaValidationErrorView,
            >(v@),
            Err(e) => decode_reg_items_spec(items@.skip(start as int)) == Err::<
                Seq<CpuidRegisterModifier>,
                SchemaValidationErrorView,
            >(e@),
        },
    decreases items@.len() - start,
{
    if start == items.len() {
        proof {
            assert(items@.skip(start as int) =~= Seq::<DocValue>::empty());
        }
        return Ok(Vec::new());
    }
    proof {
        assert(items@.skip(start as int)[0] == items@[start as int]);
        assert(items@.skip(start as int).skip(1) =~= items@.skip(start as int + 1));
    }
    match decode_register_modifier(&items[start]) {
        Err(e) => Err(e),
        Ok(m) => match decode_reg_items(items, start + 1) {
            Err(e) => Err(e),
            Ok(mut rest) => {
                let ghost rest0 = rest@;
                rest.insert(0, m);
                proof {
                    assert(rest@ =~= seq![m] + rest0);
                }
                Ok(rest)
            },
        },
    }
}

/// Decodes a CPUID leaf modifier object, strictly.
pub fn decode_leaf_modifier(d: &DocValue) -> (r: Result<CpuidLeafModifier, SchemaValidationError>)
    ensures
        match r {
            Ok(m) => decode_leaf_spec(*d) == Ok::<CpuidLeafModifierView, SchemaValidationErrorView>(
                m@,
            ),
            Err(e) => decode_leaf_spec(*d) == Err::<
                CpuidLeafModifierView,
                SchemaValidationErrorView,
            >(e@),
        },
{
    match d {
        DocValue::Object(pairs) => {
            let mut leaf: Option<u32> = None;
            let mut subleaf: Option<u32> = None;
            let mut flags: Option<u32> = None;
            let mut modifiers: Option<Vec<CpuidRegisterModifier>> = None;
            let mut i: usize = 0;
            proof {
                assert(pairs@.skip(0) =~= pairs@);
            }
            while i < pairs.len()
                invariant
                    i <= pairs@.len(),
                    *d == DocValue::Object(*pairs),
                    scan_leaf(pairs@, None, None, None, None) == scan_leaf(
                        pairs@.skip(i as int),
                        leaf,
                        subleaf,
                        flags,
                        match modifiers {
                            Some(v) => Some(v@),
                            None => None,
                        },
                    ),
                decreases pairs@.len() - i,
            {
                proof {
                    assert(pairs@.skip(i as int)[0] == pairs@[i as int]);
                    assert(pairs@.skip(i as int).skip(1) =~= pairs@.skip(i as int + 1));
                }
                let pair = &pairs[i];
                if str_eq(pair.name.as_str(), "leaf") {
                    if leaf.is_some() {
                        return Err(SchemaValidationError::DuplicateField("leaf".to_owned()));
                    }
                    match &pair.value {
                        DocValue::Text(s) => match parse_u32(s.as_str()) {
                            Ok(n) => {
                                leaf = Some(n);
                            },
                            Err(e) => {
                                return Err(SchemaValidationError::Number(e));
                            },
                        },
                        _ => {
                            return Err(SchemaValidationError::InvalidType("leaf".to_owned()));
                        },
                    }
                } else if str_eq(pair.name.as_str(), "subleaf") {
                    if subleaf.is_some() {
                        return Err(SchemaValidationError::DuplicateField("subleaf".to_owned()));
                    }
                    match &pair.value {
                        DocValue::Text(s) => match parse_u32(s.as_str()) {
                            Ok(n) => {
                                subleaf = Some(n);
                            },
                            Err(e) => {
                                return Err(SchemaValidationError::Number(e));
                            },
                        },
                        _ => {
                            return Err(SchemaValidationError::InvalidType("subleaf".to_owned()));
                        },
                    }
                } else if str_eq(pair.name.as_str(), "flags") {
                    if flags.is_some() {
                        return Err(SchemaValidationError::DuplicateField("flags".to_owned()));
                    }
                    match &pair.value {
                        DocValue::Number(n) => {
                            if *n <= 0xffff_ffff {
                                flags = Some(*n as u32);
                            } else {
                                return Err(SchemaValidationError::InvalidType("flags".to_owned()));
                            }
                        },
                        _ => {
                            return Err(SchemaValidationError::InvalidType("flags".to_owned()));
                        },
                    }
                } else if str_eq(pair.name.as_str(), "modifiers") {
                    if modifiers.is_some() {
                        return Err(SchemaValidationError::DuplicateField("modifiers".to_owned()));
                    }
                    match &pair.value {
                        DocValue::Array(items) => {
                            proof {
                                assert(items@.skip(0) =~= items@);
                            }
                            match decode_reg_items(items, 0) {
                                Ok(mods) => {
                                    modifiers = Some(mods);
                                },
                                Err(e) => {
                                    return Err(e);
                                },
                            }
                        },
                        _ => {
                            return Err(SchemaValidationError::InvalidType("modifiers".to_owned()));
                        },
                    }
                } else {
                    return Err(SchemaValidationError::UnknownField(pair.name.clone()));
                }
                i += 1;
            }
            proof {
                assert(pairs@.skip(pairs@.len() as int) =~= Seq::<DocField>::empty());
            }
            let leaf = match leaf {
                Some(n) => n,
                None => {
                    return Err(SchemaValidationError::MissingField("leaf".to_owned()));
                },
            };
            let subleaf = match subleaf {
                Some(n) => n,
                None => {
                    return Err(SchemaValidationError::MissingField("subleaf".to_owned()));
                },
            };
            let flags = match flags {
                Some(n) => n,
                None => {
                    return Err(SchemaValidationError::MissingField("flags".to_owned()));
                },
            };
            let modifiers = match modifiers {
                Some(v) => v,
                None => {
                    return Err(SchemaValidationError::MissingField("modifiers".to_owned()));
                },
            };
            Ok(CpuidLeafModifier { leaf, subleaf, flags: KvmCpuidFlags(flags), modifiers })
        },
        _ => Err(SchemaValidationError::InvalidType("cpuid modifier".to_owned())),
    }
}

/// Decodes a list of CPUID leaf modifier objects, from `start` on.
fn decode_leaf_items(items: &Vec<DocValue>, start: usize) -> (r: Result<
    Vec<CpuidLeafModifier>,
    SchemaValidationError,
>)
    requires
        start <= items@.len(),
    ensures
        match r {
            Ok(v) => decode_leaf_items_spec(items@.skip(start as int)) == Ok::<
                Seq<CpuidLeafModifierView>,
                SchemaValidationErrorView,
            >(v@.map_values(|m: CpuidLeafModifier| m@)),
            Err(e) => decode_leaf_items_spec(items@.skip(start as int)) == Err::<
                Seq<CpuidLeafModifierView>,
                SchemaValidationErrorView,
            >(e@),
        },
    decreases items@.len() - start,
{
    if start == items.len() {
        proof {
            assert(items@.skip(start as int) =~= Seq::<DocValue>::empty());
            assert(Seq::<CpuidLeafModifier>::empty().map_values(|m: CpuidLeafModifier| m@)
                =~= Seq::<CpuidLeafModifierView>::empty());
        }
        return Ok(Vec::new());
    }
    proof {
        assert(items@.skip(start as int)[0] == items@[start as int]);
        assert(items@.skip(start as int).skip(1) =~= items@.skip(start as int + 1));
    }
    match decode_leaf_modifier(&items[start]) {
        Err(e) => Err(e),
        Ok(m) => match decode_leaf_items(items, start + 1) {
            Err(e) => Err(e),
            Ok(mut rest) => {
                let ghost rest0 = rest@;
                rest.insert(0, m);
                proof {
                    assert(rest@.map_values(|x: CpuidLeafModifier| x@) =~= seq![m@]
                        + rest0.map_values(|x: CpuidLeafModifier| x@));
                }
                Ok(rest)
            },
        },
    }
}

/// Decodes an MSR modifier object, strictly.
pub fn decode_msr_modifier(d: &DocValue) -> (r: Result<RegisterModifier, SchemaValidationError>)
    ensures
        match r {
            Ok(m) => decode_msr_spec(*d) == Ok::<RegisterModifier, SchemaValidationErrorView>(m),
            Err(e) => decode_msr_spec(*d) == Err::<RegisterModifier, SchemaValidationErrorView>(
                e@,
            ),
        },
{
    match d {
        DocValue::Object(pairs) => {
            let mut addr: Option<u32> = None;
            let mut bitmap: Option<RegisterValueFilter> = None;
            let mut i: usize = 0;
            proof {
                assert(pairs@.skip(0) =~= pairs@);
            }
            while i < pairs.len()
                invariant
                    i <= pairs@.len(),
                    *d == DocValue::Object(*pairs),
                    scan_msr(pairs@, None, None) == scan_msr(pairs@.skip(i as int), addr, bitmap),
                decreases pairs@.len() - i,
            {
                proof {
                    assert(pairs@.skip(i as int)[0] == pairs@[i as int]);
                    assert(pairs@.skip(i as int).skip(1) =~= pairs@.skip(i as int + 1));
                }
                let pair = &pairs[i];
                if str_eq(pair.name.as_str(), "addr") {
                    if addr.is_some() {
                        return Err(SchemaValidationError::DuplicateField("addr".to_owned()));
                    }
                    match &pair.value {
                        DocValue::Text(s) => match parse_u32(s.as_str()) {
                            Ok(n) => {
                                addr = Some(n);
                            },
                            Err(e) => {
                                return Err(SchemaValidationError::Number(e));
                            },
                        },
                        _ => {
                            return Err(SchemaValidationError::InvalidType("addr".to_owned()));
                        },
                    }
                } else if str_eq(pair.name.as_str(), "bitmap") {
                    if bitmap.is_some() {
                        return Err(SchemaValidationError::DuplicateField("bitmap".to_owned()));
                    }
                    match &pair.value {
                        DocValue::Text(s) => match decode_bitmap(s.as_str()) {
                            Ok(fv) => {
                                bitmap = Some(fv);
                            },
                            Err(e) => {
                                return Err(SchemaValidationError::Bitmap(e));
                            },
                        },
                        _ => {
                            return Err(SchemaValidationError::InvalidType("bitmap".to_owned()));
                        },
                    }
                } else {
                    return Err(SchemaValidationError::UnknownField(pair.name.clone()));
                }
                i += 1;
            }
            proof {
                assert(pairs@.skip(pairs@.len() as int) =~= Seq::<DocField>::empty());
            }
            match (addr, bitmap) {
                (Some(a), Some(fv)) => Ok(RegisterModifier { addr: a, bitmap: fv }),
                (None, _) => Err(SchemaValidationError::MissingField("addr".to_owned())),
                (_, None) => Err(SchemaValidationError::MissingField("bitmap".to_owned())),
            }
        },
        _ => Err(SchemaValidationError::InvalidType("msr modifier".to_owned())),
    }
}

/// Decodes a list of MSR modifier objects, from `start` on.
fn decode_msr_items(items: &Vec<DocValue>, start: usize) -> (r: Result<
    Vec<RegisterModifier>,
    SchemaValidationError,
>)
    requires
        start <= items@.len(),
    ensures
        match r {
            Ok(v) => decode_msr_items_spec(items@.skip(start as int)) == Ok::<
                Seq<RegisterModifier>,
                SchemaValidationErrorView,
            >(v@),
            Err(e) => decode_msr_items_spec(items@.skip(start as int)) == Err::<
                Seq<RegisterModifier>,
                SchemaValidationErrorView,
            >(e@),
        },
    decreases items@.len() - start,
{
    if start == items.len() {
        proof {
            assert(items@.skip(start as int) =~= Seq::<DocValue>::empty());
        }
        return Ok(Vec::new());
    }
    proof {
        assert(items@.skip(start as int)[0] == items@[start as int]);
        assert(items@.skip(start as int).skip(1) =~= items@.skip(start as int + 1));
    }
    match decode_msr_modifier(&items[start]) {
        Err(e) => Err(e),
        Ok(m) => match decode_msr_items(items, start + 1) {
            Err(e) => Err(e),
            Ok(mut rest) => {
                let ghost rest0 = rest@;
                rest.insert(0, m);
                proof {
                    assert(rest@ =~= seq![m] + rest0);
                }
                Ok(rest)
            },
        },
    }
}

/// Decodes a template document, strictly: both modifier lists default to
/// empty, every other irregularity is rejected with the first problem
/// found in document order.
pub fn decode_template(d: &DocValue) -> (r: Result<CustomCpuTemplate, SchemaValidationError>)
    ensures
        match r {
            Ok(t) => decode_template_spec(*d) == Ok::<
                CustomCpuTemplateView,
                SchemaValidationErrorView,
            >(t@),
            Err(e) => decode_template_spec(*d) == Err::<
                CustomCpuTemplateView,
                SchemaValidationErrorView,
            >(e@),
        },
{
    match d {
        DocValue::Object(pairs) => {
            let mut cpuid: Option<Vec<CpuidLeafModifier>> = None;
            let mut msr: Option<Vec<RegisterModifier>> = None;
            let mut i: usize = 0;
            proof {
                assert(pairs@.skip(0) =~= pairs@);
            }
            while i < pairs.len()
                invariant
                    i <= pairs@.len(),
                    *d == DocValue::Object(*pairs),
                    scan_template(pairs@, None, None) == scan_template(
                        pairs@.skip(i as int),
                        match cpuid {
                            Some(v) => Some(v@.map_values(|m: CpuidLeafModifier| m@)),
                            None => None,
                        },
                        match msr {
                            Some(v) => Some(v@),
                            None => None,
                        },
                    ),
                decreases pairs@.len() - i,
            {
                proof {
                    assert(pairs@.skip(i as int)[0] == pairs@[i as int]);
                    assert(pairs@.skip(i as int).skip(1) =~= pairs@.skip(i as int + 1));
                }
                let pair = &pairs[i];
                if str_eq(pair.name.as_str(), "cpuid_modifiers") {
                    if cpuid.is_some() {
                        return Err(
                            SchemaValidationError::DuplicateField("cpuid_modifiers".to_owned()),
                        );
                    }
                    match &pair.value {
                        DocValue::Array(items) => {
                            proof {
                                assert(items@.skip(0) =~= items@);
                            }
                            match decode_leaf_items(items, 0) {
                                Ok(mods) => {
                                    cpuid = Some(mods);
                                },
                                Err(e) => {
                                    return Err(e);
                                },
                            }
                        },
                        _ => {
                            return Err(
                                SchemaValidationError::InvalidType("cpuid_modifiers".to_owned()),
                            );
                        },
                    }
                } else if str_eq(pair.name.as_str(), "msr_modifiers") {
                    if msr.is_some() {
                        return Err(
                            SchemaValidationError::DuplicateField("msr_modifiers".to_owned()),
                        );
                    }
                    match &pair.value {
                        DocValue::Array(items) => {
                            proof {
                                assert(items@.skip(0) =~= items@);
                            }
                            match decode_msr_items(items, 0) {
                                Ok(mods) => {
                                    msr = Some(mods);
                                },
                                Err(e) => {
                                    return Err(e);
                                },
                            }
                        },
                        _ => {
                            return Err(
                                SchemaValidationError::InvalidType("msr_modifiers".to_owned()),
                            );
                        },
                    }
                } else {
                    return Err(SchemaValidationError::UnknownField(pair.name.clone()));
                }
                i += 1;
            }
            proof {
                assert(pairs@.skip(pairs@.len() as int) =~= Seq::<DocField>::empty());
            }
            let cpuid_modifiers = match cpuid {
                Some(v) => v,
                None => Vec::new(),
            };
            let msr_modifiers = match msr {
                Some(v) => v,
                None => Vec::new(),
            };
            let t = CustomCpuTemplate { cpuid_modifiers, msr_modifiers };
            proof {
                assert(Seq::<CpuidLeafModifier>::empty().map_values(|m: CpuidLeafModifier| m@)
                    =~= Seq::<CpuidLeafModifierView>::empty());
            }
            Ok(t)
        },
        _ => Err(SchemaValidationError::InvalidType("custom CPU template".to_owned())),
    }
}

impl SchemaValidationError {
    /// The error message for the first problem found in a document.
    pub open spec fn message_spec(&self) -> Seq<char> {
        match self {
            SchemaValidationError::UnknownField(f) => "unknown field `"@ + f@ + "`"@,
            SchemaValidationError::DuplicateField(f) => "duplicate field `"@ + f@ + "`"@,
            SchemaValidationError::MissingField(f) => "missing field `"@ + f@ + "`"@,
            SchemaValidationError::InvalidType(f) => "invalid type for "@ + f@,
            SchemaValidationError::InvalidRegister =>
                "Invalid CPUID register. Must be one of [eax, ebx, ecx, edx]"@,
            SchemaValidationError::Number(e) => e.message_spec(),
            SchemaValidationError::Bitmap(e) => e.message_spec(),
        }
    }

    /// Renders the error message.
    pub fn message(&self) -> (r: String)
        ensures
            r@ == self.message_spec(),
    {
        match self {
            SchemaValidationError::UnknownField(f) => {
                let mut s = String::from_str("unknown field `");
                s.append(f.as_str());
                s.append("`");
                proof {
                    assert(s@ =~= self.message_spec());
                }
                s
            },
            SchemaValidationError::DuplicateField(f) => {
                let mut s = String::from_str("duplicate field `");
                s.append(f.as_str());
                s.append("`");
                proof {
                    assert(s@ =~= self.message_spec());
                }
                s
            },
            SchemaValidationError::MissingField(f) => {
                let mut s = String::from_str("missing field `");
                s.append(f.as_str());
                s.append("`");
                proof {
                    assert(s@ =~= self.message_spec());
                }
                s
            },
            SchemaValidationError::InvalidType(f) => {
                let mut s = String::from_str("invalid type for ");
                s.append(f.as_str());
                proof {
                    assert(s@ =~= self.message_spec());
                }
                s
            },
            SchemaValidationError::InvalidRegister => {
                String::from_str("Invalid CPUID register. Must be one of [eax, ebx, ecx, edx]")
            },
            SchemaValidationError::Number(e) => e.message(),
            SchemaValidationError::Bitmap(e) => e.message(),
        }
    }
}

/// Whether `d` is a text node holding exactly the characters `s`.
pub open spec fn is_text_node(d: DocValue, s: Seq<char>) -> bool {
    match d {
        DocValue::Text(t) => t@ == s,
        _ => false,
    }
}

/// Whether `d` is the encoding of the register modifier `m`: a two-field
/// object with the register name and the 32-bit-wide bitmap text.
pub open spec fn encodes_reg(m: CpuidRegisterModifier, d: DocValue) -> bool {
    match d {
        DocValue::Object(pairs) => {
            &&& pairs@.len() == 2
            &&& pairs@[0].name@ == "register"@
            &&& is_text_node(pairs@[0].value, name_of_register(m.register))
            &&& pairs@[1].name@ == "bitmap"@
            &&& is_text_node(pairs@[1].value, encode_bitmap_spec(m.bitmap, 32))
        },
        _ => false,
    }
}

/// Whether `d` is the encoding of the leaf modifier `m`: a four-field
/// object with hexadecimal leaf and sub-leaf texts, the flags number, and
/// the encoded register modifiers in order.
pub open spec fn encodes_leaf(m: CpuidLeafModifierView, d: DocValue) -> bool {
    match d {
        DocValue::Object(pairs) => {
            &&& pairs@.len() == 4
            &&& pairs@[0].name@ == "leaf"@
            &&& is_text_node(pairs@[0].value, format_u32_spec(m.leaf))
            &&& pairs@[1].name@ == "subleaf"@
            &&& is_text_node(pairs@[1].value, format_u32_spec(m.subleaf))
            &&& pairs@[2].name@ == "flags"@
            &&& pairs@[2].value == DocValue::Number(m.flags.0 as u64)
            &&& pairs@[3].name@ == "modifiers"@
            &&& match pairs@[3].value {
                DocValue::Array(items) => {
                    &&& items@.len() == m.modifiers.len()
                    &&& forall|j: int|
                        0 <= j < items@.len() ==> encodes_reg(m.modifiers[j], #[trigger] items@[j])
                },
                _ => false,
            }
        },
        _ => false,
    }
}

/// Whether `d` is the encoding of the MSR modifier `m`: a two-field object
/// with the hexadecimal address text and the 64-bit-wide bitmap text.
pub open spec fn encodes_msr(m: RegisterModifier, d: DocValue) -> bool {
    match d {
        DocValue::Object(pairs) => {
            &&& pairs@.len() == 2
            &&& pairs@[0].name@ == "addr"@
            &&& is_text_node(pairs@[0].value, format_u32_spec(m.addr))
            &&& pairs@[1].name@ == "bitmap"@
            &&& is_text_node(pairs@[1].value, encode_bitmap_spec(m.bitmap, 64))
        },
        _ => false,
    }
}

/// Whether `d` is the encoding of the template `t`: a two-field object
/// holding the encoded modifier lists in order.
pub open spec fn encodes_template(t: CustomCpuTemplateView, d: DocValue) -> bool {
    match d {
        DocValue::Object(pairs) => {
            &&& pairs@.len() == 2
            &&& pairs@[0].name@ == "cpuid_modifiers"@
            &&& match pairs@[0].value {
                DocValue::Array(items) => {
                    &&& items@.len() == t.cpuid_modifiers.len()
                    &&& forall|j: int|
                        0 <= j < items@.len() ==> encodes_leaf(
                            t.cpuid_modifiers[j],
                            #[trigger] items@[j],
                        )
                },
                _ => false,
            }
            &&& pairs@[1].name@ == "msr_modifiers"@
            &&& match pairs@[1].value {
                DocValue::Array(items) => {
                    &&& items@.len() == t.msr_modifiers.len()
                    &&& forall|j: int|
                        0 <= j < items@.len() ==> encodes_msr(
                            t.msr_modifiers[j],
                            #[trigger] items@[j],
                        )
                },
                _ => false,
            }
        },
        _ => false,
    }
}

/// The lowercase name of a register, as text.
pub fn register_name(r: CpuidRegister) -> (s: String)
    ensures
        s@ == name_of_register(r),
{
    match r {
        CpuidRegister::Eax => "eax".to_owned(),
        CpuidRegister::Ebx => "ebx".to_owned(),
        CpuidRegister::Ecx => "ecx".to_owned(),
        CpuidRegister::Edx => "edx".to_owned(),
    }
}

/// Encodes a register modifier as a document node, with the bitmap at the
/// 32-bit width of a CPUID register.
pub fn encode_register_modifier(m: &CpuidRegisterModifier) -> (r: DocValue)
    ensures
        encodes_reg(*m, r),
{
    let mut pairs: Vec<DocField> = Vec::new();
    pairs.push(
        DocField { name: "register".to_owned(), value: DocValue::Text(register_name(m.register)) },
    );
    pairs.push(
        DocField { name: "bitmap".to_owned(), value: DocValue::Text(encode_bitmap(m.bitmap, 32)) },
    );
    DocValue::Object(pairs)
}

/// Encodes a CPUID leaf modifier as a document node.
pub fn encode_leaf_modifier(m: &CpuidLeafModifier) -> (r: DocValue)
    ensures
        encodes_leaf(m@, r),
{
    let mut items: Vec<DocValue> = Vec::new();
    let mut i: usize = 0;
    while i < m.modifiers.len()
        invariant
            i <= m.modifiers@.len(),
            items@.len() == i,
            forall|j: int| 0 <= j < i ==> encodes_reg(m.modifiers@[j], #[trigger] items@[j]),
        decreases m.modifiers@.len() - i,
    {
        items.push(encode_register_modifier(&m.modifiers[i]));
        i += 1;
    }
    let mut pairs: Vec<DocField> = Vec::new();
    pairs.push(DocField { name: "leaf".to_owned(), value: DocValue::Text(format_u32(m.leaf)) });
    pairs.push(
        DocField { name: "subleaf".to_owned(), value: DocValue::Text(format_u32(m.subleaf)) },
    );
    pairs.push(DocField { name: "flags".to_owned(), value: DocValue::Number(m.flags.0 as u64) });
    pairs.push(DocField { name: "modifiers".to_owned(), value: DocValue::Array(items) });
    DocValue::Object(pairs)
}

/// Encodes an MSR modifier as a document node, with the bitmap at the
/// 64-bit width of a model-specific register.
pub fn encode_msr_modifier(m: &RegisterModifier) -> (r: DocValue)
    ensures
        encodes_msr(*m, r),
{
    let mut pairs: Vec<DocField> = Vec::new();
    pairs.push(DocField { name: "addr".to_owned(), value: DocValue::Text(format_u32(m.addr)) });
    pairs.push(
        DocField { name: "bitmap".to_owned(), value: DocValue::Text(encode_bitmap(m.bitmap, 64)) },
    );
    DocValue::Object(pairs)
}

/// Encodes a template as a document: both modifier lists are always
/// written, in declaration order.
pub fn encode_template(t: &CustomCpuTemplate) -> (r: DocValue)
    ensures
        encodes_template(t@, r),
{
    let mut leaves: Vec<DocValue> = Vec::new();
    let mut i: usize = 0;
    while i < t.cpuid_modifiers.len()
        invariant
            i <= t.cpuid_modifiers@.len(),
            leaves@.len() == i,
            forall|j: int|
                0 <= j < i ==> encodes_leaf(t.cpuid_modifiers@[j]@, #[trigger] leaves@[j]),
        decreases t.cpuid_modifiers@.len() - i,
    {
        leaves.push(encode_leaf_modifier(&t.cpuid_modifiers[i]));
        i += 1;
    }
    let mut msrs: Vec<DocValue> = Vec::new();
    let mut i: usize = 0;
    while i < t.msr_modifiers.len()
        invariant
            i <= t.msr_modifiers@.len(),
            msrs@.len() == i,
            forall|j: int| 0 <= j < i ==> encodes_msr(t.msr_modifiers@[j], #[trigger] msrs@[j]),
        decreases t.msr_modifiers@.len() - i,
    {
        msrs.push(encode_msr_modifier(&t.msr_modifiers[i]));
        i += 1;
    }
    let mut pairs: Vec<DocField> = Vec::new();
    pairs.push(DocField { name: "cpuid_modifiers".to_owned(), value: DocValue::Array(leaves) });
    pairs.push(DocField { name: "msr_modifiers".to_owned(), value: DocValue::Array(msrs) });
    DocValue::Object(pairs)
}

/// Whether every bitmap of the leaf modifier fits the 32-bit register
/// width.  The decoder only ever builds such modifiers.
pub open spec fn leaf_wf(m: CpuidLeafModifierView) -> bool {
    forall|j: int| 0 <= j < m.modifiers.len() ==> fv_fits((#[trigger] m.modifiers[j]).bitmap, 32)
}

/// Whether every bitmap of the template fits its register width: 32 bits
/// for CPUID registers, 64 bits for model-specific registers.  The decoder
/// only ever builds such templates.
pub open spec fn template_wf(t: CustomCpuTemplateView) -> bool {
    &&& forall|i: int| 0 <= i < t.cpuid_modifiers.len() ==> leaf_wf(#[trigger] t.cpuid_modifiers[i])
    &&& forall|i: int|
        0 <= i < t.msr_modifiers.len() ==> fv_fits((#[trigger] t.msr_modifiers[i]).bitmap, 64)
}

/// Decoding the encoding of a register modifier returns the modifier.
proof fn lemma_reg_round_trip(m: CpuidRegisterModifier, d: DocValue)
    requires
        encodes_reg(m, d),
        fv_fits(m.bitmap, 32),
    ensures
        decode_reg_spec(d) == Ok::<CpuidRegisterModifier, SchemaValidationErrorView>(m),
{
    reveal_with_fuel(scan_reg, 4);
    reveal_strlit("register");
    reveal_strlit("bitmap");
    reveal_strlit("eax");
    reveal_strlit("ebx");
    reveal_strlit("ecx");
    reveal_strlit("edx");
    let pairs = d->Object_0;
    assert("register"@.len() == 8);
    assert("bitmap"@.len() == 6);
    assert("eax"@[1] == 'a' && "ebx"@[1] == 'b' && "ecx"@[1] == 'c' && "edx"@[1] == 'd');
    assert(register_of_name(name_of_register(m.register)) == Some(m.register));
    lemma_bitmap_round_trip(m.bitmap, 32);
    assert(pairs@.skip(1)[0] == pairs@[1]);
    assert(pairs@.skip(1).skip(1) =~= Seq::<DocField>::empty());
    assert(m == CpuidRegisterModifier { register: m.register, bitmap: m.bitmap });
}

/// Decoding the encodings of a list of register modifiers returns the list.
proof fn lemma_reg_items_round_trip(ms: Seq<CpuidRegisterModifier>, items: Seq<DocValue>)
    requires
        items.len() == ms.len(),
        forall|j: int| 0 <= j < items.len() ==> encodes_reg(ms[j], #[trigger] items[j]),
        forall|j: int| 0 <= j < ms.len() ==> fv_fits((#[trigger] ms[j]).bitmap, 32),
    ensures
        decode_reg_items_spec(items) == Ok::<Seq<CpuidRegisterModifier>, SchemaValidationErrorView>(
            ms,
        ),
    decreases items.len(),
{
    if items.len() == 0 {
        assert(ms =~= Seq::<CpuidRegisterModifier>::empty());
    } else {
        lemma_reg_round_trip(ms[0], items[0]);
        lemma_reg_items_round_trip(ms.skip(1), items.skip(1));
        assert(seq![ms[0]] + ms.skip(1) =~= ms);
    }
}

/// Decoding the encoding of a CPUID leaf modifier returns the modifier.
proof fn lemma_leaf_round_trip(m: CpuidLeafModifierView, d: DocValue)
    requires
        encodes_leaf(m, d),
        leaf_wf(m),
    ensures
        decode_leaf_spec(d) == Ok::<CpuidLeafModifierView, SchemaValidationErrorView>(m),
{
    reveal_with_fuel(scan_leaf, 6);
    reveal_strlit("leaf");
    reveal_strlit("subleaf");
    reveal_strlit("flags");
    reveal_strlit("modifiers");
    let pairs = d->Object_0;
    assert("leaf"@.len() == 4);
    assert("subleaf"@.len() == 7);
    assert("flags"@.len() == 5);
    assert("modifiers"@.len() == 9);
    lemma_format_parse_round_trip(m.leaf);
    lemma_format_parse_round_trip(m.subleaf);
    let items = pairs@[3].value->Array_0;
    lemma_reg_items_round_trip(m.modifiers, items@);
    assert(pairs@.skip(1)[0] == pairs@[1]);
    assert(pairs@.skip(1).skip(1) =~= pairs@.skip(2));
    assert(pairs@.skip(2)[0] == pairs@[2]);
    assert(pairs@.skip(2).skip(1) =~= pairs@.skip(3));
    assert(pairs@.skip(3)[0] == pairs@[3]);
    assert(pairs@.skip(3).skip(1) =~= Seq::<DocField>::empty());
    assert((m.flags.0 as u64) as u32 == m.flags.0);
    assert(KvmCpuidFlags(m.flags.0) == m.flags);
    assert(m == CpuidLeafModifierView {
        leaf: m.leaf,
        subleaf: m.subleaf,
        flags: m.flags,
        modifiers: m.modifiers,
    });
}

/// Decoding the encodings of a list of CPUID leaf modifiers returns the
/// list.
proof fn lemma_leaf_items_round_trip(ms: Seq<CpuidLeafModifierView>, items: Seq<DocValue>)
    requires
        items.len() == ms.len(),
        forall|j: int| 0 <= j < items.len() ==> encodes_leaf(ms[j], #[trigger] items[j]),
        forall|j: int| 0 <= j < ms.len() ==> leaf_wf(#[trigger] ms[j]),
    ensures
        decode_leaf_items_spec(items) == Ok::<Seq<CpuidLeafModifierView>, SchemaValidationErrorView>(
            ms,
        ),
    decreases items.len(),
{
    if items.len() == 0 {
        assert(ms =~= Seq::<CpuidLeafModifierView>::empty());
    } else {
        lemma_leaf_round_trip(ms[0], items[0]);
        lemma_leaf_items_round_trip(ms.skip(1), items.skip(1));
        assert(seq![ms[0]] + ms.skip(1) =~= ms);
    }
}

/// Decoding the encoding of an MSR modifier returns the modifier.
proof fn lemma_msr_round_trip(m: RegisterModifier, d: DocValue)
    requires
        encodes_msr(m, d),
        fv_fits(m.bitmap, 64),
    ensures
        decode_msr_spec(d) == Ok::<RegisterModifier, SchemaValidationErrorView>(m),
{
    reveal_with_fuel(scan_msr, 4);
    reveal_strlit("addr");
    reveal_strlit("bitmap");
    let pairs = d->Object_0;
    lemma_format_parse_round_trip(m.addr);
    lemma_bitmap_round_trip(m.bitmap, 64);
    assert(pairs@.skip(1)[0] == pairs@[1]);
    assert(pairs@.skip(1).skip(1) =~= Seq::<DocField>::empty());
    assert("addr"@.len() == 4);
    assert("bitmap"@.len() == 6);
    assert(m == RegisterModifier { addr: m.addr, bitmap: m.bitmap });
}

/// Decoding the encodings of a list of MSR modifiers returns the list.
proof fn lemma_msr_items_round_trip(ms: Seq<RegisterModifier>, items: Seq<DocValue>)
    requires
        items.len() == ms.len(),
        forall|j: int| 0 <= j < items.len() ==> encodes_msr(ms[j], #[trigger] items[j]),
        forall|j: int| 0 <= j < ms.len() ==> fv_fits((#[trigger] ms[j]).bitmap, 64),
    ensures
        decode_msr_items_spec(items) == Ok::<Seq<RegisterModifier>, SchemaValidationErrorView>(ms),
    decreases items.len(),
{
    if items.len() == 0 {
        assert(ms =~= Seq::<RegisterModifier>::empty());
    } else {
        lemma_msr_round_trip(ms[0], items[0]);
        lemma_msr_items_round_trip(ms.skip(1), items.skip(1));
        assert(seq![ms[0]] + ms.skip(1) =~= ms);
    }
}

/// Round trip of the template schema: decoding the encoding of a template
/// returns the template, for every template whose bitmaps fit their
/// register widths and assert no bit outside their filters.
pub proof fn lemma_template_round_trip(t: CustomCpuTemplateView, d: DocValue)
    requires
        encodes_template(t, d),
        template_wf(t),
    ensures
        decode_template_spec(d) == Ok::<CustomCpuTemplateView, SchemaValidationErrorView>(t),
{
    reveal_with_fuel(scan_template, 4);
    reveal_strlit("cpuid_modifiers");
    reveal_strlit("msr_modifiers");
    let pairs = d->Object_0;
    assert("cpuid_modifiers"@.len() == 15);
    assert("msr_modifiers"@.len() == 13);
    let leaves = pairs@[0].value->Array_0;
    let msrs = pairs@[1].value->Array_0;
    lemma_leaf_items_round_trip(t.cpuid_modifiers, leaves@);
    lemma_msr_items_round_trip(t.msr_modifiers, msrs@);
    assert(pairs@.skip(1)[0] == pairs@[1]);
    assert(pairs@.skip(1).skip(1) =~= Seq::<DocField>::empty());
    assert(t == CustomCpuTemplateView {
        cpuid_modifiers: t.cpuid_modifiers,
        msr_modifiers: t.msr_modifiers,
    });
}

} // verus!
