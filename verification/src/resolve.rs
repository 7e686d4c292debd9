//! Resolution of a template selector into a concrete template.
//!
//! A configuration names no template, embeds a custom template, or names a
//! built-in template from a fixed catalog.  Resolution is a pure function
//! of the selector and the host facts: the detected vendor (or the failure
//! of that query) and whether the host model generation is at least Cascade
//! Lake.  The caller queries the host and supplies the built-in catalog;
//! this keeps resolution deterministic and checkable for every vendor and
//! model combination.

use vstd::prelude::*;

use crate::template::CustomCpuTemplate;
use crate::template::CustomCpuTemplateView;

verus! {

/// Names of the built-in templates.  `Legacy` is a sentinel retained only
/// for selector compatibility: it stands for "no template selected" in old
/// configurations and never resolves.
#[derive(Debug, Clone, Copy, PartialEq, Eq, Structural)]
pub enum StaticCpuTemplate {
    /// C3 template, for Intel hosts.
    C3,
    /// T2 template, for Intel hosts.
    T2,
    /// T2S template, for Intel hosts.
    T2S,
    /// T2CL template, for Intel hosts at or above Cascade Lake.
    T2CL,
    /// T2A template, for AMD hosts.
    T2A,
    /// The never-resolvable legacy sentinel.
    Legacy,
}

/// A template selector: an embedded custom template, or the name of a
/// built-in one.  "No selection" is the absent selector.
#[derive(Debug, Clone, PartialEq, Eq)]
pub enum CpuTemplateType {
    /// A custom template embedded in the configuration.
    Custom(CustomCpuTemplate),
    /// The name of a built-in template.
    Static(StaticCpuTemplate),
}

/// The processor vendor detected on the host.
#[derive(Debug, Clone, Copy, PartialEq, Eq, Structural)]
pub enum CpuVendor {
    Intel,
    Amd,
    /// Any vendor other than the two the built-in templates know.
    Other,
}

/// The built-in templates, supplied by the embedding's per-architecture
/// catalog.
#[derive(Debug, Clone, PartialEq, Eq)]
pub struct StaticTemplateCatalog {
    pub c3: CustomCpuTemplate,
    pub t2: CustomCpuTemplate,
    pub t2s: CustomCpuTemplate,
    pub t2cl: CustomCpuTemplate,
    pub t2a: CustomCpuTemplate,
}

/// Why a selector failed to resolve.
#[derive(Debug, Clone, PartialEq, Eq)]
pub enum GetCpuTemplateError {
    /// The host vendor query itself failed; carries its message.
    GetCpuVendor(String),
    /// The named template requires another vendor than the host's.
    CpuVendorMismatched,
    /// The named template requires a newer model generation than the host's.
    InvalidCpuModel,
    /// The named template is the legacy sentinel, which never resolves.
    InvalidStaticCpuTemplate(StaticCpuTemplate),
}

/// A resolved template: a reference to the caller's own custom template, or
/// a freshly built value.  Either way the caller treats it as read-only.
#[derive(Debug)]
pub enum ResolvedTemplate<'a> {
    /// The caller-supplied template, unchanged and not copied.
    Borrowed(&'a CustomCpuTemplate),
    /// A freshly constructed template.
    Owned(CustomCpuTemplate),
}

impl<'a> ResolvedTemplate<'a> {
    /// The model of the resolved template, whichever way it is held.
    pub open spec fn view(&self) -> CustomCpuTemplateView {
        match self {
            ResolvedTemplate::Borrowed(t) => t@,
            ResolvedTemplate::Owned(t) => t@,
        }
    }
}

/// Resolves a template selector against the host facts: `vendor` is the
/// outcome of the host vendor query, `cascade_lake_or_newer` the host model
/// fact, and `catalog` the built-in templates.  No selector yields an empty
/// owned template; a custom selector yields a reference to the embedded
/// template with nothing re-validated; a named selector is gated on vendor
/// (and for T2CL on model generation) and yields the catalog template, the
/// legacy sentinel never resolving.
pub fn get_cpu_template<'a>(
    cpu_template: &'a Option<CpuTemplateType>,
    vendor: &Result<CpuVendor, String>,
    cascade_lake_or_newer: bool,
    catalog: &StaticTemplateCatalog,
) -> (r: Result<ResolvedTemplate<'a>, GetCpuTemplateError>)
    ensures
        match cpu_template {
            Option::None => r matches Ok(t) && t matches ResolvedTemplate::Owned(o) && o@
                == CustomCpuTemplateView {
                cpuid_modifiers: Seq::empty(),
                msr_modifiers: Seq::empty(),
            },
            Some(CpuTemplateType::Custom(doc)) => r matches Ok(
                ResolvedTemplate::Borrowed(b),
            ) && b == doc,
            Some(CpuTemplateType::Static(s)) => match vendor {
                Err(cause) => r matches Err(GetCpuTemplateError::GetCpuVendor(c)) && c@ == cause@,
                Ok(v) => match s {
                    StaticCpuTemplate::C3 => if v is Intel {
                        r matches Ok(ResolvedTemplate::Owned(t)) && t@ == catalog.c3@
                    } else {
                        r matches Err(GetCpuTemplateError::CpuVendorMismatched)
                    },
                    StaticCpuTemplate::T2 => if v is Intel {
                        r matches Ok(ResolvedTemplate::Owned(t)) && t@ == catalog.t2@
                    } else {
                        r matches Err(GetCpuTemplateError::CpuVendorMismatched)
                    },
                    StaticCpuTemplate::T2S => if v is Intel {
                        r matches Ok(ResolvedTemplate::Owned(t)) && t@ == catalog.t2s@
                    } else {
                        r matches Err(GetCpuTemplateError::CpuVendorMismatched)
                    },
                    StaticCpuTemplate::T2CL => if !(v is Intel) {
                        r matches Err(GetCpuTemplateError::CpuVendorMismatched)
                    } else if !cascade_lake_or_newer {
                        r matches Err(GetCpuTemplateError::InvalidCpuModel)
                    } else {
                        r matches Ok(ResolvedTemplate::Owned(t)) && t@ == catalog.t2cl@
                    },
                    StaticCpuTemplate::T2A => if v is Amd {
                        r matches Ok(ResolvedTemplate::Owned(t)) && t@ == catalog.t2a@
                    } else {
                        r matches Err(GetCpuTemplateError::CpuVendorMismatched)
                    },
                    StaticCpuTemplate::Legacy => r matches Err(
                        GetCpuTemplateError::InvalidStaticCpuTemplate(StaticCpuTemplate::Legacy),
                    ),
                },
            },
        },
{
    match cpu_template {
        Some(template_type) => match template_type {
            CpuTemplateType::Custom(template) => Ok(ResolvedTemplate::Borrowed(template)),
            CpuTemplateType::Static(template) => {
                let vendor_id = match vendor {
                    Ok(v) => *v,
                    Err(cause) => {
                        return Err(GetCpuTemplateError::GetCpuVendor(cause.clone()));
                    },
                };
                match template {
                    StaticCpuTemplate::C3 => {
                        if vendor_id != CpuVendor::Intel {
                            return Err(GetCpuTemplateError::CpuVendorMismatched);
                        }
                        Ok(ResolvedTemplate::Owned(catalog.c3.clone()))
                    },
                    StaticCpuTemplate::T2 => {
                        if vendor_id != CpuVendor::Intel {
                            return Err(GetCpuTemplateError::CpuVendorMismatched);
                        }
                        Ok(ResolvedTemplate::Owned(catalog.t2.clone()))
                    },
                    StaticCpuTemplate::T2S => {
                        if vendor_id != CpuVendor::Intel {
                            return Err(GetCpuTemplateError::CpuVendorMismatched);
                        }
                        Ok(ResolvedTemplate::Owned(catalog.t2s.clone()))
                    },
                    StaticCpuTemplate::T2CL => {
                        if vendor_id != CpuVendor::Intel {
                            return Err(GetCpuTemplateError::CpuVendorMismatched);
                        } else if !cascade_lake_or_newer {
                            return Err(GetCpuTemplateError::InvalidCpuModel);
                        }
                        Ok(ResolvedTemplate::Owned(catalog.t2cl.clone()))
                    },
                    StaticCpuTemplate::T2A => {
                        if vendor_id != CpuVendor::Amd {
                            return Err(GetCpuTemplateError::CpuVendorMismatched);
                        }
                        Ok(ResolvedTemplate::Owned(catalog.t2a.clone()))
                    },
                    StaticCpuTemplate::Legacy => Err(
                        GetCpuTemplateError::InvalidStaticCpuTemplate(StaticCpuTemplate::Legacy),
                    ),
                }
            },
        },
        Option::None => {
            let t = CustomCpuTemplate::default();
            proof {
                assert(t@.cpuid_modifiers =~= Seq::<crate::template::CpuidLeafModifierView>::empty());
                assert(t@.msr_modifiers =~= Seq::<crate::template::RegisterModifier>::empty());
            }
            Ok(ResolvedTemplate::Owned(t))
        },
    }
}

} // verus!
