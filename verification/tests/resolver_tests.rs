use cpu_template::resolve::get_cpu_template;
use cpu_template::CpuTemplateType;
use cpu_template::CpuVendor;
use cpu_template::CpuidLeafModifier;
use cpu_template::CpuidRegister;
use cpu_template::CpuidRegisterModifier;
use cpu_template::CustomCpuTemplate;
use cpu_template::GetCpuTemplateError;
use cpu_template::KvmCpuidFlags;
use cpu_template::RegisterModifier;
use cpu_template::RegisterValueFilter;
use cpu_template::ResolvedTemplate;
use cpu_template::StaticCpuTemplate;
use cpu_template::StaticTemplateCatalog;

/// A small distinguishable template, so that tests can tell which catalog
/// entry a resolution returned.
fn marked_template(mark: u32) -> CustomCpuTemplate {
    CustomCpuTemplate {
        cpuid_modifiers: vec![CpuidLeafModifier {
            leaf: mark,
            subleaf: 0,
            flags: KvmCpuidFlags(0),
            modifiers: vec![CpuidRegisterModifier {
                register: CpuidRegister::Eax,
                bitmap: RegisterValueFilter { filter: 0b11, value: 0b01 },
            }],
        }],
        msr_modifiers: vec![RegisterModifier {
            addr: mark,
            bitmap: RegisterValueFilter { filter: 0b11, value: 0b10 },
        }],
    }
}

fn catalog() -> StaticTemplateCatalog {
    StaticTemplateCatalog {
        c3: marked_template(3),
        t2: marked_template(2),
        t2s: marked_template(20),
        t2cl: marked_template(21),
        t2a: marked_template(22),
    }
}

fn owned(r: Result<ResolvedTemplate<'_>, GetCpuTemplateError>) -> CustomCpuTemplate {
    match r.unwrap() {
        ResolvedTemplate::Owned(t) => t,
        ResolvedTemplate::Borrowed(_) => panic!("expected an owned template"),
    }
}

#[test]
fn test_get_cpu_template_with_no_template() {
    // With no selector the resolver returns the empty owned template,
    // whatever the host looks like.
    let cpu_template: Option<CpuTemplateType> = None;
    let t = owned(get_cpu_template(&cpu_template, &Ok(CpuVendor::Other), false, &catalog()));
    assert_eq!(t, CustomCpuTemplate::default());
}

#[test]
fn test_get_cpu_template_with_c3_static_template() {
    let cpu_template = Some(CpuTemplateType::Static(StaticCpuTemplate::C3));
    let t = owned(get_cpu_template(&cpu_template, &Ok(CpuVendor::Intel), false, &catalog()));
    assert_eq!(t, catalog().c3);
    assert_eq!(
        get_cpu_template(&cpu_template, &Ok(CpuVendor::Amd), false, &catalog()).unwrap_err(),
        GetCpuTemplateError::CpuVendorMismatched,
    );
}

#[test]
fn test_get_cpu_template_with_t2_static_template() {
    let cpu_template = Some(CpuTemplateType::Static(StaticCpuTemplate::T2));
    let t = owned(get_cpu_template(&cpu_template, &Ok(CpuVendor::Intel), false, &catalog()));
    assert_eq!(t, catalog().t2);
    assert_eq!(
        get_cpu_template(&cpu_template, &Ok(CpuVendor::Amd), false, &catalog()).unwrap_err(),
        GetCpuTemplateError::CpuVendorMismatched,
    );
}

#[test]
fn test_get_cpu_template_with_t2s_static_template() {
    let cpu_template = Some(CpuTemplateType::Static(StaticCpuTemplate::T2S));
    let t = owned(get_cpu_template(&cpu_template, &Ok(CpuVendor::Intel), false, &catalog()));
    assert_eq!(t, catalog().t2s);
    assert_eq!(
        get_cpu_template(&cpu_template, &Ok(CpuVendor::Other), false, &catalog()).unwrap_err(),
        GetCpuTemplateError::CpuVendorMismatched,
    );
}

#[test]
fn test_get_cpu_template_with_t2cl_static_template() {
    let cpu_template = Some(CpuTemplateType::Static(StaticCpuTemplate::T2CL));
    // Intel at or above Cascade Lake resolves.
    let t = owned(get_cpu_template(&cpu_template, &Ok(CpuVendor::Intel), true, &catalog()));
    assert_eq!(t, catalog().t2cl);
    // Intel below Cascade Lake is an invalid model.
    assert_eq!(
        get_cpu_template(&cpu_template, &Ok(CpuVendor::Intel), false, &catalog()).unwrap_err(),
        GetCpuTemplateError::InvalidCpuModel,
    );
    // Another vendor is a mismatch, whatever the model.
    assert_eq!(
        get_cpu_template(&cpu_template, &Ok(CpuVendor::Amd), true, &catalog()).unwrap_err(),
        GetCpuTemplateError::CpuVendorMismatched,
    );
}

#[test]
fn test_get_cpu_template_with_t2a_static_template() {
    let cpu_template = Some(CpuTemplateType::Static(StaticCpuTemplate::T2A));
    let t = owned(get_cpu_template(&cpu_template, &Ok(CpuVendor::Amd), false, &catalog()));
    assert_eq!(t, catalog().t2a);
    assert_eq!(
        get_cpu_template(&cpu_template, &Ok(CpuVendor::Intel), false, &catalog()).unwrap_err(),
        GetCpuTemplateError::CpuVendorMismatched,
    );
}

#[test]
fn test_get_cpu_template_with_none_static_template() {
    // The legacy sentinel never resolves, on any host.
    let cpu_template = Some(CpuTemplateType::Static(StaticCpuTemplate::Legacy));
    assert_eq!(
        get_cpu_template(&cpu_template, &Ok(CpuVendor::Intel), true, &catalog()).unwrap_err(),
        GetCpuTemplateError::InvalidStaticCpuTemplate(StaticCpuTemplate::Legacy),
    );
    assert_eq!(
        get_cpu_template(&cpu_template, &Ok(CpuVendor::Amd), false, &catalog()).unwrap_err(),
        GetCpuTemplateError::InvalidStaticCpuTemplate(StaticCpuTemplate::Legacy),
    );
}

#[test]
fn test_get_cpu_template_with_custom_template() {
    // A custom selector returns a reference to exactly the embedded
    // template, without copying it.
    let inner_cpu_template = marked_template(7);
    let cpu_template = Some(CpuTemplateType::Custom(inner_cpu_template.clone()));
    let resolved =
        get_cpu_template(&cpu_template, &Ok(CpuVendor::Other), false, &catalog()).unwrap();
    match resolved {
        ResolvedTemplate::Borrowed(b) => {
            assert_eq!(b, &inner_cpu_template);
            let Some(CpuTemplateType::Custom(embedded)) = &cpu_template else { panic!() };
            assert!(std::ptr::eq(b, embedded));
        },
        ResolvedTemplate::Owned(_) => panic!("expected a borrowed template"),
    }
}

#[test]
fn vendor_query_failure_is_reported() {
    let cpu_template = Some(CpuTemplateType::Static(StaticCpuTemplate::C3));
    let vendor: Result<CpuVendor, String> = Err("cpuid read failed".to_string());
    assert_eq!(
        get_cpu_template(&cpu_template, &vendor, false, &catalog()).unwrap_err(),
        GetCpuTemplateError::GetCpuVendor("cpuid read failed".to_string()),
    );
    // No selector and a custom selector never consult the vendor.
    let none_selector: Option<CpuTemplateType> = None;
    assert!(get_cpu_template(&none_selector, &vendor, false, &catalog()).is_ok());
    let custom = Some(CpuTemplateType::Custom(CustomCpuTemplate::default()));
    assert!(get_cpu_template(&custom, &vendor, false, &catalog()).is_ok());
}
