//! Value types for CPU templates: the filter/value pair, CPUID and MSR
//! modifiers, and the template that gathers them.

use vstd::prelude::*;

verus! {

/// KVM feature flags attached to a CPUID leaf/sub-leaf entry.  The value is
/// opaque to this crate and is carried through the codec unchanged.
#[derive(Debug, Clone, Copy, PartialEq, Eq, Structural)]
pub struct KvmCpuidFlags(pub u32);

/// CPUID result register selected by a modifier.
#[derive(Debug, Clone, Copy, PartialEq, Eq, Structural)]
pub enum CpuidRegister {
    Eax,
    Ebx,
    Ecx,
    Edx,
}

/// Bit-mapped value to adjust targeted bits of a register: `filter` holds the
/// controlled bit positions, `value` the bits to assert there.
#[derive(Debug, Clone, Copy, PartialEq, Eq, Structural)]
pub struct RegisterValueFilter {
    /// Filter to be used when writing the value bits.
    pub filter: u64,
    /// Value to be applied.
    pub value: u64,
}

impl RegisterValueFilter {
    /// Overwrites the filtered bits of `value` with the stored value bits.
    pub fn apply(&self, value: u64) -> (r: u64)
        ensures
            r == (value & !self.filter) | self.value,
    {
        (value & !self.filter) | self.value
    }
}

/// Target CPUID register together with the bitmap to apply to it.
#[derive(Debug, Clone, Copy, PartialEq, Eq, Structural)]
pub struct CpuidRegisterModifier {
    /// CPUID register to be modified by the bitmap.
    pub register: CpuidRegister,
    /// Bit mapping to be applied as a modifier to the register's value.
    pub bitmap: RegisterValueFilter,
}

/// All register changes for one CPUID leaf/sub-leaf query point.
#[derive(Debug, PartialEq, Eq)]
pub struct CpuidLeafModifier {
    /// Leaf value.
    pub leaf: u32,
    /// Sub-Leaf value.
    pub subleaf: u32,
    /// KVM feature flags for this leaf-subleaf.
    pub flags: KvmCpuidFlags,
    /// All registers to be modified under the sub-leaf.
    pub modifiers: Vec<CpuidRegisterModifier>,
}

/// Mathematical model of a [`CpuidLeafModifier`].
pub ghost struct CpuidLeafModifierView {
    pub leaf: u32,
    pub subleaf: u32,
    pub flags: KvmCpuidFlags,
    pub modifiers: Seq<CpuidRegisterModifier>,
}

impl View for CpuidLeafModifier {
    type V = CpuidLeafModifierView;

    open spec fn view(&self) -> CpuidLeafModifierView {
        CpuidLeafModifierView {
            leaf: self.leaf,
            subleaf: self.subleaf,
            flags: self.flags,
            modifiers: self.modifiers@,
        }
    }
}

/// MSR address together with the bitmap to apply to the 64-bit register
/// stored there.
#[derive(Debug, Clone, Copy, PartialEq, Eq, Structural)]
pub struct RegisterModifier {
    /// Address of the model-specific register to be modified.
    pub addr: u32,
    /// Bit mapping to be applied as a modifier to the register's value.
    pub bitmap: RegisterValueFilter,
}

/// Set of CPUID and MSR modifications making up one CPU template.
#[derive(Debug, PartialEq, Eq)]
pub struct CustomCpuTemplate {
    /// Modifiers for CPUID configuration.
    pub cpuid_modifiers: Vec<CpuidLeafModifier>,
    /// Modifiers for model specific registers.
    pub msr_modifiers: Vec<RegisterModifier>,
}

/// Mathematical model of a [`CustomCpuTemplate`].
pub ghost struct CustomCpuTemplateView {
    pub cpuid_modifiers: Seq<CpuidLeafModifierView>,
    pub msr_modifiers: Seq<RegisterModifier>,
}

impl View for CustomCpuTemplate {
    type V = CustomCpuTemplateView;

    open spec fn view(&self) -> CustomCpuTemplateView {
        CustomCpuTemplateView {
            cpuid_modifiers: self.cpuid_modifiers@.map_values(|m: CpuidLeafModifier| m@),
            msr_modifiers: self.msr_modifiers@,
        }
    }
}

impl Default for CustomCpuTemplate {
    /// Returns the template with both modifier lists empty.
    fn default() -> (r: Self)
        ensures
            r@.cpuid_modifiers.len() == 0,
            r@.msr_modifiers.len() == 0,
    {
        CustomCpuTemplate { cpuid_modifiers: Vec::new(), msr_modifiers: Vec::new() }
    }
}

impl CustomCpuTemplate {
    /// Returns the addresses of the MSR modifiers, in document order.
    pub fn get_msr_index_list(&self) -> (r: Vec<u32>)
        ensures
            r@.len() == self.msr_modifiers@.len(),
            forall|i: int| 0 <= i < r@.len() ==> r@[i] == self.msr_modifiers@[i].addr,
    {
        let mut r: Vec<u32> = Vec::new();
        let mut i: usize = 0;
        while i < self.msr_modifiers.len()
            invariant
                i <= self.msr_modifiers@.len(),
                r@.len() == i,
                forall|j: int| 0 <= j < i ==> r@[j] == self.msr_modifiers@[j].addr,
            decreases self.msr_modifiers@.len() - i,
        {
            r.push(self.msr_modifiers[i].addr);
            i += 1;
        }
        r
    }
}

/// Copies the elements of a vector of plain values.
fn copy_vec<T: Copy>(v: &Vec<T>) -> (r: Vec<T>)
    ensures
        r@ == v@,
{
    let mut r: Vec<T> = Vec::new();
    let mut i: usize = 0;
    proof {
        assert(v@.take(0) =~= Seq::<T>::empty());
    }
    while i < v.len()
        invariant
            i <= v@.len(),
            r@ == v@.take(i as int),
        decreases v@.len() - i,
    {
        r.push(v[i]);
        proof {
            assert(v@.take(i as int).push(v@[i as int]) =~= v@.take(i as int + 1));
        }
        i += 1;
    }
    proof {
        assert(v@.take(v@.len() as int) =~= v@);
    }
    r
}

impl Clone for CpuidLeafModifier {
    /// Returns a modifier with the same model.
    fn clone(&self) -> (r: Self)
        ensures
            r@ == self@,
    {
        CpuidLeafModifier {
            leaf: self.leaf,
            subleaf: self.subleaf,
            flags: self.flags,
            modifiers: copy_vec(&self.modifiers),
        }
    }
}

impl Clone for CustomCpuTemplate {
    /// Returns a template with the same model.
    fn clone(&self) -> (r: Self)
        ensures
            r@ == self@,
    {
        let mut leaves: Vec<CpuidLeafModifier> = Vec::new();
        let mut i: usize = 0;
        while i < self.cpuid_modifiers.len()
            invariant
                i <= self.cpuid_modifiers@.len(),
                leaves@.len() == i,
                forall|j: int|
                    0 <= j < i ==> (#[trigger] leaves@[j])@ == self.cpuid_modifiers@[j]@,
            decreases self.cpuid_modifiers@.len() - i,
        {
            leaves.push(self.cpuid_modifiers[i].clone());
            i += 1;
        }
        let r = CustomCpuTemplate {
            cpuid_modifiers: leaves,
            msr_modifiers: copy_vec(&self.msr_modifiers),
        };
        proof {
            assert(r@.cpuid_modifiers =~= self@.cpuid_modifiers);
        }
        r
    }
}

} // verus!
