use vstd::prelude::*;
use vstd::string::StringExecFns;
use crate::cpp_members::CppFieldDecl;
use crate::cpp_members::CppMember;
use crate::cpp_members::CppNonMember;
use crate::cpp_members::CppStaticAssert;
use crate::cs_fields::LayoutError;
use crate::cs_fields::hex_spec;
use crate::cs_fields::to_hex;
use crate::metadata::Metadata;
use crate::metadata::SizeInfo;
use crate::name_components::combine_all_spec;
use crate::resolver::CppType;

verus! {

/// The rounding granule matched to a computed size when no packing override
/// is specified: an empirically derived table of the originating runtime,
/// preserved as a literal lookup.
pub open spec fn closest_packing(size: u32) -> u32 {
    if size == 0 {
        0u32
    } else if size == 1 {
        1u32
    } else if size == 2 {
        2u32
    } else if size == 3 {
        4u32
    } else if size == 4 {
        4u32
    } else {
        8u32
    }
}

/// Executable form of [`closest_packing`].
pub fn closest_packing_of(size: u32) -> (r: u32)
    ensures
        r == closest_packing(size),
{
    if size == 0 {
        0
    } else if size == 1 {
        1
    } else if size == 2 {
        2
    } else if size == 3 {
        4
    } else if size == 4 {
        4
    } else {
        8
    }
}

/// `c` rounded up to the next multiple of `a`; an alignment of zero leaves
/// the size as it is.
pub open spec fn align_up(c: u32, a: u32) -> int {
    if a == 0 {
        c as int
    } else {
        ((c + a - 1) as int / a as int) * a as int
    }
}

/// The trailing pad size the size reconciliation emits, when one is owed:
/// nothing when the runtime reports no usable size, when the aligned computed
/// size already matches the reported size, or when the remainder rounds down
/// to zero at the type's packing granule.
pub open spec fn size_padding_spec(
    table: SizeInfo,
    size_info: Option<SizeInfo>,
    packing: Option<u32>,
) -> Option<u32> {
    if table.instance_size == 0 || table.instance_size == 0xffff_ffffu32 {
        None
    } else {
        match size_info {
            None => None,
            Some(si) => {
                let aligned = align_up(si.calculated_instance_size, si.natural_alignment);
                if aligned == si.instance_size {
                    None
                } else {
                    let remaining = if si.instance_size >= si.calculated_instance_size {
                        (si.instance_size - si.calculated_instance_size) as u32
                    } else {
                        (si.calculated_instance_size - si.instance_size) as u32
                    };
                    let pack = match packing {
                        Some(p) => p,
                        None => closest_packing(si.calculated_instance_size),
                    };
                    let packed = if pack == 0 {
                        remaining
                    } else {
                        (((remaining as int) / (pack as int)) * (pack as int)) as u32
                    };
                    if packed == 0 {
                        None
                    } else {
                        Some(packed)
                    }
                }
            },
        }
    }
}

/// The name of the trailing pad field covering a packed remainder.
pub open spec fn size_padding_name(packed: u32) -> Seq<char> {
    "_cordl_size_padding[0x"@ + hex_spec(packed as nat) + "]"@
}

/// The condition of the static size assertion for one rendered type.
pub open spec fn size_assert_condition(t: CppType) -> Seq<char> {
    let ncv = t.cpp_name_components@;
    let base = crate::name_components::NameComponentsView { is_pointer: false, ..ncv };
    "::cordl_internals::size_check_v<"@ + combine_all_spec(base) + ", 0x"@ + hex_spec(
        t.size_info->0.instance_size as nat,
    ) + ">"@
}

impl CppType {
    /// Reconcile the computed instance size with the runtime-reported size:
    /// align the computed size up to the natural alignment; if a gap remains,
    /// append one trailing byte-array pad field sized to the remainder
    /// rounded down to the type's packing granule. A zero remainder after
    /// rounding emits nothing.
    pub fn create_size_padding(&mut self, metadata: &Metadata, tdi: u32)
        requires
            (tdi as int) < metadata.type_definition_sizes@.len(),
        ensures
            *final(self) == (CppType { declarations: final(self).declarations, ..*old(self) }),
            match size_padding_spec(
                metadata.type_definition_sizes@[tdi as int],
                old(self).size_info,
                old(self).packing,
            ) {
                Some(packed) => {
                    &&& final(self).declarations@.len() == old(self).declarations@.len() + 1
                    &&& final(self).declarations@.subrange(
                        0,
                        old(self).declarations@.len() as int,
                    ) == old(self).declarations@
                    &&& (final(self).declarations@.last() matches CppMember::FieldDecl(f) && {
                        &&& f@.cpp_name == size_padding_name(packed)
                        &&& f@.field_ty == "uint8_t"@
                        &&& f@.offset == Some(old(self).size_info->0.instance_size)
                        &&& f@.instance
                        &&& !f@.readonly
                        &&& !f@.const_expr
                        &&& f@.value is None
                        &&& !f@.is_private
                    })
                },
                None => final(self).declarations@ == old(self).declarations@,
            },
    {
        let table = metadata.type_definition_sizes[tdi as usize];
        if table.instance_size == 0 || table.instance_size == 0xffff_ffffu32 {
            return ;
        }
        let size_info = match self.size_info {
            Some(si) => si,
            None => {
                return ;
            },
        };
        let aligned: u64 = if size_info.natural_alignment == 0 {
            size_info.calculated_instance_size as u64
        } else {
            let a64: u64 = size_info.natural_alignment as u64;
            let sum: u64 = size_info.calculated_instance_size as u64 + a64 - 1;
            let q: u64 = sum / a64;
            proof {
                assert(q * a64 <= sum) by (nonlinear_arith)
                    requires
                        a64 > 0,
                        q == sum / a64,
                ;
            }
            q * a64
        };
        if aligned == size_info.instance_size as u64 {
            return ;
        }
        let remaining: u32 = if size_info.instance_size >= size_info.calculated_instance_size {
            size_info.instance_size - size_info.calculated_instance_size
        } else {
            size_info.calculated_instance_size - size_info.instance_size
        };
        let pack: u32 = match self.packing {
            Some(p) => p,
            None => closest_packing_of(size_info.calculated_instance_size),
        };
        let packed_remaining_size: u32 = if pack == 0 {
            remaining
        } else {
            let q: u32 = remaining / pack;
            proof {
                assert(q * pack <= remaining) by (nonlinear_arith)
                    requires
                        pack > 0,
                        q == remaining / pack,
                ;
            }
            q * pack
        };
        if packed_remaining_size == 0 {
            return ;
        }
        let mut cpp_name = String::from_str("_cordl_size_padding[0x");
        let hx = to_hex(packed_remaining_size as u64);
        cpp_name.append(hx.as_str());
        cpp_name.append("]");
        let mut brief = String::from_str("Size padding 0x");
        let h1 = to_hex(size_info.instance_size as u64);
        brief.append(h1.as_str());
        brief.append(" - 0x");
        let h2 = to_hex(size_info.calculated_instance_size as u64);
        brief.append(h2.as_str());
        brief.append(" = 0x");
        let h3 = to_hex(remaining as u64);
        brief.append(h3.as_str());
        brief.append(", packed as 0x");
        let h4 = to_hex(packed_remaining_size as u64);
        brief.append(h4.as_str());
        let ghost pre = self.declarations@;
        self.declarations.push(
            CppMember::FieldDecl(
                CppFieldDecl {
                    cpp_name,
                    field_ty: String::from_str("uint8_t"),
                    offset: Some(size_info.instance_size),
                    instance: true,
                    readonly: false,
                    const_expr: false,
                    value: None,
                    brief_comment: Some(brief),
                    is_private: false,
                },
            ),
        );
        proof {
            assert(self.declarations@.subrange(0, pre.len() as int) =~= pre);
        }
    }

    /// Emit the static size assertion guarding a rendered type, or report
    /// that the type reached layout without any usable size information,
    /// which is fatal for it. Templated types are skipped: their sizes vary
    /// by instantiation.
    pub fn create_size_assert(&mut self) -> (r: Result<(), LayoutError>)
        ensures
            *final(self) == (CppType {
                nonmember_declarations: final(self).nonmember_declarations,
                ..*old(self)
            }),
            old(self).cpp_template is Some ==> r is Ok && final(self).nonmember_declarations@
                == old(self).nonmember_declarations@,
            old(self).cpp_template is None && old(self).size_info is None ==> (r matches Err(
                LayoutError::MissingSizeInfo,
            )) && final(self).nonmember_declarations@ == old(self).nonmember_declarations@,
            old(self).cpp_template is None && old(self).size_info is Some ==> r is Ok
                && final(self).nonmember_declarations@.len() == old(
                self,
            ).nonmember_declarations@.len() + 1 && (
            final(self).nonmember_declarations@.last() matches CppNonMember::StaticAssert(a)
                && a.condition@ == size_assert_condition(*old(self))),
    {
        if self.cpp_template.is_some() {
            return Ok(());
        }
        let size = match self.size_info {
            Some(si) => si.instance_size,
            None => {
                return Err(LayoutError::MissingSizeInfo);
            },
        };
        let cpp_name = self.cpp_name_components.remove_pointer().combine_all();
        let mut condition = String::from_str("::cordl_internals::size_check_v<");
        condition.append(cpp_name.as_str());
        condition.append(", 0x");
        let hx = to_hex(size as u64);
        condition.append(hx.as_str());
        condition.append(">");
        self.nonmember_declarations.push(
            CppNonMember::StaticAssert(
                CppStaticAssert {
                    condition,
                    message: Some(String::from_str("Size mismatch!")),
                },
            ),
        );
        Ok(())
    }
}

} // verus!
