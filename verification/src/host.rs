//! Front end for interface declarations embedded in the host language.
//!
//! An enumeration annotated with the interface markers in the component's
//! own source arrives here as a [`HostEnum`]: the declaration's name, its
//! documentation lines, and for each variant its name, documentation, and
//! whether the variant declared payload fields or an explicit discriminant.
//! Reading those facts out of the host language's syntax tree is the
//! caller's concern; the conversion rules themselves live here.

use vstd::prelude::*;
use vstd::string::StringExecFns;

use crate::error_def::Error;
use crate::error_def::ErrorV;
use crate::errors::CompileError;
use crate::interface::APIConverter;
use crate::interface::ComponentInterface;
use crate::text::clone_string;
use crate::text::clone_string_vec;
use crate::text::push_string;

verus! {

/// The mathematical model of one declared variant.
#[verifier::ext_equal]
pub struct HostVariantV {
    pub name: Seq<char>,
    pub has_discriminant: bool,
    pub has_fields: bool,
    pub docs: Seq<Seq<char>>,
}

/// One variant of an annotated host-language enumeration.
#[derive(Debug)]
pub struct HostVariant {
    pub name: String,
    pub has_discriminant: bool,
    pub has_fields: bool,
    pub docs: Vec<String>,
}

impl View for HostVariant {
    type V = HostVariantV;

    open spec fn view(&self) -> HostVariantV {
        HostVariantV {
            name: self.name@,
            has_discriminant: self.has_discriminant,
            has_fields: self.has_fields,
            docs: self.docs.deep_view(),
        }
    }
}

impl DeepView for HostVariant {
    type V = HostVariantV;

    open spec fn deep_view(&self) -> HostVariantV {
        self.view()
    }
}

/// The mathematical model of an annotated enumeration.
#[verifier::ext_equal]
pub struct HostEnumV {
    pub name: Seq<char>,
    pub docs: Seq<Seq<char>>,
    pub variants: Seq<HostVariantV>,
}

/// An annotated host-language enumeration, as handed over by the caller
/// that walked the host syntax tree.
#[derive(Debug)]
pub struct HostEnum {
    pub name: String,
    pub docs: Vec<String>,
    pub variants: Vec<HostVariant>,
}

impl View for HostEnum {
    type V = HostEnumV;

    open spec fn view(&self) -> HostEnumV {
        HostEnumV {
            name: self.name@,
            docs: self.docs.deep_view(),
            variants: self.variants.deep_view(),
        }
    }
}

/// May this variant stand in an error enum? It must carry no payload fields
/// and no explicit discriminant.
pub open spec fn variant_clean(v: HostVariantV) -> bool {
    !v.has_discriminant && !v.has_fields
}

/// Are all variants acceptable?
pub open spec fn all_clean(vs: Seq<HostVariantV>) -> bool {
    forall|i: int| 0 <= i < vs.len() ==> variant_clean(vs[i])
}

/// The first unacceptable variant at or after `j`, or the length when all
/// are acceptable.
pub open spec fn first_bad(vs: Seq<HostVariantV>, j: int) -> int
    decreases vs.len() - j,
    when 0 <= j <= vs.len()
{
    if j >= vs.len() {
        j
    } else if !variant_clean(vs[j]) {
        j
    } else {
        first_bad(vs, j + 1)
    }
}

pub proof fn lemma_first_bad_at(vs: Seq<HostVariantV>, a: int, m: int)
    requires
        0 <= a <= m <= vs.len(),
        forall|j: int| a <= j < m ==> variant_clean(vs[j]),
        m == vs.len() || !variant_clean(vs[m]),
    ensures
        first_bad(vs, a) == m,
    decreases m - a,
{
    if a < m {
        lemma_first_bad_at(vs, a + 1, m);
    }
}

/// The declared variant names, in order, duplicates included.
pub open spec fn variant_names(vs: Seq<HostVariantV>) -> Seq<Seq<char>> {
    Seq::new(vs.len(), |i: int| vs[i].name)
}

/// A variant's documentation lines, indented two spaces beyond the marker
/// line's own indentation.
pub open spec fn indent_lines(ls: Seq<Seq<char>>) -> Seq<Seq<char>> {
    Seq::new(ls.len(), |i: int| "      "@ + ls[i])
}

/// The documentation block one variant contributes: nothing when it has no
/// documentation, else a blank line, a marker line naming the variant, and
/// its own lines indented.
pub open spec fn variant_doc_block(v: HostVariantV) -> Seq<Seq<char>> {
    if v.docs.len() == 0 {
        Seq::empty()
    } else {
        seq![Seq::<char>::empty(), "  `"@ + v.name + "`:"@] + indent_lines(v.docs)
    }
}

/// The documentation blocks of all variants, in order.
pub open spec fn variant_docs(vs: Seq<HostVariantV>) -> Seq<Seq<char>>
    decreases vs.len(),
{
    if vs.len() == 0 {
        Seq::empty()
    } else {
        variant_doc_block(vs[0]) + variant_docs(vs.drop_first())
    }
}

pub proof fn lemma_variant_docs_snoc(vs: Seq<HostVariantV>)
    requires
        vs.len() > 0,
    ensures
        variant_docs(vs) == variant_docs(vs.drop_last()) + variant_doc_block(vs.last()),
    decreases vs.len(),
{
    if vs.len() == 1 {
        assert(vs.drop_first().len() == 0);
        assert(vs.drop_last().len() == 0);
        assert(variant_docs(vs.drop_first()) == Seq::<Seq<char>>::empty());
        assert(variant_docs(vs.drop_last()) == Seq::<Seq<char>>::empty());
        assert(vs[0] == vs.last());
        assert(variant_docs(vs.drop_last()) + variant_doc_block(vs.last()) =~= variant_docs(vs));
    } else {
        let df = vs.drop_first();
        lemma_variant_docs_snoc(df);
        assert(variant_docs(vs) == variant_doc_block(vs[0]) + variant_docs(df));
        assert(vs.drop_last().len() > 0);
        assert(variant_docs(vs.drop_last()) == variant_doc_block(vs.drop_last()[0]) + variant_docs(
            vs.drop_last().drop_first(),
        ));
        assert(vs.drop_last().drop_first() =~= df.drop_last());
        assert(df.last() == vs.last());
        assert(vs.drop_last()[0] == vs[0]);
        assert(variant_docs(vs.drop_last()) + variant_doc_block(vs.last()) =~= variant_docs(vs));
    }
}

/// Variants without documentation contribute no documentation blocks.
pub proof fn lemma_variant_docs_all_empty(vs: Seq<HostVariantV>)
    requires
        forall|i: int| 0 <= i < vs.len() ==> (#[trigger] vs[i]).docs.len() == 0,
    ensures
        variant_docs(vs) == Seq::<Seq<char>>::empty(),
    decreases vs.len(),
{
    if vs.len() > 0 {
        assert(variant_doc_block(vs[0]) == Seq::<Seq<char>>::empty());
        assert forall|i: int| 0 <= i < vs.drop_first().len() implies (#[trigger] vs.drop_first()[
            i
        ]).docs.len() == 0 by {
            assert(vs.drop_first()[i] == vs[i + 1]);
        }
        lemma_variant_docs_all_empty(vs.drop_first());
        assert(variant_docs(vs) =~= Seq::<Seq<char>>::empty());
    }
}

/// The front-end equivalence law: an error definition expressed in the
/// interface-definition language and the same definition expressed as an
/// annotated host-language enum — same name, one unit variant per member
/// label, no documentation anywhere — convert to equal definitions.
pub proof fn lemma_front_end_equivalence(n: crate::idl::IdlEnum, h: HostEnum, e1: Error, e2: Error)
    requires
        <crate::idl::IdlEnum as APIConverter<Error>>::convert_ok(&n, e1),
        <HostEnum as APIConverter<Error>>::convert_ok(&h, e2),
        h@.name == n@.name,
        h@.docs.len() == 0,
        h@.variants.len() == n@.values.len(),
        forall|i: int| 0 <= i < h@.variants.len() ==> (#[trigger] h@.variants[i]).name
            == n@.values[i],
        forall|i: int| 0 <= i < h@.variants.len() ==> (#[trigger] h@.variants[i]).docs.len() == 0,
    ensures
        e1@.name == e2@.name,
        e1@.values == e2@.values,
        e1@.docs == e2@.docs,
{
    assert(variant_names(h@.variants) =~= n@.values);
    lemma_variant_docs_all_empty(h@.variants);
    assert(merged_docs(h@) =~= Seq::<Seq<char>>::empty());
    assert(e1@.docs =~= e2@.docs);
}

/// The merged documentation of the whole definition: the enum's own lines
/// first, then each documented variant's block.
pub open spec fn merged_docs(e: HostEnumV) -> Seq<Seq<char>> {
    e.docs + variant_docs(e.variants)
}

/// Conversion of an annotated host-language enumeration into an error
/// definition. Each variant must be a unit variant without an explicit
/// discriminant; per-enum and per-variant documentation is merged.
impl APIConverter<Error> for HostEnum {
    open spec fn convert_succeeds(&self) -> bool {
        all_clean(self@.variants)
    }

    open spec fn convert_ok(&self, v: Error) -> bool {
        v@ == ErrorV {
            name: self@.name,
            values: variant_names(self@.variants),
            docs: merged_docs(self@),
        }
    }

    open spec fn convert_err(&self, e: CompileError) -> bool {
        !all_clean(self@.variants) && {
            let b = first_bad(self@.variants, 0);
            if self@.variants[b].has_discriminant {
                e matches CompileError::ExplicitDiscriminant { enum_name, variant } && enum_name@
                    == self@.name && variant@ == self@.variants[b].name
            } else {
                e matches CompileError::VariantWithFields { enum_name, variant } && enum_name@
                    == self@.name && variant@ == self@.variants[b].name
            }
        }
    }

    fn convert(&self, ci: &mut ComponentInterface) -> (r: Result<Error, CompileError>) {
        let mut docs = clone_string_vec(&self.docs);
        let mut values: Vec<String> = Vec::new();
        let n = self.variants.len();
        let mut i: usize = 0;
        while i < n
            invariant
                i <= n,
                n == self.variants@.len(),
                forall|j: int| 0 <= j < i ==> variant_clean(self@.variants[j]),
                values@.len() == i,
                forall|j: int| 0 <= j < i ==> values@[j]@ == self@.variants[j].name,
                docs.deep_view() == self@.docs + variant_docs(self@.variants.take(i as int)),
            decreases n - i,
        {
            let v = &self.variants[i];
            assert(v@ == self@.variants[i as int]);
            if v.has_discriminant {
                proof {
                    lemma_first_bad_at(self@.variants, 0, i as int);
                }
                return Err(
                    CompileError::ExplicitDiscriminant {
                        enum_name: clone_string(&self.name),
                        variant: clone_string(&v.name),
                    },
                );
            }
            if v.has_fields {
                proof {
                    lemma_first_bad_at(self@.variants, 0, i as int);
                }
                return Err(
                    CompileError::VariantWithFields {
                        enum_name: clone_string(&self.name),
                        variant: clone_string(&v.name),
                    },
                );
            }
            let ghost docs0 = docs.deep_view();
            if v.docs.len() > 0 {
                push_string(&mut docs, String::new());
                push_string(&mut docs, String::from_str("  `").concat(v.name.as_str()).concat("`:"));
                let ghost mid = docs.deep_view();
                let m = v.docs.len();
                let mut k: usize = 0;
                while k < m
                    invariant
                        k <= m,
                        m == v.docs@.len(),
                        v@ == self@.variants[i as int],
                        i < n == self.variants@.len(),
                        mid == docs0.push(Seq::<char>::empty()).push("  `"@ + v@.name + "`:"@),
                        docs.deep_view() == mid + indent_lines(v@.docs).take(k as int),
                    decreases m - k,
                {
                    push_string(
                        &mut docs,
                        String::from_str("      ").concat(v.docs[k].as_str()),
                    );
                    proof {
                        assert(indent_lines(v@.docs)[k as int] == "      "@ + v@.docs[k as int]);
                        assert(v.docs@[k as int]@ == v@.docs[k as int]);
                        assert(docs.deep_view() =~= mid + indent_lines(v@.docs).take(
                            k as int + 1,
                        ));
                    }
                    k += 1;
                }
                proof {
                    assert(indent_lines(v@.docs).take(m as int) =~= indent_lines(v@.docs));
                    assert(docs.deep_view() =~= docs0 + variant_doc_block(v@));
                }
            } else {
                proof {
                    assert(variant_doc_block(v@) == Seq::<Seq<char>>::empty());
                    assert(docs.deep_view() =~= docs0 + variant_doc_block(v@));
                }
            }
            values.push(clone_string(&v.name));
            proof {
                let taken = self@.variants.take(i as int + 1);
                lemma_variant_docs_snoc(taken);
                assert(taken.drop_last() =~= self@.variants.take(i as int));
                assert(taken.last() == self@.variants[i as int]);
                assert(docs.deep_view() =~= self@.docs + variant_docs(taken));
            }
            i += 1;
        }
        let e = Error { name: clone_string(&self.name), values, docs };
        proof {
            assert(self@.variants.take(n as int) =~= self@.variants);
            assert forall|q: int| 0 <= q < n implies e@.values[q] == variant_names(
                self@.variants,
            )[q] by {
                assert(e@.values[q] == self@.variants[q].name);
            }
            assert(e@.values =~= variant_names(self@.variants));
            assert(e@ =~= ErrorV {
                name: self@.name,
                values: variant_names(self@.variants),
                docs: merged_docs(self@),
            });
        }
        Ok(e)
    }
}

} // verus!
