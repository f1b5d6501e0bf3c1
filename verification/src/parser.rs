//! The module parser: the raw layer, the per-section payload parsers, the
//! version check, and the section-order rule, composed into `from_slice`.

use vstd::prelude::*;
use crate::module::Module;
use crate::parse_error::ParseError;
use crate::parse_sections::{parse_section_payload, spec_parse_section_payload};
use crate::raw::{parse_raw_module, spec_parse_raw_module, RawSectionV};
use crate::section::{spec_section_id_byte, Section};
use crate::views::{section_v_id, ModuleV, SectionV};

verus! {

/// What decoding the raw sections from index `i` on yields: each payload
/// parsed under its section identifier.
pub open spec fn spec_sections_from_raw(raws: Seq<RawSectionV>, i: int) -> Result<
    Seq<SectionV>,
    ParseError,
>
    decreases raws.len() - i,
{
    if i < 0 || i >= raws.len() {
        Ok(Seq::empty())
    } else {
        match spec_parse_section_payload(raws[i].header.id, raws[i].payload) {
            Ok(sec) => match spec_sections_from_raw(raws, i + 1) {
                Ok(rest) => Ok(seq![sec] + rest),
                Err(e) => Err(e),
            },
            Err(e) => Err(e),
        }
    }
}

/// What the section-order rule says of the sections from index `i` on,
/// with `last` the identifier byte of the last non-custom section seen:
/// non-custom identifiers must strictly ascend; custom sections may stand
/// anywhere.
pub open spec fn spec_check_order(secs: Seq<SectionV>, i: int, last: u8) -> Result<(), ParseError>
    decreases secs.len() - i,
{
    if i < 0 || i >= secs.len() {
        Ok(())
    } else {
        let b = spec_section_id_byte(section_v_id(secs[i]));
        if b == 0 {
            spec_check_order(secs, i + 1, last)
        } else if b <= last {
            Err(ParseError::SectionsOutOfOrder(last, b))
        } else {
            spec_check_order(secs, i + 1, b)
        }
    }
}

/// What decoding a whole buffer yields: the raw module, with version 1
/// required, every payload parsed, and the section order checked.
pub open spec fn spec_from_slice(s: Seq<u8>) -> Result<ModuleV, ParseError> {
    match spec_parse_raw_module(s) {
        Ok(raw) => if raw.version != 1 {
            Err(ParseError::VersionMismatch)
        } else {
            match spec_sections_from_raw(raw.sections, 0) {
                Ok(secs) => match spec_check_order(secs, 0, 0) {
                    Ok(_) => Ok(ModuleV { sections: secs }),
                    Err(e) => Err(e),
                },
                Err(e) => Err(e),
            }
        },
        Err(e) => Err(e),
    }
}

impl Module {
    /// Decodes a whole buffer into a module: the `\0asm` magic, version 1,
    /// and the sections, with non-custom section identifiers strictly
    /// ascending and every payload consumed in full.
    #[verifier::rlimit(60)]
    pub fn from_slice(input: &[u8]) -> (r: Result<Module, ParseError>)
        ensures
            match r {
                Ok(m) => spec_from_slice(input@) == Ok::<ModuleV, ParseError>(m.deep_view()),
                Err(e) => spec_from_slice(input@) == Err::<ModuleV, ParseError>(e),
            },
    {
        let ghost s = input@;
        let raw = match parse_raw_module(input) {
            Ok(raw) => raw,
            Err(e) => {
                return Err(e);
            },
        };
        if raw.version != 1 {
            return Err(ParseError::VersionMismatch);
        }
        let ghost raws = raw.sections.deep_view();
        let mut sections: Vec<Section> = Vec::new();
        let mut i: usize = 0;
        proof {
            assert(sections.deep_view() =~= Seq::<SectionV>::empty());
        }
        while i < raw.sections.len()
            invariant
                i <= raw.sections@.len(),
                s == input@,
                raws == raw.sections.deep_view(),
                raws.len() == raw.sections@.len(),
                ({
                    &&& spec_parse_raw_module(s) matches Ok(rawv)
                    &&& spec_parse_raw_module(s) == Ok::<crate::raw::RawModuleV, ParseError>(
                        raw.deep_view(),
                    )
                    &&& raw.deep_view().version == 1
                    &&& raw.deep_view().sections == raws
                }),
                ({
                    match spec_sections_from_raw(raws, i as int) {
                        Ok(rest) => spec_sections_from_raw(raws, 0) == Ok::<
                            Seq<SectionV>,
                            ParseError,
                        >(sections.deep_view() + rest),
                        Err(e) => spec_sections_from_raw(raws, 0) == Err::<
                            Seq<SectionV>,
                            ParseError,
                        >(e),
                    }
                }),
            decreases raw.sections@.len() - i,
        {
            let rs = &raw.sections[i];
            proof {
                assert(raws[i as int] == rs.deep_view());
            }
            match parse_section_payload(rs.header.id, rs.payload.as_slice()) {
                Ok(sec) => {
                    let ghost old_view = sections.deep_view();
                    sections.push(sec);
                    proof {
                        assert(sections.deep_view() =~= old_view + seq![sec.deep_view()]);
                        match spec_sections_from_raw(raws, i as int + 1) {
                            Ok(rest2) => {
                                assert(old_view + (seq![sec.deep_view()] + rest2) =~= (old_view
                                    + seq![sec.deep_view()]) + rest2);
                            },
                            Err(_) => {},
                        }
                    }
                    i = i + 1;
                },
                Err(e) => {
                    return Err(e);
                },
            }
        }
        proof {
            assert(spec_sections_from_raw(raws, i as int) == Ok::<Seq<SectionV>, ParseError>(
                Seq::empty(),
            ));
            assert(sections.deep_view() + Seq::<SectionV>::empty() =~= sections.deep_view());
        }
        let ghost secs = sections.deep_view();
        // Non-custom sections must appear in strictly ascending identifier
        // order; custom sections may appear anywhere.
        let mut last: u8 = 0;
        let mut j: usize = 0;
        while j < sections.len()
            invariant
                j <= sections@.len(),
                s == input@,
                secs == sections.deep_view(),
                secs.len() == sections@.len(),
                spec_check_order(secs, 0, 0) == spec_check_order(secs, j as int, last),
                ({
                    match spec_check_order(secs, 0, 0) {
                        Ok(_) => spec_from_slice(s) == Ok::<ModuleV, ParseError>(
                            ModuleV { sections: secs },
                        ),
                        Err(e) => spec_from_slice(s) == Err::<ModuleV, ParseError>(e),
                    }
                }),
            decreases sections@.len() - j,
        {
            proof {
                assert(secs[j as int] == sections@[j as int].deep_view());
                assert(section_v_id(secs[j as int]) == sections@[j as int].spec_id());
            }
            let b = sections[j].id().byte();
            if b != 0 {
                if b <= last {
                    return Err(ParseError::SectionsOutOfOrder(last, b));
                }
                last = b;
            }
            j = j + 1;
        }
        Ok(Module { sections })
    }
}


/// A passing order check means the non-custom section identifiers strictly
/// ascend from index `i` on, each above `last`.
proof fn lemma_order_check_ascending(secs: Seq<SectionV>, i: int, last: u8)
    requires
        0 <= i,
        spec_check_order(secs, i, last) is Ok,
    ensures
        forall|p: int, q: int|
            i <= p < q < secs.len() && spec_section_id_byte(section_v_id(#[trigger] secs[p])) != 0
                && spec_section_id_byte(section_v_id(#[trigger] secs[q])) != 0
                ==> spec_section_id_byte(section_v_id(secs[p])) < spec_section_id_byte(
                section_v_id(secs[q]),
            ),
        forall|p: int|
            i <= p < secs.len() && spec_section_id_byte(section_v_id(#[trigger] secs[p])) != 0
                ==> spec_section_id_byte(section_v_id(secs[p])) > last,
    decreases secs.len() - i,
{
    if i < secs.len() {
        let b = spec_section_id_byte(section_v_id(secs[i]));
        if b == 0 {
            lemma_order_check_ascending(secs, i + 1, last);
        } else {
            lemma_order_check_ascending(secs, i + 1, b);
        }
    }
}

/// Law: a module whose non-custom sections stand in descending or equal
/// identifier order fails the section-order rule.  Together with
/// `from_slice`'s contract, decoding such a module returns a
/// sections-out-of-order error.
pub proof fn lemma_out_of_order_sections_rejected(secs: Seq<SectionV>, p: int, q: int)
    requires
        0 <= p < q < secs.len(),
        spec_section_id_byte(section_v_id(secs[p])) != 0,
        spec_section_id_byte(section_v_id(secs[q])) != 0,
        spec_section_id_byte(section_v_id(secs[p])) >= spec_section_id_byte(section_v_id(secs[q])),
    ensures
        spec_check_order(secs, 0, 0) is Err,
{
    if spec_check_order(secs, 0, 0) is Ok {
        lemma_order_check_ascending(secs, 0, 0);
    }
}

} // verus!
