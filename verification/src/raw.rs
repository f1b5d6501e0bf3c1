//! The raw module layer: the magic and version header, and the undecoded
//! sections, each an identifier, a payload length, and the payload bytes.

use vstd::prelude::*;
use vstd::slice::{slice_subrange, slice_to_vec};
use crate::parse_error::ParseError;
use crate::parse_instructions::{le_u32_at, spec_le_u32_at};
use crate::parse_items::ParseItem;
use crate::parse_num::{lemma_parse_varuint32_embedded, parse_varuint32, spec_parse_varuint32};
use crate::leb128::uleb_encode;
use crate::section::{section_id_from_byte, spec_section_id, spec_section_id_byte, SectionID};

verus! {

/// A section's identifier and payload length.
#[derive(Debug, Clone, Copy, PartialEq, Eq, Structural)]
pub struct SectionHeader {
    pub id: SectionID,
    pub payload_length: u32,
}

/// An undecoded section: its header and its payload bytes.
#[derive(Debug, PartialEq, Eq)]
pub struct RawSection {
    pub header: SectionHeader,
    pub payload: Vec<u8>,
}

/// An undecoded module: the magic bytes, the version word, and the raw
/// sections in order.
#[derive(Debug, PartialEq, Eq)]
pub struct RawModule {
    pub magic: [u8; 4],
    pub version: u32,
    pub sections: Vec<RawSection>,
}

/// Model of a raw section.
pub struct RawSectionV {
    pub header: SectionHeader,
    pub payload: Seq<u8>,
}

/// Model of a raw module.
pub struct RawModuleV {
    pub magic: Seq<u8>,
    pub version: u32,
    pub sections: Seq<RawSectionV>,
}

impl DeepView for RawSection {
    type V = RawSectionV;

    open spec fn deep_view(&self) -> RawSectionV {
        RawSectionV { header: self.header, payload: self.payload@ }
    }
}

impl DeepView for RawModule {
    type V = RawModuleV;

    open spec fn deep_view(&self) -> RawModuleV {
        RawModuleV { magic: self.magic@, version: self.version, sections: self.sections.deep_view() }
    }
}

/// The four magic bytes that open every module: `\0asm`.
pub open spec fn magic_bytes() -> Seq<u8> {
    seq![0x00u8, 0x61u8, 0x73u8, 0x6du8]
}

/// What a raw-section parse at `pos` yields: an identifier byte, a payload
/// length, and exactly that many payload bytes.
pub open spec fn spec_parse_raw_section(s: Seq<u8>, pos: int) -> Result<
    (RawSectionV, int),
    ParseError,
> {
    if pos >= s.len() {
        Err(ParseError::UnexpectedEof)
    } else {
        match spec_section_id(s[pos]) {
            Some(id) => match spec_parse_varuint32(s, pos + 1) {
                Ok((plen, p)) => if p + plen <= s.len() {
                    Ok(
                        (
                            RawSectionV {
                                header: SectionHeader { id, payload_length: plen },
                                payload: s.subrange(p, p + plen),
                            },
                            p + plen,
                        ),
                    )
                } else {
                    Err(ParseError::UnexpectedEof)
                },
                Err(e) => Err(e),
            },
            None => Err(ParseError::InvalidSectionId(s[pos])),
        }
    }
}

/// What the run of raw sections from `pos` to the end of the input yields.
pub open spec fn spec_parse_raw_sections(s: Seq<u8>, pos: int) -> Result<Seq<RawSectionV>, ParseError>
    decreases s.len() - pos,
{
    if pos >= s.len() {
        Ok(Seq::empty())
    } else {
        match spec_parse_raw_section(s, pos) {
            Ok((sec, p)) => if pos < p <= s.len() {
                match spec_parse_raw_sections(s, p) {
                    Ok(rest) => Ok(seq![sec] + rest),
                    Err(e) => Err(e),
                }
            } else {
                Err(ParseError::UnexpectedEof)
            },
            Err(e) => Err(e),
        }
    }
}

/// What a raw-module parse yields: the `\0asm` magic, the version word, and
/// the sections, consuming the input in full.
pub open spec fn spec_parse_raw_module(s: Seq<u8>) -> Result<RawModuleV, ParseError> {
    if s.len() < 4 {
        Err(ParseError::UnexpectedEof)
    } else if s.subrange(0, 4) != magic_bytes() {
        Err(ParseError::MagicMismatch)
    } else if s.len() < 8 {
        Err(ParseError::UnexpectedEof)
    } else {
        match spec_parse_raw_sections(s, 8) {
            Ok(sections) => Ok(
                RawModuleV { magic: s.subrange(0, 4), version: spec_le_u32_at(s, 4), sections },
            ),
            Err(e) => Err(e),
        }
    }
}

/// Parses one raw section at `pos`.
fn parse_raw_section(input: &[u8], pos: usize) -> (r: Result<(RawSection, usize), ParseError>)
    requires
        pos <= input@.len(),
    ensures
        match r {
            Ok(p) => spec_parse_raw_section(input@, pos as int) == Ok::<
                (RawSectionV, int),
                ParseError,
            >((p.0.deep_view(), p.1 as int)) && pos < p.1 <= input@.len(),
            Err(e) => spec_parse_raw_section(input@, pos as int) == Err::<
                (RawSectionV, int),
                ParseError,
            >(e),
        },
{
    if pos >= input.len() {
        return Err(ParseError::UnexpectedEof);
    }
    let b = input[pos];
    match section_id_from_byte(b) {
        Some(id) => {
            let (plen, p) = parse_varuint32(input, pos + 1)?;
            if (plen as usize) > input.len() - p {
                return Err(ParseError::UnexpectedEof);
            }
            let payload = slice_to_vec(slice_subrange(input, p, p + plen as usize));
            Ok((RawSection { header: SectionHeader { id, payload_length: plen }, payload }, p
                + plen as usize))
        },
        None => Err(ParseError::InvalidSectionId(b)),
    }
}

/// Parses a whole buffer as a raw module.
pub fn parse_raw_module(input: &[u8]) -> (r: Result<RawModule, ParseError>)
    ensures
        match r {
            Ok(m) => spec_parse_raw_module(input@) == Ok::<RawModuleV, ParseError>(m.deep_view()),
            Err(e) => spec_parse_raw_module(input@) == Err::<RawModuleV, ParseError>(e),
        },
{
    let ghost s = input@;
    if input.len() < 4 {
        return Err(ParseError::UnexpectedEof);
    }
    if input[0] != 0x00 || input[1] != 0x61 || input[2] != 0x73 || input[3] != 0x6d {
        proof {
            assert(s.subrange(0, 4) != magic_bytes()) by {
                if s[0] == 0x00 && s[1] == 0x61 && s[2] == 0x73 && s[3] == 0x6d {
                } else {
                    assert(s.subrange(0, 4)[0] == s[0] && s.subrange(0, 4)[1] == s[1]
                        && s.subrange(0, 4)[2] == s[2] && s.subrange(0, 4)[3] == s[3]);
                }
            }
        }
        return Err(ParseError::MagicMismatch);
    }
    proof {
        assert(s.subrange(0, 4) =~= magic_bytes());
    }
    if input.len() < 8 {
        return Err(ParseError::UnexpectedEof);
    }
    let magic: [u8; 4] = [input[0], input[1], input[2], input[3]];
    let version = le_u32_at(input, 4);
    let mut sections: Vec<RawSection> = Vec::new();
    let mut cur: usize = 8;
    proof {
        assert(sections.deep_view() =~= Seq::<RawSectionV>::empty());
    }
    while cur < input.len()
        invariant
            8 <= cur <= s.len(),
            s == input@,
            s.subrange(0, 4) == magic_bytes(),
            ({
                match spec_parse_raw_sections(s, cur as int) {
                    Ok(rest) => spec_parse_raw_sections(s, 8) == Ok::<Seq<RawSectionV>, ParseError>(
                        sections.deep_view() + rest,
                    ),
                    Err(e) => spec_parse_raw_sections(s, 8) == Err::<Seq<RawSectionV>, ParseError>(
                        e,
                    ),
                }
            }),
        decreases s.len() - cur,
    {
        match parse_raw_section(input, cur) {
            Ok((sec, p)) => {
                let ghost old_view = sections.deep_view();
                sections.push(sec);
                proof {
                    assert(sections.deep_view() =~= old_view + seq![sec.deep_view()]);
                    match spec_parse_raw_sections(s, p as int) {
                        Ok(rest2) => {
                            assert(old_view + (seq![sec.deep_view()] + rest2) =~= (old_view + seq![
                                sec.deep_view(),
                            ]) + rest2);
                        },
                        Err(_) => {},
                    }
                }
                cur = p;
            },
            Err(e) => {
                return Err(e);
            },
        }
    }
    proof {
        assert(spec_parse_raw_sections(s, cur as int) == Ok::<Seq<RawSectionV>, ParseError>(
            Seq::empty(),
        ));
        assert(sections.deep_view() + Seq::<RawSectionV>::empty() =~= sections.deep_view());
        assert(magic@ =~= s.subrange(0, 4));
    }
    Ok(RawModule { magic, version, sections })
}


/// The canonical encoding of one raw section: its identifier byte, its
/// payload length, and the payload bytes.
pub open spec fn encode_raw_section(rs: RawSectionV) -> Seq<u8> {
    seq![spec_section_id_byte(rs.header.id)] + uleb_encode(rs.header.payload_length as nat)
        + rs.payload
}

/// The canonical encoding of a run of raw sections, in order.
pub open spec fn encode_raw_sections(ss: Seq<RawSectionV>, i: int) -> Seq<u8>
    decreases ss.len() - i,
{
    if i < 0 || i >= ss.len() {
        Seq::empty()
    } else {
        encode_raw_section(ss[i]) + encode_raw_sections(ss, i + 1)
    }
}

/// Every section's recorded payload length matches its payload.
pub open spec fn raw_sections_well_formed(ss: Seq<RawSectionV>) -> bool {
    forall|j: int|
        0 <= j < ss.len() ==> (#[trigger] ss[j]).header.payload_length as int
            == ss[j].payload.len()
}

/// A section identifier byte decodes back to its identifier.
proof fn lemma_section_id_byte_inverse(id: SectionID)
    ensures
        spec_section_id(spec_section_id_byte(id)) == Some(id),
{
}

/// One encoded raw section embedded at `pos` parses back to itself,
/// consuming exactly its encoding.
proof fn lemma_parse_encoded_section(s: Seq<u8>, pos: int, rs: RawSectionV)
    requires
        0 <= pos,
        rs.header.payload_length as int == rs.payload.len(),
        pos + encode_raw_section(rs).len() <= s.len(),
        s.subrange(pos, pos + encode_raw_section(rs).len() as int) == encode_raw_section(rs),
    ensures
        spec_parse_raw_section(s, pos) == Ok::<(RawSectionV, int), ParseError>(
            (rs, pos + encode_raw_section(rs).len()),
        ),
{
    let e = encode_raw_section(rs);
    let lenc = uleb_encode(rs.header.payload_length as nat);
    let plen = rs.header.payload_length as int;
    assert forall|j: int| 0 <= j < e.len() implies s[pos + j] == e[j] by {
        assert(s.subrange(pos, pos + e.len() as int)[j] == s[pos + j]);
    }
    assert(e[0] == (seq![spec_section_id_byte(rs.header.id)] + lenc)[0]);
    assert(e[0] == spec_section_id_byte(rs.header.id));
    assert(s[pos] == e[0]);
    lemma_section_id_byte_inverse(rs.header.id);
    assert(s.subrange(pos + 1, pos + 1 + lenc.len() as int) =~= lenc) by {
        assert forall|j: int| 0 <= j < lenc.len() implies s.subrange(
            pos + 1,
            pos + 1 + lenc.len() as int,
        )[j] == lenc[j] by {
            assert(s.subrange(pos + 1, pos + 1 + lenc.len() as int)[j] == s[pos + 1 + j]);
            assert(e[1 + j] == lenc[j]);
        }
    }
    lemma_parse_varuint32_embedded(s, pos + 1, rs.header.payload_length);
    let p = pos + 1 + lenc.len();
    assert(p + plen <= s.len());
    assert(s.subrange(p, p + plen) =~= rs.payload) by {
        assert forall|j: int| 0 <= j < plen implies s.subrange(p, p + plen)[j]
            == rs.payload[j] by {
            assert(s.subrange(p, p + plen)[j] == s[p + j]);
            assert(e[1 + lenc.len() + j] == rs.payload[j]);
        }
    }
}

/// A run of encoded raw sections embedded at `pos`, reaching exactly to
/// the end of the input, parses back to those sections.
proof fn lemma_parse_encoded_sections(s: Seq<u8>, pos: int, ss: Seq<RawSectionV>, i: int)
    requires
        0 <= pos <= s.len(),
        0 <= i <= ss.len(),
        raw_sections_well_formed(ss),
        s.subrange(pos, s.len() as int) == encode_raw_sections(ss, i),
    ensures
        spec_parse_raw_sections(s, pos) == Ok::<Seq<RawSectionV>, ParseError>(
            ss.subrange(i, ss.len() as int),
        ),
    decreases ss.len() - i,
{
    if i >= ss.len() {
        assert(s.subrange(pos, s.len() as int).len() == 0);
        assert(pos == s.len());
        assert(ss.subrange(i, ss.len() as int) =~= Seq::<RawSectionV>::empty());
    } else {
        let e = encode_raw_section(ss[i]);
        let rest = encode_raw_sections(ss, i + 1);
        assert(s.subrange(pos, s.len() as int).len() == e.len() + rest.len());
        assert(pos + e.len() <= s.len());
        assert(s.subrange(pos, pos + e.len() as int) =~= e) by {
            assert forall|j: int| 0 <= j < e.len() implies s.subrange(pos, pos + e.len() as int)[j]
                == e[j] by {
                assert(s.subrange(pos, s.len() as int)[j] == s[pos + j]);
                assert((e + rest)[j] == e[j]);
            }
        }
        lemma_parse_encoded_section(s, pos, ss[i]);
        let p = pos + e.len();
        assert(s.subrange(p, s.len() as int) =~= rest) by {
            assert forall|j: int| 0 <= j < rest.len() implies s.subrange(p, s.len() as int)[j]
                == rest[j] by {
                assert(s.subrange(p, s.len() as int)[j] == s[p + j]);
                assert(s.subrange(pos, s.len() as int)[e.len() + j] == s[p + j]);
                assert((e + rest)[e.len() + j] == rest[j]);
            }
        }
        lemma_parse_encoded_sections(s, p, ss, i + 1);
        assert(e.len() > 0);
        assert(seq![ss[i]] + ss.subrange(i + 1, ss.len() as int) =~= ss.subrange(
            i,
            ss.len() as int,
        ));
    }
}

/// Law: decoding the canonical raw encoding of a module yields that module
/// back.  Together with the parser's contract, `parse_raw_module` run on
/// the encoding returns exactly these sections under magic `\0asm` and
/// version 1.
pub proof fn lemma_raw_module_round_trip(sections: Seq<RawSectionV>)
    requires
        raw_sections_well_formed(sections),
    ensures
        ({
            let s = magic_bytes() + seq![1u8, 0u8, 0u8, 0u8] + encode_raw_sections(sections, 0);
            spec_parse_raw_module(s) == Ok::<RawModuleV, ParseError>(
                RawModuleV { magic: magic_bytes(), version: 1, sections },
            )
        }),
{
    let s = magic_bytes() + seq![1u8, 0u8, 0u8, 0u8] + encode_raw_sections(sections, 0);
    assert(s.subrange(0, 4) =~= magic_bytes());
    assert(s[4] == 1u8 && s[5] == 0u8 && s[6] == 0u8 && s[7] == 0u8);
    assert(spec_le_u32_at(s, 4) == 1);
    assert(s.subrange(8, s.len() as int) =~= encode_raw_sections(sections, 0)) by {
        assert forall|j: int| 0 <= j < s.len() - 8 implies s.subrange(8, s.len() as int)[j]
            == encode_raw_sections(sections, 0)[j] by {
            assert(s.subrange(8, s.len() as int)[j] == s[8 + j]);
        }
    }
    lemma_parse_encoded_sections(s, 8, sections, 0);
    assert(sections.subrange(0, sections.len() as int) =~= sections);
}

} // verus!
