use std::collections::HashMap;
use vstd::prelude::*;
use vstd::arithmetic::div_mod::lemma_fundamental_div_mod_converse;
use crate::decoder::{
    DecodedInsn, Decoder, DecoderConfig, cpu_count, decoded, decoder_builds, detail_lists, detail_lists_of, disasm_first,
    group_name, group_name_of, insn_fields, insn_name, insn_name_of, reg_name, reg_name_of,
};
use crate::error::GadgetError;
use crate::instruction::{Instruction, InstructionDetail, same_detail, same_instruction};

verus! {

broadcast use vstd::std_specs::hash::group_hash_axioms;

/// An executable byte range loaded at virtual address `base`.
pub struct Section<'a> {
    pub base: usize,
    pub bytes: &'a [u8],
}

/// How one architecture is decoded.
pub trait DisassemblyArch {
    spec fn alignment_spec(&self) -> usize;

    spec fn max_len_spec(&self) -> usize;

    /// Settings of this architecture's decoder.
    spec fn config_spec(&self) -> DecoderConfig;

    /// The decoder reads this architecture's detail for the instruction at
    /// the start of `code`.
    spec fn detail_found(&self, code: Seq<u8>, address: u64) -> bool;

    /// `d` is the detail made of that instruction, whose identifier is `id`.
    spec fn detail_is(&self, code: Seq<u8>, address: u64, id: u32, d: InstructionDetail) -> bool;

    /// Details that this decoding can produce.
    spec fn produces(&self, d: InstructionDetail) -> bool;

    proof fn lemma_detail_produced(&self, code: Seq<u8>, address: u64, id: u32, d: InstructionDetail)
        requires
            self.detail_is(code, address, id, d),
        ensures
            self.produces(d),
    ;

    proof fn lemma_produced_alike(&self, a: InstructionDetail, b: InstructionDetail)
        requires
            self.produces(a),
            self.produces(b),
        ensures
            same_detail(a, b),
    ;

    /// Alignment of instruction addresses.
    fn alignment(&self) -> (r: usize)
        ensures
            r == self.alignment_spec(),
            r >= 1,
    ;

    /// Longest encoding of one instruction, in bytes.
    fn max_len(&self) -> (r: usize)
        ensures
            r == self.max_len_spec(),
            r >= 1,
    ;

    /// A decoder configured for this architecture, mode and endianness.
    fn capstone(&self) -> (r: Result<Decoder, GadgetError>)
        ensures
            r is Ok <==> decoder_builds(self.config_spec()),
            r matches Ok(d) ==> d.settings() == self.config_spec(),
    ;

    /// The architecture-specific detail of a decoded instruction.
    fn instruction_details(&self, dec: &Decoder, insn: &DecodedInsn, id: u32) -> (r: Result<InstructionDetail, GadgetError>)
        requires
            dec.settings() == self.config_spec(),
            insn.settings() == self.config_spec(),
        ensures
            r is Ok <==> self.detail_found(insn.code(), insn.address()),
            r matches Ok(d) ==> self.detail_is(insn.code(), insn.address(), id, d),
    ;
}

pub open spec fn names_resolve(config: DecoderConfig, ids: Seq<u16>) -> bool {
    forall|k: int| 0 <= k < ids.len() ==> (#[trigger] reg_name_of(config, ids[k])) is Some
}

pub open spec fn groups_resolve(config: DecoderConfig, ids: Seq<u8>) -> bool {
    forall|k: int| 0 <= k < ids.len() ==> (#[trigger] group_name_of(config, ids[k])) is Some
}

/// `named` pairs each register of `ids` with its name.
pub open spec fn named_regs(config: DecoderConfig, named: Seq<(u16, String)>, ids: Seq<u16>) -> bool {
    &&& named.len() == ids.len()
    &&& forall|k: int| 0 <= k < ids.len() ==> (#[trigger] named[k]).0 == ids[k] && reg_name_of(config, ids[k]) == Some(named[k].1@)
}

/// `named` pairs each group of `ids` with its name.
pub open spec fn named_groups(config: DecoderConfig, named: Seq<(u8, String)>, ids: Seq<u8>) -> bool {
    &&& named.len() == ids.len()
    &&& forall|k: int| 0 <= k < ids.len() ==> (#[trigger] named[k]).0 == ids[k] && group_name_of(config, ids[k]) == Some(named[k].1@)
}

/// An instruction record can be made of the start of `code` at `address`:
/// it decodes, its names resolve and its detail is read.
pub open spec fn decodes<A: DisassemblyArch>(arch: A, code: Seq<u8>, address: u64) -> bool {
    let config = arch.config_spec();
    match (decoded(config, code, address), detail_lists_of(config, code, address)) {
        (Some(d), Some((rr, rw, gs))) => {
            &&& insn_name_of(config, d.id) is Some
            &&& d.mnemonic is Some
            &&& d.op_str is Some
            &&& names_resolve(config, rr)
            &&& names_resolve(config, rw)
            &&& groups_resolve(config, gs)
            &&& arch.detail_found(code, address)
        },
        _ => false,
    }
}

/// `i` is the record made of the start of `code` at `address`.
pub open spec fn is_decode<A: DisassemblyArch>(arch: A, code: Seq<u8>, address: u64, i: Instruction) -> bool {
    let config = arch.config_spec();
    match (decoded(config, code, address), detail_lists_of(config, code, address)) {
        (Some(d), Some((rr, rw, gs))) => {
            &&& i.id == d.id
            &&& i.length == d.length
            &&& i.bytes@ == d.bytes
            &&& i.address == address
            &&& Some(i.name@) == insn_name_of(config, d.id)
            &&& Some(i.mnemonic@) == d.mnemonic
            &&& Some(i.operands@) == d.op_str
            &&& named_regs(config, i.regs_read@, rr)
            &&& named_regs(config, i.regs_write@, rw)
            &&& named_groups(config, i.groups@, gs)
            &&& arch.detail_is(code, address, d.id, i.detail)
            &&& 1 <= i.length <= code.len()
            &&& i.bytes@ == code.subrange(0, i.length as int)
        },
        _ => false,
    }
}

/// Length of each of the `chunks` ranges a section of `length` bytes is cut into.
pub open spec fn chunk_size(length: int, chunks: int) -> int {
    length / chunks + if length % chunks != 0 { 1int } else { 0int }
}

/// End of the bytes decoded at offset `i`: `max_len` bytes on, cut at the
/// end of the range holding `i`.
pub open spec fn window_end(length: int, chunks: int, max_len: int, i: int) -> int {
    let cs = chunk_size(length, chunks);
    let range_end = if (i / cs + 1) * cs <= length { (i / cs + 1) * cs } else { length };
    if i + max_len <= range_end { i + max_len } else { range_end }
}

/// The bytes decoded at offset `i` of section `s`.
pub open spec fn window(s: Section, chunks: usize, max_len: usize, i: int) -> Seq<u8> {
    s.bytes@.subrange(i, window_end(s.bytes@.len() as int, chunks as int, max_len as int, i))
}

/// Offset `i` of section `k` is aligned and its window makes a record.
pub open spec fn swept_offset<A: DisassemblyArch>(arch: A, sections: Seq<Section>, chunks: usize, k: int, i: int) -> bool {
    &&& 0 <= k < sections.len()
    &&& 0 <= i < sections[k].bytes@.len()
    &&& (sections[k].base + i) % (arch.alignment_spec() as int) == 0
    &&& decodes(arch, window(sections[k], chunks, arch.max_len_spec(), i), (sections[k].base + i) as u64)
}

/// `insn` is the record made at offset `i` of section `k`.
pub open spec fn decoded_at<A: DisassemblyArch>(arch: A, sections: Seq<Section>, chunks: usize, k: int, i: int, insn: Instruction) -> bool {
    &&& 0 <= k < sections.len()
    &&& 0 <= i < sections[k].bytes@.len()
    &&& (sections[k].base + i) % (arch.alignment_spec() as int) == 0
    &&& is_decode(arch, window(sections[k], chunks, arch.max_len_spec(), i), (sections[k].base + i) as u64, insn)
}

pub open spec fn from_sweep<A: DisassemblyArch>(arch: A, sections: Seq<Section>, chunks: usize, insn: Instruction) -> bool {
    exists|k: int, i: int| #[trigger] decoded_at(arch, sections, chunks, k, i, insn)
}

pub open spec fn has_address(v: Seq<Instruction>, a: u64) -> bool {
    exists|j: int| 0 <= j < v.len() && v[j].address == a
}

/// `v` is the result of sweeping `sections` cut into `chunks` ranges: every
/// record comes from an aligned offset, every aligned offset whose window
/// decodes has a record at its address, and no address repeats.
pub open spec fn sweep_ok<A: DisassemblyArch>(arch: A, sections: Seq<Section>, chunks: usize, v: Seq<Instruction>) -> bool {
    &&& forall|j: int| 0 <= j < v.len() ==> from_sweep(arch, sections, chunks, #[trigger] v[j])
    &&& forall|k: int, i: int| #[trigger] swept_offset(arch, sections, chunks, k, i)
        ==> has_address(v, (sections[k].base + i) as u64)
    &&& forall|a: int, b: int| 0 <= a < b < v.len() ==> (#[trigger] v[a]).address != (#[trigger] v[b]).address
}

/// Some section holds bytes.
pub open spec fn has_code(sections: Seq<Section>) -> bool {
    exists|k: int| 0 <= k < sections.len() && (#[trigger] sections[k]).bytes@.len() > 0
}

/// Sections whose addresses all fit in a machine word.
pub open spec fn sections_fit(sections: Seq<Section>) -> bool {
    forall|k: int| 0 <= k < sections.len() ==> (#[trigger] sections[k]).base + sections[k].bytes@.len() <= usize::MAX
}

pub struct Disassembler;

impl Disassembler {
    /// Decodes one instruction at the start of `bytes`, which sit at address `base`.
    pub fn disassemble_insn<A: DisassemblyArch>(arch: &A, dec: &Decoder, base: u64, bytes: &[u8]) -> (r: Result<Instruction, GadgetError>)
        requires
            dec.settings() == arch.config_spec(),
        ensures
            r is Ok <==> decodes(*arch, bytes@, base),
            r matches Ok(i) ==> is_decode(*arch, bytes@, base, i),
    {
        let ghost config = arch.config_spec();
        let raw = match disasm_first(dec, bytes, base) {
            Some(raw) => raw,
            None => return Err(GadgetError::Undecodable),
        };
        let (id, length, code, mnemonic, op_str) = insn_fields(&raw);
        let lists = detail_lists(dec, &raw);
        let name = match insn_name(dec, id) {
            Some(n) => n,
            None => return Err(GadgetError::Undecodable),
        };
        let mnemonic = match mnemonic {
            Some(m) => m,
            None => return Err(GadgetError::Undecodable),
        };
        let operands = match op_str {
            Some(o) => o,
            None => return Err(GadgetError::Undecodable),
        };
        let (read, write, group_ids) = match lists {
            Some(l) => l,
            None => return Err(GadgetError::Undecodable),
        };
        let regs_read = Self::named_regs(dec, &read)?;
        let regs_write = Self::named_regs(dec, &write)?;
        let groups = Self::named_groups(dec, &group_ids)?;
        let detail = arch.instruction_details(dec, &raw, id)?;
        Ok(Instruction {
            id,
            name,
            length,
            address: base,
            bytes: code,
            mnemonic,
            operands,
            regs_read,
            regs_write,
            groups,
            detail,
        })
    }

    fn named_regs(dec: &Decoder, ids: &Vec<u16>) -> (r: Result<Vec<(u16, String)>, GadgetError>)
        ensures
            r is Ok <==> names_resolve(dec.settings(), ids@),
            r matches Ok(v) ==> named_regs(dec.settings(), v@, ids@),
    {
        let mut out: Vec<(u16, String)> = Vec::new();
        let mut k: usize = 0;
        while k < ids.len()
            invariant
                k <= ids@.len(),
                out@.len() == k,
                forall|x: int| 0 <= x < k ==> (#[trigger] out@[x]).0 == ids@[x] && reg_name_of(dec.settings(), ids@[x]) == Some(out@[x].1@),
            decreases ids@.len() - k,
        {
            let n = match reg_name(dec, ids[k]) {
                Some(n) => n,
                None => {
                    assert(reg_name_of(dec.settings(), ids@[k as int]) is None);
                    return Err(GadgetError::Undecodable);
                },
            };
            out.push((ids[k], n));
            k = k + 1;
        }
        assert forall|x: int| 0 <= x < ids@.len() implies (#[trigger] reg_name_of(dec.settings(), ids@[x])) is Some by {
            assert(out@[x].0 == ids@[x]);
        }
        Ok(out)
    }

    fn named_groups(dec: &Decoder, ids: &Vec<u8>) -> (r: Result<Vec<(u8, String)>, GadgetError>)
        ensures
            r is Ok <==> groups_resolve(dec.settings(), ids@),
            r matches Ok(v) ==> named_groups(dec.settings(), v@, ids@),
    {
        let mut out: Vec<(u8, String)> = Vec::new();
        let mut k: usize = 0;
        while k < ids.len()
            invariant
                k <= ids@.len(),
                out@.len() == k,
                forall|x: int| 0 <= x < k ==> (#[trigger] out@[x]).0 == ids@[x] && group_name_of(dec.settings(), ids@[x]) == Some(out@[x].1@),
            decreases ids@.len() - k,
        {
            let n = match group_name(dec, ids[k]) {
                Some(n) => n,
                None => {
                    assert(group_name_of(dec.settings(), ids@[k as int]) is None);
                    return Err(GadgetError::Undecodable);
                },
            };
            out.push((ids[k], n));
            k = k + 1;
        }
        assert forall|x: int| 0 <= x < ids@.len() implies (#[trigger] group_name_of(dec.settings(), ids@[x])) is Some by {
            assert(out@[x].0 == ids@[x]);
        }
        Ok(out)
    }

    /// Superset disassembly of every section, with the sections cut into
    /// as many ranges as there are processors.
    pub fn disassemble<A: DisassemblyArch>(arch: &A, sections: &Vec<Section>) -> (r: Result<Vec<Instruction>, GadgetError>)
        requires
            sections_fit(sections@),
        ensures
            r is Err <==> has_code(sections@) && !decoder_builds(arch.config_spec()),
            r matches Ok(v) ==> exists|chunks: usize| chunks >= 1 && #[trigger] sweep_ok(*arch, sections@, chunks, v@),
    {
        let chunks = cpu_count();
        let r = Self::disassemble_in_chunks(arch, sections, chunks);
        proof {
            if let Ok(ref v) = r {
                assert(sweep_ok(*arch, sections@, chunks, v@));
            }
        }
        r
    }

    /// Superset disassembly: each section is cut into `chunks` contiguous
    /// ranges, and an instruction is decoded at every aligned offset from
    /// the bytes up to `max_len` on, cut at the end of its range. Decoding
    /// failures are skipped; a later instruction at an address already seen
    /// replaces the earlier.
    pub fn disassemble_in_chunks<A: DisassemblyArch>(arch: &A, sections: &Vec<Section>, chunks: usize) -> (r: Result<Vec<Instruction>, GadgetError>)
        requires
            chunks >= 1,
            sections_fit(sections@),
        ensures
            r is Err <==> has_code(sections@) && !decoder_builds(arch.config_spec()),
            r matches Ok(v) ==> sweep_ok(*arch, sections@, chunks, v@),
    {
        let mut any = false;
        let mut k: usize = 0;
        while k < sections.len()
            invariant
                k <= sections@.len(),
                any <==> exists|x: int| 0 <= x < k && (#[trigger] sections@[x]).bytes@.len() > 0,
            decreases sections@.len() - k,
        {
            if sections[k].bytes.len() > 0 {
                any = true;
            }
            k = k + 1;
        }
        if !any {
            let v: Vec<Instruction> = Vec::new();
            assert forall|k: int, i: int| #[trigger] swept_offset(*arch, sections@, chunks, k, i)
                implies has_address(v@, (sections@[k].base + i) as u64) by {
                assert(sections@[k].bytes@.len() > 0);
            }
            return Ok(v);
        }
        let dec = arch.capstone()?;
        let align = arch.alignment();
        let max_len = arch.max_len();
        let mut insns: Vec<Instruction> = Vec::new();
        let mut positions: HashMap<u64, usize> = HashMap::new();
        let mut k: usize = 0;
        while k < sections.len()
            invariant
                chunks >= 1,
                dec.settings() == arch.config_spec(),
                align == arch.alignment_spec(),
                max_len == arch.max_len_spec(),
                align >= 1,
                max_len >= 1,
                k <= sections@.len(),
                sections_fit(sections@),
                forall|i: int| 0 <= i < insns@.len() ==> from_sweep(*arch, sections@, chunks, #[trigger] insns@[i]),
                forall|a: int, b: int| 0 <= a < b < insns@.len() ==> (#[trigger] insns@[a]).address != (#[trigger] insns@[b]).address,
                forall|a: u64| #[trigger] positions@.contains_key(a) ==> positions@[a] < insns@.len() && insns@[positions@[a] as int].address == a,
                forall|i: int| 0 <= i < insns@.len() ==> positions@.contains_key(#[trigger] insns@[i].address),
                forall|k2: int, o: int| k2 < k && #[trigger] swept_offset(*arch, sections@, chunks, k2, o)
                    ==> has_address(insns@, (sections@[k2].base + o) as u64),
            decreases sections@.len() - k,
        {
            let s = &sections[k];
            let length = s.bytes.len();
            assert(s.base + length <= usize::MAX);
            if length > 0 {
                let q = length / chunks;
                let rem = length % chunks;
                assert(q * chunks + rem == length && rem < chunks) by (nonlinear_arith)
                    requires
                        chunks >= 1,
                        q == length / chunks,
                        rem == length % chunks,
                ;
                assert(rem != 0 ==> q < length) by (nonlinear_arith)
                    requires
                        chunks >= 1,
                        q * chunks + rem == length,
                        q >= 0,
                ;
                assert(rem == 0 ==> q >= 1) by (nonlinear_arith)
                    requires
                        chunks >= 1,
                        length >= 1,
                        q * chunks + rem == length,
                        q >= 0,
                ;
                let chunk_len = if rem != 0 { q + 1 } else { q };
                assert(chunk_len == chunk_size(length as int, chunks as int));
                let mut start: usize = 0;
                let ghost mut index: int = 0;
                while start < length
                    invariant
                        chunks >= 1,
                        dec.settings() == arch.config_spec(),
                        align == arch.alignment_spec(),
                        max_len == arch.max_len_spec(),
                        align >= 1,
                        max_len >= 1,
                        chunk_len >= 1,
                        chunk_len == chunk_size(length as int, chunks as int),
                        k < sections@.len(),
                        *s == sections@[k as int],
                        length == s.bytes@.len(),
                        s.base + length <= usize::MAX,
                        start <= length,
                        index >= 0,
                        start < length ==> start == index * chunk_len,
                        sections_fit(sections@),
                        forall|i: int| 0 <= i < insns@.len() ==> from_sweep(*arch, sections@, chunks, #[trigger] insns@[i]),
                        forall|a: int, b: int| 0 <= a < b < insns@.len() ==> (#[trigger] insns@[a]).address != (#[trigger] insns@[b]).address,
                        forall|a: u64| #[trigger] positions@.contains_key(a) ==> positions@[a] < insns@.len() && insns@[positions@[a] as int].address == a,
                        forall|i: int| 0 <= i < insns@.len() ==> positions@.contains_key(#[trigger] insns@[i].address),
                        forall|k2: int, o: int| (k2 < k || (k2 == k && o < start)) && #[trigger] swept_offset(*arch, sections@, chunks, k2, o)
                            ==> has_address(insns@, (sections@[k2].base + o) as u64),
                    decreases length - start,
                {
                    let end = if chunk_len <= length - start { start + chunk_len } else { length };
                    assert((index + 1) * chunk_len == index * chunk_len + chunk_len) by (nonlinear_arith);
                    let mut i: usize = start;
                    while i < end
                        invariant
                            chunks >= 1,
                            dec.settings() == arch.config_spec(),
                            align == arch.alignment_spec(),
                            max_len == arch.max_len_spec(),
                            align >= 1,
                            max_len >= 1,
                            chunk_len >= 1,
                            chunk_len == chunk_size(length as int, chunks as int),
                            k < sections@.len(),
                            *s == sections@[k as int],
                            length == s.bytes@.len(),
                            s.base + length <= usize::MAX,
                            index >= 0,
                            start == index * chunk_len,
                            (index + 1) * chunk_len == start + chunk_len,
                            end == (if (index + 1) * chunk_len <= length { (index + 1) * chunk_len } else { length as int }),
                            start <= i <= end,
                            end <= length,
                            forall|i: int| 0 <= i < insns@.len() ==> from_sweep(*arch, sections@, chunks, #[trigger] insns@[i]),
                            forall|a: int, b: int| 0 <= a < b < insns@.len() ==> (#[trigger] insns@[a]).address != (#[trigger] insns@[b]).address,
                            forall|a: u64| #[trigger] positions@.contains_key(a) ==> positions@[a] < insns@.len() && insns@[positions@[a] as int].address == a,
                            forall|i: int| 0 <= i < insns@.len() ==> positions@.contains_key(#[trigger] insns@[i].address),
                            forall|k2: int, o: int| (k2 < k || (k2 == k && o < i)) && #[trigger] swept_offset(*arch, sections@, chunks, k2, o)
                                ==> has_address(insns@, (sections@[k2].base + o) as u64),
                        decreases end - i,
                    {
                        proof {
                            lemma_fundamental_div_mod_converse(i as int, chunk_len as int, index, i - start);
                            assert((index + 1) * chunk_len == index * chunk_len + chunk_len) by (nonlinear_arith);
                        }
                        let addr = s.base + i;
                        let ghost a = addr as u64;
                        if addr % align == 0 {
                            let stop = if max_len <= end - i { i + max_len } else { end };
                            assert(stop == window_end(length as int, chunks as int, max_len as int, i as int));
                            let mut code: Vec<u8> = Vec::new();
                            let mut b: usize = i;
                            while b < stop
                                invariant
                                    i <= b <= stop,
                                    stop <= length,
                                    length == s.bytes@.len(),
                                    code@ == s.bytes@.subrange(i as int, b as int),
                                decreases stop - b,
                            {
                                code.push(s.bytes[b]);
                                b = b + 1;
                                assert(code@ =~= s.bytes@.subrange(i as int, b as int));
                            }
                            assert(code@ == window(sections@[k as int], chunks, max_len, i as int));
                            match Self::disassemble_insn(arch, &dec, addr as u64, code.as_slice()) {
                                Ok(insn) => {
                                    proof {
                                        assert(decoded_at(*arch, sections@, chunks, k as int, i as int, insn));
                                    }
                                    Self::record::<A>(&mut insns, &mut positions, insn, Ghost(*arch), Ghost(sections@), Ghost(chunks));
                                },
                                Err(_) => {
                                    assert(!swept_offset(*arch, sections@, chunks, k as int, i as int));
                                },
                            }
                        } else {
                            assert(!swept_offset(*arch, sections@, chunks, k as int, i as int));
                        }
                        i = i + 1;
                    }
                    proof {
                        assert((index + 1) * chunk_len == index * chunk_len + chunk_len) by (nonlinear_arith);
                        index = index + 1;
                    }
                    start = end;
                }
            } else {
                assert forall|k2: int, o: int| (k2 < k + 1) && #[trigger] swept_offset(*arch, sections@, chunks, k2, o)
                    implies has_address(insns@, (sections@[k2].base + o) as u64) by {
                    assert(k2 != k);
                }
            }
            k = k + 1;
        }
        Ok(insns)
    }

    /// Stores `insn`, replacing an instruction recorded at the same address.
    fn record<A: DisassemblyArch>(
        insns: &mut Vec<Instruction>,
        positions: &mut HashMap<u64, usize>,
        insn: Instruction,
        Ghost(arch): Ghost<A>,
        Ghost(sections): Ghost<Seq<Section>>,
        Ghost(chunks): Ghost<usize>,
    )
        requires
            from_sweep(arch, sections, chunks, insn),
            forall|i: int| 0 <= i < old(insns)@.len() ==> from_sweep(arch, sections, chunks, #[trigger] old(insns)@[i]),
            forall|i: int, j: int| 0 <= i < j < old(insns)@.len() ==> (#[trigger] old(insns)@[i]).address != (#[trigger] old(insns)@[j]).address,
            forall|a: u64| #[trigger] old(positions)@.contains_key(a) ==> old(positions)@[a] < old(insns)@.len() && old(insns)@[old(positions)@[a] as int].address == a,
            forall|i: int| 0 <= i < old(insns)@.len() ==> old(positions)@.contains_key(#[trigger] old(insns)@[i].address),
        ensures
            forall|i: int| 0 <= i < final(insns)@.len() ==> from_sweep(arch, sections, chunks, #[trigger] final(insns)@[i]),
            forall|i: int, j: int| 0 <= i < j < final(insns)@.len() ==> (#[trigger] final(insns)@[i]).address != (#[trigger] final(insns)@[j]).address,
            forall|a: u64| #[trigger] final(positions)@.contains_key(a) ==> final(positions)@[a] < final(insns)@.len() && final(insns)@[final(positions)@[a] as int].address == a,
            forall|i: int| 0 <= i < final(insns)@.len() ==> final(positions)@.contains_key(#[trigger] final(insns)@[i].address),
            forall|a: u64| has_address(old(insns)@, a) ==> has_address(final(insns)@, a),
            has_address(final(insns)@, insn.address),
    {
        let a = insn.address;
        let ghost before = insns@;
        let ghost old_pos = positions@;
        match positions.get(&a) {
            Some(p) => {
                let p = *p;
                insns.set(p, insn);
                proof {
                    assert forall|i: int, j: int| 0 <= i < j < insns@.len() implies (#[trigger] insns@[i]).address != (#[trigger] insns@[j]).address by {
                        assert(insns@[i].address == before[i].address);
                        assert(insns@[j].address == before[j].address);
                    }
                    assert forall|b: u64| #[trigger] positions@.contains_key(b) implies positions@[b] < insns@.len() && insns@[positions@[b] as int].address == b by {
                        assert(insns@[positions@[b] as int].address == before[positions@[b] as int].address);
                    }
                    assert forall|i: int| 0 <= i < insns@.len() implies positions@.contains_key(#[trigger] insns@[i].address) by {
                        assert(insns@[i].address == before[i].address);
                    }
                    assert forall|b: u64| has_address(before, b) implies has_address(insns@, b) by {
                        let j = choose|j: int| 0 <= j < before.len() && before[j].address == b;
                        assert(insns@[j].address == b);
                    }
                    assert(insns@[p as int].address == a);
                }
            },
            None => {
                let n = insns.len();
                positions.insert(a, n);
                insns.push(insn);
                proof {
                    assert forall|i: int| 0 <= i < insns@.len() implies from_sweep(arch, sections, chunks, #[trigger] insns@[i]) by {
                        if i < n {
                            assert(insns@[i] == before[i]);
                        }
                    }
                    assert forall|i: int, j: int| 0 <= i < j < insns@.len() implies (#[trigger] insns@[i]).address != (#[trigger] insns@[j]).address by {
                        assert(insns@[i] == before[i]);
                        if j < n {
                            assert(insns@[j] == before[j]);
                        } else {
                            assert(old_pos.contains_key(before[i].address));
                        }
                    }
                    assert forall|b: u64| #[trigger] positions@.contains_key(b) implies positions@[b] < insns@.len() && insns@[positions@[b] as int].address == b by {
                        if b != a {
                            assert(old_pos.contains_key(b));
                            assert(insns@[positions@[b] as int] == before[positions@[b] as int]);
                        }
                    }
                    assert forall|i: int| 0 <= i < insns@.len() implies positions@.contains_key(#[trigger] insns@[i].address) by {
                        if i < n {
                            assert(insns@[i] == before[i]);
                            assert(old_pos.contains_key(before[i].address));
                        }
                    }
                    assert forall|b: u64| has_address(before, b) implies has_address(insns@, b) by {
                        let j = choose|j: int| 0 <= j < before.len() && before[j].address == b;
                        assert(insns@[j] == before[j]);
                    }
                    assert(insns@[n as int].address == a);
                }
            },
        }
    }
}

/// Two records made of the same bytes at the same address are equal, field
/// for field, and equal as instructions.
pub proof fn lemma_decode_deterministic<A: DisassemblyArch>(arch: A, code: Seq<u8>, address: u64, a: Instruction, b: Instruction)
    requires
        is_decode(arch, code, address, a),
        is_decode(arch, code, address, b),
    ensures
        same_instruction(a, b),
        a.id == b.id && a.length == b.length && a.address == b.address,
        a.name@ == b.name@ && a.mnemonic@ == b.mnemonic@ && a.operands@ == b.operands@,
{
    let config = arch.config_spec();
    let d = decoded(config, code, address).unwrap();
    arch.lemma_detail_produced(code, address, d.id, a.detail);
    arch.lemma_detail_produced(code, address, d.id, b.detail);
    arch.lemma_produced_alike(a.detail, b.detail);
}

} // verus!
