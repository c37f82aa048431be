use vstd::prelude::*;

use capstone::arch::x86::X86OperandType;
use capstone::arch::ArchOperand;
use vstd::string::StringExecFns;

use crate::error::ExecutableError;
use crate::executable::{addr_lookup, Executable};
use crate::function::{FuncModel, Function};

verus! {

/// The capstone disassembler context, opaque to the verifier. Its mode and
/// syntax configuration belong to the host that builds it.
#[verifier::external_type_specification]
#[verifier::external_body]
pub struct ExCapstone(capstone::Capstone);

/// The decoder's buffer of decoded instructions, opaque to the verifier;
/// the decode wrapper reads plain values out of it one instruction at a
/// time.
#[verifier::external_type_specification]
#[verifier::external_body]
pub struct ExInstructions<'a>(capstone::Instructions<'a>);

/// One decoded instruction of the decoder's buffer, opaque to the verifier;
/// the decode wrapper reads it out into a [`DecodedInsn`].
#[verifier::external_type_specification]
#[verifier::external_body]
pub struct ExInsn<'a>(capstone::Insn<'a>);

/// Ghost image of a [`DecodedInsn`].
pub ghost struct InsnModel {
    pub mnemonic: Option<Seq<char>>,
    pub op_str: Option<Seq<char>>,
    pub groups: Seq<Seq<char>>,
    pub operands: Seq<Option<i64>>,
}

/// One decoded instruction, reduced to the plain values the listing logic
/// reads: the mnemonic and raw operand text as the decoder prints them (a
/// missing mnemonic marks a decode failure at that boundary), the
/// instruction-group names, and one entry per operand — the value for an
/// immediate operand, `None` for any other operand kind.
#[derive(Clone, Debug)]
pub struct DecodedInsn {
    pub mnemonic: Option<String>,
    pub op_str: Option<String>,
    pub groups: Vec<String>,
    pub operands: Vec<Option<i64>>,
}

impl View for DecodedInsn {
    type V = InsnModel;

    open spec fn view(&self) -> InsnModel {
        InsnModel {
            mnemonic: match self.mnemonic {
                Some(m) => Some(m@),
                None => None,
            },
            op_str: match self.op_str {
                Some(s) => Some(s@),
                None => None,
            },
            groups: self.groups@.map(|i: int, g: String| g@),
            operands: self.operands@,
        }
    }
}

/// The immediate operand of an instruction that has exactly one operand and
/// whose operand is an immediate; `None` for every other operand shape.
pub open spec fn single_imm(insn: InsnModel) -> Option<i64> {
    if insn.operands.len() == 1 {
        insn.operands[0]
    } else {
        None
    }
}

/// The instruction is classified as both a call and a relative branch: the
/// only shape whose target the listing resolves to a function name.
pub open spec fn is_relative_call(insn: InsnModel) -> bool {
    insn.groups.contains("call"@) && insn.groups.contains("branch_relative"@)
}

/// The mode tag the target arithmetic goes by: 32-bit two's-complement
/// arithmetic exactly when the decoder did not emit the group that marks an
/// encoding as unavailable in 64-bit mode.
pub open spec fn is_32bit_mode(insn: InsnModel) -> bool {
    !insn.groups.contains("not64bitmode"@)
}

/// The absolute target address of a resolved relative call. When the
/// function was disassembled as if loaded at zero, the target is the
/// function's recorded address plus the immediate, in mode-dependent signed
/// width with wraparound; otherwise the decoder already reports the target
/// as the immediate itself.
pub open spec fn spec_target_address(
    force_address_zero: bool,
    is_32bit: bool,
    self_address: usize,
    imm: i64,
) -> usize {
    if force_address_zero {
        if is_32bit {
            ((self_address as i32).wrapping_add(imm as i32)) as usize
        } else {
            ((self_address as i64).wrapping_add(imm)) as usize
        }
    } else {
        imm as usize
    }
}

/// The plain line for one decoded instruction: `<mnemonic> <raw-operands>\n`,
/// with empty operand text when the decoder printed none, and nothing at
/// all for an instruction without a mnemonic.
pub open spec fn spec_raw_line(insn: InsnModel) -> Seq<char> {
    match insn.mnemonic {
        None => Seq::empty(),
        Some(m) => m + seq![' '] + (match insn.op_str {
            Some(s) => s,
            None => Seq::empty(),
        }) + seq!['\n'],
    }
}

/// The line printed for one decoded instruction: nothing for an instruction
/// without a mnemonic; `<mnemonic> <function-name>\n` for a resolved call
/// whose target address carries a known function; and the plain
/// `<mnemonic> <raw-operands>\n` line for everything else.
pub open spec fn spec_format_insn(
    insn: InsnModel,
    table: Seq<FuncModel>,
    force_address_zero: bool,
    resolve_names: bool,
    self_address: usize,
) -> Seq<char> {
    match insn.mnemonic {
        None => Seq::empty(),
        Some(m) => if resolve_names && is_relative_call(insn) {
            match single_imm(insn) {
                None => spec_raw_line(insn),
                Some(imm) => match addr_lookup(
                    table,
                    spec_target_address(
                        force_address_zero,
                        is_32bit_mode(insn),
                        self_address,
                        imm,
                    ),
                ) {
                    Some(f) => m + seq![' '] + f.name + seq!['\n'],
                    None => spec_raw_line(insn),
                },
            }
        } else {
            spec_raw_line(insn)
        },
    }
}

/// The whole listing: the lines of the instructions in decode order.
pub open spec fn spec_listing(
    insns: Seq<InsnModel>,
    table: Seq<FuncModel>,
    force_address_zero: bool,
    resolve_names: bool,
    self_address: usize,
) -> Seq<char>
    decreases insns.len(),
{
    if insns.len() == 0 {
        Seq::empty()
    } else {
        spec_listing(insns.drop_last(), table, force_address_zero, resolve_names, self_address)
            + spec_format_insn(insns.last(), table, force_address_zero, resolve_names, self_address)
    }
}

/// Whether `groups` holds a group called `name`.
fn contains_group(groups: &Vec<String>, name: &str) -> (r: bool)
    ensures
        r == groups@.map(|i: int, g: String| g@).contains(name@),
{
    let key: String = name.to_owned();
    let mut i: usize = 0;
    while i < groups.len()
        invariant
            0 <= i <= groups@.len(),
            key@ == name@,
            forall|j: int| 0 <= j < i ==> groups@[j]@ != name@,
        decreases groups@.len() - i,
    {
        if groups[i] == key {
            proof {
                assert(groups@.map(|j: int, g: String| g@)[i as int] == name@);
            }
            return true;
        }
        i = i + 1;
    }
    proof {
        let ms = groups@.map(|jj: int, g: String| g@);
        if ms.contains(name@) {
            let j = choose|j: int| 0 <= j < ms.len() && ms[j] == name@;
            assert(groups@[j]@ != name@);
            assert(false);
        }
    }
    false
}

/// What the decoder makes of `data` when it is decoded as loaded at `addr`
/// by the context `ctx`: one plain record per decoded instruction, in
/// decode order. The decoder is deterministic, and the context carries the
/// mode and syntax configuration the text depends on.
pub uninterp spec fn decoded_by(ctx: &capstone::Capstone, data: Seq<u8>, addr: u64) -> Seq<
    InsnModel,
>;

/// The plain records that reading the decoder's buffer with the context
/// `ctx` yields, one per buffered instruction; the context enters because
/// it names the instruction groups.
pub uninterp spec fn buffer_contents(
    ctx: &capstone::Capstone,
    insns: &capstone::Instructions<'_>,
) -> Seq<InsnModel>;

/// How many instructions the decoder's buffer holds; a property of the
/// buffer alone.
pub uninterp spec fn buffer_len(insns: &capstone::Instructions<'_>) -> int;

/// Relies on capstone's `Capstone::disasm_all`: decodes `data` as if loaded
/// at `addr`, into the decoder's instruction buffer, which then holds
/// exactly the decode of those bytes at that address by this context.
#[verifier::external_body]
fn cs_disasm_all<'a>(ctx: &'a capstone::Capstone, data: &Vec<u8>, addr: u64) -> (r: Result<
    capstone::Instructions<'a>,
    capstone::Error,
>)
    ensures
        r matches Ok(b) ==> buffer_contents(ctx, &b) == decoded_by(ctx, data@, addr)
            && buffer_len(&b) == decoded_by(ctx, data@, addr).len(),
{
    ctx.disasm_all(data.as_slice(), addr)
}

/// Relies on `Instructions` dereferencing to a slice of decoded
/// instructions and `[T]::len`: how many instructions were decoded.
#[verifier::external_body]
fn cs_insn_count(insns: &capstone::Instructions<'_>) -> (r: usize)
    ensures
        r == buffer_len(insns),
{
    insns.len()
}

/// Relies on capstone's `Capstone::insn_detail`, `Insn::{mnemonic, op_str}`,
/// `InsnDetail::groups`, `Capstone::group_name` and `ArchDetail::operands`:
/// copies the decoded instruction at index `i` into plain values. A group
/// the decoder cannot name is left out; each operand becomes its immediate
/// value or `None`; a detail request the context refuses is the decoder's
/// own error.
#[verifier::external_body]
fn cs_decode_insn(ctx: &capstone::Capstone, insns: &capstone::Instructions<'_>, i: usize) -> (r:
    Result<DecodedInsn, capstone::Error>)
    requires
        i < buffer_len(insns),
    ensures
        r matches Ok(d) ==> d@ == buffer_contents(ctx, insns)[i as int],
{
    let insn = &insns[i];
    let detail = ctx.insn_detail(insn)?;
    let mut groups = Vec::new();
    for g in detail.groups() {
        groups.extend(ctx.group_name(*g));
    }
    let mut operands = Vec::new();
    for op in detail.arch_detail().operands() {
        operands.push(match op {
            ArchOperand::X86Operand(o) => match o.op_type { X86OperandType::Imm(m) => Some(m), _ => None },
            _ => None,
        });
    }
    Ok(DecodedInsn { mnemonic: insn.mnemonic().map(|s| s.to_string()), op_str: insn.op_str().map(|s| s.to_string()), groups, operands })
}

impl Function {
    /// Renders the line for one decoded instruction, resolving the target
    /// of a relative call back to a function name of `executable` when
    /// asked to and when one lives at the computed target address.
    pub fn format_instruction(
        &self,
        executable: &Executable,
        force_address_zero: bool,
        resolve_names: bool,
        insn: &DecodedInsn,
    ) -> (r: String)
        ensures
            r@ == spec_format_insn(
                insn@,
                executable@,
                force_address_zero,
                resolve_names,
                self.address,
            ),
    {
        proof {
            reveal_strlit(" ");
            reveal_strlit("\n");
            assert(" "@ =~= seq![' ']);
            assert("\n"@ =~= seq!['\n']);
        }
        let m = match &insn.mnemonic {
            Some(m) => m,
            None => {
                return String::new();
            },
        };
        if resolve_names && contains_group(&insn.groups, "call") && contains_group(
            &insn.groups,
            "branch_relative",
        ) && insn.operands.len() == 1 {
            if let Some(imm) = insn.operands[0] {
                let is_32bit = !contains_group(&insn.groups, "not64bitmode");
                let target: usize = if force_address_zero {
                    if is_32bit {
                        #[verifier::truncate]
                        ((#[verifier::truncate] (self.address as i32)).wrapping_add(
                            #[verifier::truncate] (imm as i32),
                        ) as usize)
                    } else {
                        #[verifier::truncate]
                        ((#[verifier::truncate] (self.address as i64)).wrapping_add(imm) as usize)
                    }
                } else {
                    #[verifier::truncate]
                    (imm as usize)
                };
                if let Some(target_function) = executable.get_function_by_address(target) {
                    let mut res = m.clone();
                    res.append(" ");
                    res.append(target_function.name.as_str());
                    res.append("\n");
                    return res;
                }
            }
        }
        let mut res = m.clone();
        res.append(" ");
        match &insn.op_str {
            Some(s) => res.append(s.as_str()),
            None => {},
        }
        res.append("\n");
        res
    }

    /// Renders the whole listing for a sequence of decoded instructions, in
    /// decode order.
    pub fn render_listing(
        &self,
        insns: &Vec<DecodedInsn>,
        executable: &Executable,
        force_address_zero: bool,
        resolve_names: bool,
    ) -> (r: String)
        ensures
            r@ == spec_listing(
                insns@.map(|i: int, d: DecodedInsn| d@),
                executable@,
                force_address_zero,
                resolve_names,
                self.address,
            ),
    {
        let ghost models = insns@.map(|i: int, d: DecodedInsn| d@);
        let mut res = String::new();
        proof {
            assert(models.take(0) =~= Seq::<InsnModel>::empty());
        }
        let mut k: usize = 0;
        while k < insns.len()
            invariant
                0 <= k <= insns@.len(),
                models == insns@.map(|i: int, d: DecodedInsn| d@),
                models.len() == insns@.len(),
                res@ == spec_listing(
                    models.take(k as int),
                    executable@,
                    force_address_zero,
                    resolve_names,
                    self.address,
                ),
            decreases insns@.len() - k,
        {
            let line = self.format_instruction(
                executable,
                force_address_zero,
                resolve_names,
                &insns[k],
            );
            res.append(line.as_str());
            proof {
                assert(models.take(k as int + 1).drop_last() =~= models.take(k as int));
                assert(models.take(k as int + 1).last() == models[k as int]);
                assert(models[k as int] == insns@[k as int]@);
            }
            k = k + 1;
        }
        proof {
            assert(models.take(insns@.len() as int) =~= models);
        }
        res
    }

    /// Disassembles this function's bytes — at its recorded address, or at
    /// zero when `force_address_zero` is set — and renders one line per
    /// decoded instruction: exactly the listing of what the decoder makes
    /// of those bytes at that address. A decoder failure surfaces as the
    /// decoder's own error.
    pub fn disassemble(
        &self,
        ctx: &capstone::Capstone,
        executable: &Executable,
        force_address_zero: bool,
        resolve_names: bool,
    ) -> (r: Result<String, ExecutableError>)
        ensures
            r matches Ok(s) ==> s@ == spec_listing(
                decoded_by(
                    ctx,
                    self.data@,
                    if force_address_zero {
                        0u64
                    } else {
                        self.address as u64
                    },
                ),
                executable@,
                force_address_zero,
                resolve_names,
                self.address,
            ),
            r matches Err(e) ==> e matches ExecutableError::CapstoneError { .. },
    {
        let address: u64 = if force_address_zero {
            0
        } else {
            self.address as u64
        };
        let ghost decoded = decoded_by(ctx, self.data@, address);
        let buffer = match cs_disasm_all(ctx, &self.data, address) {
            Ok(b) => b,
            Err(error) => {
                return Err(ExecutableError::CapstoneError { error });
            },
        };
        let count = cs_insn_count(&buffer);
        let mut insns: Vec<DecodedInsn> = Vec::new();
        let mut i: usize = 0;
        while i < count
            invariant
                0 <= i <= count,
                count == decoded.len(),
                decoded == decoded_by(ctx, self.data@, address),
                buffer_contents(ctx, &buffer) == decoded,
                buffer_len(&buffer) == decoded.len(),
                insns@.map(|j: int, d: DecodedInsn| d@) =~= decoded.take(i as int),
            decreases count - i,
        {
            match cs_decode_insn(ctx, &buffer, i) {
                Ok(d) => {
                    proof {
                        assert(d@ == decoded[i as int]);
                    }
                    let ghost prev = insns@;
                    insns.push(d);
                    proof {
                        assert(insns@.map(|j: int, dd: DecodedInsn| dd@) =~= prev.map(
                            |j: int, dd: DecodedInsn| dd@,
                        ).push(decoded[i as int]));
                        assert(decoded.take(i as int).push(decoded[i as int]) =~= decoded.take(
                            i as int + 1,
                        ));
                    }
                },
                Err(error) => {
                    return Err(ExecutableError::CapstoneError { error });
                },
            }
            i = i + 1;
        }
        proof {
            assert(insns@.map(|j: int, d: DecodedInsn| d@) =~= decoded);
        }
        let s = self.render_listing(&insns, executable, force_address_zero, resolve_names);
        Ok(s)
    }
}

/// At load address zero and without name resolution, disassembling as-is
/// and disassembling "as though loaded at zero" are the same request, so
/// the same decoded instructions render the same text.
pub proof fn lemma_address_zero_listing_agrees(
    insns: Seq<InsnModel>,
    table: Seq<FuncModel>,
    self_address: usize,
)
    requires
        self_address == 0,
    ensures
        spec_listing(insns, table, false, false, self_address) == spec_listing(
            insns,
            table,
            true,
            false,
            self_address,
        ),
    decreases insns.len(),
{
    if insns.len() > 0 {
        lemma_address_zero_listing_agrees(insns.drop_last(), table, self_address);
    }
}

/// The instruction's target arithmetic cannot tell the two address modes
/// apart at load address zero: it is not a resolvable call, or its
/// immediate fits 32-bit two's-complement arithmetic.
pub open spec fn mode_agnostic_at_zero(insn: InsnModel) -> bool {
    match single_imm(insn) {
        Some(imm) => is_relative_call(insn) ==> -0x8000_0000 <= imm <= 0x7fff_ffff,
        None => true,
    }
}

/// At load address zero, even a name-resolving listing is the same in both
/// address modes, as long as every resolvable call's immediate fits the
/// 32-bit arithmetic: adding zero leaves the immediate as the absolute
/// target either way.
pub proof fn lemma_address_zero_resolved_listing_agrees(
    insns: Seq<InsnModel>,
    table: Seq<FuncModel>,
    resolve_names: bool,
    self_address: usize,
)
    requires
        self_address == 0,
        forall|k: int| 0 <= k < insns.len() ==> mode_agnostic_at_zero(#[trigger] insns[k]),
    ensures
        spec_listing(insns, table, false, resolve_names, self_address) == spec_listing(
            insns,
            table,
            true,
            resolve_names,
            self_address,
        ),
    decreases insns.len(),
{
    if insns.len() > 0 {
        assert(forall|k: int|
            0 <= k < insns.drop_last().len() ==> mode_agnostic_at_zero(
                #[trigger] insns.drop_last()[k],
            ));
        lemma_address_zero_resolved_listing_agrees(
            insns.drop_last(),
            table,
            resolve_names,
            self_address,
        );
        let insn = insns.last();
        if resolve_names && is_relative_call(insn) {
            match single_imm(insn) {
                None => {},
                Some(imm) => {
                    assert(spec_target_address(true, is_32bit_mode(insn), self_address, imm)
                        == spec_target_address(false, is_32bit_mode(insn), self_address, imm));
                },
            }
        }
    }
}

/// Name resolution, stated once and for all: a relative call with a single
/// immediate operand resolves to `<mnemonic> <name>\n` exactly when a
/// function of the table lives at the computed target address, and falls
/// back to the raw `<mnemonic> <operands>\n` line when none does.
pub proof fn lemma_call_resolution(
    insn: InsnModel,
    table: Seq<FuncModel>,
    force_address_zero: bool,
    self_address: usize,
)
    requires
        insn.mnemonic is Some,
        is_relative_call(insn),
        single_imm(insn) is Some,
    ensures
        addr_lookup(
            table,
            spec_target_address(
                force_address_zero,
                is_32bit_mode(insn),
                self_address,
                single_imm(insn).unwrap(),
            ),
        ) matches Some(f) ==> spec_format_insn(insn, table, force_address_zero, true, self_address)
            == insn.mnemonic.unwrap() + seq![' '] + f.name + seq!['\n'],
        addr_lookup(
            table,
            spec_target_address(
                force_address_zero,
                is_32bit_mode(insn),
                self_address,
                single_imm(insn).unwrap(),
            ),
        ) is None ==> spec_format_insn(insn, table, force_address_zero, true, self_address)
            == spec_raw_line(insn),
{
}

} // verus!
