//! The portable device-bytecode module: an ordered instruction stream
//! with a declared capability set, one addressing/memory-model pair, a
//! type table, and one entry point, together with its flat word
//! encoding.  The container conventions follow the usual bytecode
//! layout — a five-word header, then instructions each led by a word
//! holding the instruction's word count and opcode — while the
//! instruction set is the library's own compute subset.

use vstd::prelude::*;
use vstd::utf8::encode_utf8;
use vstd::slice::slice_to_vec;
use crate::types::DeviceType;
use crate::ast::BinOp;

verus! {

/// The first header word of every assembled module.
pub const MODULE_MAGIC: u32 = 0x4B42_4331;

/// The second header word: the format version.
pub const MODULE_VERSION: u32 = 0x0001_0000;

/// A capability the module declares; the compute subset needs no
/// optional capability beyond basic compute dispatch.
#[derive(Clone, Copy, Debug, PartialEq, Eq, Structural)]
pub enum Capability {
    Compute,
}

/// The addressing model; the subset addresses buffers logically.
#[derive(Clone, Copy, Debug, PartialEq, Eq, Structural)]
pub enum AddressingModel {
    Logical,
}

/// The memory model; the subset uses the standard compute model.
#[derive(Clone, Copy, Debug, PartialEq, Eq, Structural)]
pub enum MemoryModel {
    StandardCompute,
}

/// One instruction of the entry point's body.  Instructions operate on
/// a per-invocation operand stack and on the buffers bound to the
/// device arguments; all values are 32-bit words.
#[derive(Clone, Copy, Debug, PartialEq, Eq, Structural)]
pub enum BodyInstr {
    /// Pushes a constant.
    PushLit(u32),
    /// Pushes the executing invocation's global thread index.
    PushThreadIndex,
    /// Pops an index and pushes that element of the argument's buffer.
    ReadElement(u32),
    /// Pushes the field at the given word offset of the argument's
    /// buffer.
    ReadMember { arg: u32, field: u32 },
    /// Pops the right then the left operand and pushes the result.
    Binary(BinOp),
    /// Pops a value, then an index, and writes the value to that
    /// element of the argument's buffer.
    WriteElement(u32),
    /// Pops a value and writes it to the field at the given word
    /// offset of the argument's buffer.
    WriteMember { arg: u32, field: u32 },
}

/// The named function a pipeline invokes, with its buffer interface:
/// one binding per device argument, in declaration order, binding `i`
/// at interface position `i`.
#[derive(Debug)]
pub struct EntryPoint {
    pub name: String,
    pub interface: Vec<u32>,
}

/// A compiled kernel: the immutable product of one successful
/// compilation.
#[derive(Debug)]
pub struct BytecodeModule {
    /// The minimum capability set the body requires.
    pub capabilities: Vec<Capability>,
    pub addressing: AddressingModel,
    pub memory: MemoryModel,
    /// The type table: the device-argument type bound at each binding.
    pub arg_types: Vec<DeviceType>,
    pub entry: EntryPoint,
    /// The entry point's body, in source order.
    pub code: Vec<BodyInstr>,
}

pub open spec fn capability_code(c: Capability) -> u32 {
    match c {
        Capability::Compute => 1,
    }
}

pub open spec fn binop_code(b: BinOp) -> u32 {
    match b {
        BinOp::Add => 0,
        BinOp::Sub => 1,
        BinOp::Mul => 2,
        BinOp::Eq => 3,
        BinOp::Lt => 4,
    }
}

pub open spec fn instr_opcode(i: BodyInstr) -> u32 {
    match i {
        BodyInstr::PushLit(_) => 1,
        BodyInstr::PushThreadIndex => 2,
        BodyInstr::ReadElement(_) => 3,
        BodyInstr::ReadMember { .. } => 4,
        BodyInstr::Binary(_) => 5,
        BodyInstr::WriteElement(_) => 6,
        BodyInstr::WriteMember { .. } => 7,
    }
}

pub open spec fn instr_operands(i: BodyInstr) -> Seq<u32> {
    match i {
        BodyInstr::PushLit(v) => seq![v],
        BodyInstr::PushThreadIndex => Seq::<u32>::empty(),
        BodyInstr::ReadElement(arg) => seq![arg],
        BodyInstr::ReadMember { arg, field } => seq![arg, field],
        BodyInstr::Binary(b) => seq![binop_code(b)],
        BodyInstr::WriteElement(arg) => seq![arg],
        BodyInstr::WriteMember { arg, field } => seq![arg, field],
    }
}

/// The opcode the module section instructions use.
pub const OP_CAPABILITY: u32 = 17;

pub const OP_MEMORY_MODEL: u32 = 14;

pub const OP_ENTRY_POINT: u32 = 15;

pub const OP_ARG_TYPE: u32 = 13;

/// The words of one instruction: a leading word holding the word count
/// in its upper half and the opcode in its lower half, then the
/// operand words.
pub open spec fn encoded(opcode: u32, operands: Seq<u32>) -> Seq<u32> {
    seq![(((1 + operands.len()) * 0x10000 + opcode) % 0x1_0000_0000) as u32] + operands
}

/// The word encoding of a device type: a preorder walk, `3` opening an
/// array layer, `4` standing for an opaque (generic) element.
pub open spec fn type_words(t: DeviceType) -> Seq<u32>
    decreases t,
{
    match t {
        DeviceType::U32 => seq![0u32],
        DeviceType::I32 => seq![1u32],
        DeviceType::F32 => seq![2u32],
        DeviceType::Array(elem) => seq![3u32] + type_words(*elem),
        DeviceType::Named(_) => seq![4u32],
        DeviceType::Generic(_) => seq![4u32],
    }
}

/// The null-terminated, word-aligned bytes of an entry point's name.
pub open spec fn padded_name_bytes(bytes: Seq<u8>) -> Seq<u8> {
    let with_nul = bytes.push(0u8);
    with_nul + Seq::<u8>::new(((4 - (with_nul.len() % 4)) % 4) as nat, |i: int| 0u8)
}

pub open spec fn pack_word(b0: u8, b1: u8, b2: u8, b3: u8) -> u32 {
    (b0 + b1 * 0x100 + b2 * 0x1_0000 + b3 * 0x100_0000) as u32
}

/// Packs word-aligned bytes little-endian, four to a word.
pub open spec fn words_of_bytes(bs: Seq<u8>) -> Seq<u32> {
    Seq::<u32>::new(
        (bs.len() / 4) as nat,
        |i: int| pack_word(bs[4 * i], bs[4 * i + 1], bs[4 * i + 2], bs[4 * i + 3]),
    )
}

/// The word encoding of the entry point's name.
pub open spec fn name_words(name: Seq<char>) -> Seq<u32> {
    words_of_bytes(padded_name_bytes(encode_utf8(name)))
}

pub open spec fn cap_section(caps: Seq<Capability>) -> Seq<u32>
    decreases caps.len(),
{
    if caps.len() == 0 {
        Seq::<u32>::empty()
    } else {
        cap_section(caps.drop_last()) + encoded(OP_CAPABILITY, seq![capability_code(caps.last())])
    }
}

pub open spec fn memory_model_section(a: AddressingModel, m: MemoryModel) -> Seq<u32> {
    encoded(OP_MEMORY_MODEL, seq![0u32, 1u32])
}

pub open spec fn entry_section(e: EntryPoint) -> Seq<u32> {
    encoded(OP_ENTRY_POINT, name_words(e.name@) + e.interface@)
}

/// One type-table instruction per device argument, binding first.
pub open spec fn type_section(types: Seq<DeviceType>) -> Seq<u32>
    decreases types.len(),
{
    if types.len() == 0 {
        Seq::<u32>::empty()
    } else {
        type_section(types.drop_last()) + encoded(
            OP_ARG_TYPE,
            seq![((types.len() - 1) % 0x1_0000_0000) as u32] + type_words(types.last()),
        )
    }
}

pub open spec fn code_section(code: Seq<BodyInstr>) -> Seq<u32>
    decreases code.len(),
{
    if code.len() == 0 {
        Seq::<u32>::empty()
    } else {
        code_section(code.drop_last()) + encoded(
            instr_opcode(code.last()),
            instr_operands(code.last()),
        )
    }
}

pub open spec fn header_words() -> Seq<u32> {
    seq![MODULE_MAGIC, MODULE_VERSION, 0u32, 0u32, 0u32]
}

/// The flat word stream of a whole module: header, capabilities,
/// memory model, entry point, type table, body — in that order.
pub open spec fn module_words(m: BytecodeModule) -> Seq<u32> {
    header_words() + cap_section(m.capabilities@) + memory_model_section(m.addressing, m.memory)
        + entry_section(m.entry) + type_section(m.arg_types@) + code_section(m.code@)
}

impl BytecodeModule {
    /// The machine bounds the encoding needs: every section's operand
    /// list fits the leading word's upper half.
    pub open spec fn encodable(&self) -> bool {
        &&& encode_utf8(self.entry.name@).len() < 0x4000
        &&& self.entry.interface@.len() < 0x4000
        &&& self.arg_types@.len() < 0x1_0000
        &&& forall|k: int|
            0 <= k < self.arg_types@.len() ==> (#[trigger] type_words(self.arg_types@[k])).len()
                < 0x4000
    }
}

/// Appends one encoded instruction.
fn push_encoded(out: &mut Vec<u32>, opcode: u32, operands: &Vec<u32>)
    requires
        opcode < 0x1_0000,
        operands@.len() < 0x8000,
    ensures
        final(out)@ == old(out)@ + encoded(opcode, operands@),
{
    let count: u32 = 1 + operands.len() as u32;
    out.push(count * 0x10000 + opcode);
    let mut j: usize = 0;
    while j < operands.len()
        invariant
            j <= operands@.len(),
            out@ == old(out)@ + seq![
                (((1 + operands@.len()) * 0x10000 + opcode) % 0x1_0000_0000) as u32,
            ] + operands@.take(j as int),
        decreases operands@.len() - j,
    {
        out.push(operands[j]);
        proof {
            assert(operands@.take(j + 1) =~= operands@.take(j as int).push(operands@[j as int]));
            assert(out@ =~= old(out)@ + seq![
                (((1 + operands@.len()) * 0x10000 + opcode) % 0x1_0000_0000) as u32,
            ] + operands@.take(j + 1));
        }
        j += 1;
    }
    proof {
        assert(operands@.take(operands@.len() as int) =~= operands@);
        assert(out@ =~= old(out)@ + encoded(opcode, operands@));
    }
}

/// The word encoding of one device type.
fn type_words_vec(t: &DeviceType) -> (r: Vec<u32>)
    ensures
        r@ == type_words(*t),
    decreases *t,
{
    match t {
        DeviceType::U32 => {
            let mut v: Vec<u32> = Vec::new();
            v.push(0);
            proof {
                assert(v@ =~= type_words(*t));
            }
            v
        },
        DeviceType::I32 => {
            let mut v: Vec<u32> = Vec::new();
            v.push(1);
            proof {
                assert(v@ =~= type_words(*t));
            }
            v
        },
        DeviceType::F32 => {
            let mut v: Vec<u32> = Vec::new();
            v.push(2);
            proof {
                assert(v@ =~= type_words(*t));
            }
            v
        },
        DeviceType::Array(elem) => {
            let mut v: Vec<u32> = Vec::new();
            v.push(3);
            let mut rest = type_words_vec(elem);
            v.append(&mut rest);
            proof {
                assert(v@ =~= type_words(*t));
            }
            v
        },
        DeviceType::Named(_) => {
            let mut v: Vec<u32> = Vec::new();
            v.push(4);
            proof {
                assert(v@ =~= type_words(*t));
            }
            v
        },
        DeviceType::Generic(_) => {
            let mut v: Vec<u32> = Vec::new();
            v.push(4);
            proof {
                assert(v@ =~= type_words(*t));
            }
            v
        },
    }
}

/// The null-terminated, word-aligned, little-endian packed words of
/// the entry point's name.
fn name_words_vec(name: &String) -> (r: Vec<u32>)
    ensures
        r@ == name_words(name@),
{
    let bytes = name.as_str().as_bytes();
    let mut padded: Vec<u8> = slice_to_vec(bytes);
    padded.push(0);
    let ghost with_nul = encode_utf8(name@).push(0u8);
    let pad: usize = (4 - (padded.len() % 4)) % 4;
    let mut p: usize = 0;
    while p < pad
        invariant
            p <= pad,
            pad as int == (4 - (with_nul.len() % 4)) % 4,
            padded@ == with_nul + Seq::<u8>::new(p as nat, |i: int| 0u8),
        decreases pad - p,
    {
        padded.push(0);
        proof {
            assert(padded@ =~= with_nul + Seq::<u8>::new((p + 1) as nat, |i: int| 0u8));
        }
        p += 1;
    }
    proof {
        assert(padded@ =~= padded_name_bytes(encode_utf8(name@)));
    }
    let mut r: Vec<u32> = Vec::new();
    let len: usize = padded.len();
    let n_words = len / 4;
    let mut w: usize = 0;
    while w < n_words
        invariant
            w <= n_words,
            len == padded@.len(),
            n_words == len / 4,
            len % 4 == 0,
            padded@ == padded_name_bytes(encode_utf8(name@)),
            r@ == words_of_bytes(padded@).take(w as int),
        decreases n_words - w,
    {
        proof {
            vstd::arithmetic::div_mod::lemma_fundamental_div_mod(len as int, 4);
            assert(4 * (w as int) + 3 < len);
        }
        let b0 = padded[4 * w] as u32;
        let b1 = padded[4 * w + 1] as u32;
        let b2 = padded[4 * w + 2] as u32;
        let b3 = padded[4 * w + 3] as u32;
        r.push(b0 + b1 * 0x100 + b2 * 0x1_0000 + b3 * 0x100_0000);
        proof {
            assert(r@ =~= words_of_bytes(padded@).take(w + 1));
        }
        w += 1;
    }
    proof {
        assert(words_of_bytes(padded@).take(n_words as int) =~= words_of_bytes(padded@));
    }
    r
}

/// Assembles a module into its flat word stream.  The encoding is a
/// pure function of the module: the exact stream is pinned by
/// `module_words`.
pub fn assemble(m: &BytecodeModule) -> (r: Vec<u32>)
    requires
        m.encodable(),
    ensures
        r@ == module_words(*m),
{
    let mut out: Vec<u32> = Vec::new();
    out.push(MODULE_MAGIC);
    out.push(MODULE_VERSION);
    out.push(0);
    out.push(0);
    out.push(0);
    proof {
        assert(out@ =~= header_words());
    }

    let ghost pre_caps = out@;
    let mut i: usize = 0;
    while i < m.capabilities.len()
        invariant
            i <= m.capabilities@.len(),
            out@ == pre_caps + cap_section(m.capabilities@.take(i as int)),
        decreases m.capabilities@.len() - i,
    {
        let mut ops: Vec<u32> = Vec::new();
        ops.push(match m.capabilities[i] {
            Capability::Compute => 1,
        });
        push_encoded(&mut out, OP_CAPABILITY, &ops);
        proof {
            assert(m.capabilities@.take(i + 1).drop_last() =~= m.capabilities@.take(i as int));
            assert(ops@ =~= seq![capability_code(m.capabilities@[i as int])]);
            assert(out@ =~= pre_caps + cap_section(m.capabilities@.take(i + 1)));
        }
        i += 1;
    }
    proof {
        assert(m.capabilities@.take(m.capabilities@.len() as int) =~= m.capabilities@);
    }

    let mut ops: Vec<u32> = Vec::new();
    ops.push(0);
    ops.push(1);
    push_encoded(&mut out, OP_MEMORY_MODEL, &ops);
    proof {
        assert(ops@ =~= seq![0u32, 1u32]);
    }

    let mut entry_ops = name_words_vec(&m.entry.name);
    proof {
        assert(name_words(m.entry.name@).len() <= encode_utf8(m.entry.name@).len() + 4);
    }
    let mut j: usize = 0;
    let ghost nw = name_words(m.entry.name@);
    while j < m.entry.interface.len()
        invariant
            j <= m.entry.interface@.len(),
            entry_ops@ == nw + m.entry.interface@.take(j as int),
            m.entry.interface@.len() < 0x4000,
        decreases m.entry.interface@.len() - j,
    {
        entry_ops.push(m.entry.interface[j]);
        proof {
            assert(entry_ops@ =~= nw + m.entry.interface@.take(j + 1));
        }
        j += 1;
    }
    proof {
        assert(m.entry.interface@.take(m.entry.interface@.len() as int) =~= m.entry.interface@);
        assert(entry_ops@ =~= nw + m.entry.interface@);
    }
    push_encoded(&mut out, OP_ENTRY_POINT, &entry_ops);

    let ghost pre_types = out@;
    let mut k: usize = 0;
    while k < m.arg_types.len()
        invariant
            k <= m.arg_types@.len(),
            m.encodable(),
            out@ == pre_types + type_section(m.arg_types@.take(k as int)),
        decreases m.arg_types@.len() - k,
    {
        let mut ops: Vec<u32> = Vec::new();
        ops.push(k as u32);
        let mut tw = type_words_vec(&m.arg_types[k]);
        ops.append(&mut tw);
        push_encoded(&mut out, OP_ARG_TYPE, &ops);
        proof {
            assert(m.arg_types@.take(k + 1).drop_last() =~= m.arg_types@.take(k as int));
            assert(m.arg_types@.take(k + 1).last() == m.arg_types@[k as int]);
            assert(ops@ =~= seq![((k as int) % 0x1_0000_0000) as u32] + type_words(
                m.arg_types@[k as int],
            ));
            assert(out@ =~= pre_types + type_section(m.arg_types@.take(k + 1)));
        }
        k += 1;
    }
    proof {
        assert(m.arg_types@.take(m.arg_types@.len() as int) =~= m.arg_types@);
    }

    let ghost pre_code = out@;
    let mut c: usize = 0;
    while c < m.code.len()
        invariant
            c <= m.code@.len(),
            out@ == pre_code + code_section(m.code@.take(c as int)),
        decreases m.code@.len() - c,
    {
        let instr = m.code[c];
        let mut ops: Vec<u32> = Vec::new();
        let opcode: u32 = match instr {
            BodyInstr::PushLit(v) => {
                ops.push(v);
                1
            },
            BodyInstr::PushThreadIndex => 2,
            BodyInstr::ReadElement(arg) => {
                ops.push(arg);
                3
            },
            BodyInstr::ReadMember { arg, field } => {
                ops.push(arg);
                ops.push(field);
                4
            },
            BodyInstr::Binary(b) => {
                ops.push(
                    match b {
                        BinOp::Add => 0,
                        BinOp::Sub => 1,
                        BinOp::Mul => 2,
                        BinOp::Eq => 3,
                        BinOp::Lt => 4,
                    },
                );
                5
            },
            BodyInstr::WriteElement(arg) => {
                ops.push(arg);
                6
            },
            BodyInstr::WriteMember { arg, field } => {
                ops.push(arg);
                ops.push(field);
                7
            },
        };
        proof {
            assert(ops@ =~= instr_operands(m.code@[c as int]));
            assert(opcode == instr_opcode(m.code@[c as int]));
        }
        push_encoded(&mut out, opcode, &ops);
        proof {
            assert(m.code@.take(c + 1).drop_last() =~= m.code@.take(c as int));
            assert(m.code@.take(c + 1).last() == m.code@[c as int]);
            assert(out@ =~= pre_code + code_section(m.code@.take(c + 1)));
        }
        c += 1;
    }
    proof {
        assert(m.code@.take(m.code@.len() as int) =~= m.code@);
        assert(out@ =~= module_words(*m));
    }
    out
}

} // verus!
