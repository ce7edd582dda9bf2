//! Assembly, disassembly and compatibility checking for SCM bytecode.

use crate::scripts::bytes::{
    i32_le_bytes, lemma_i32_bytes_roundtrip, lemma_u16_bytes_roundtrip, lemma_u32_bytes_roundtrip,
    spec_i32_bytes, spec_u16_bytes, spec_u32_bytes, u16_le_bytes, u32_le_bytes, latin1_until_nul, lemma_until_nul_prefix, read_i16_le, read_i32_le, read_u16_le, read_u32_le, spec_i16, spec_i32, spec_i8,
    spec_latin1, spec_u16_le, spec_u32_le, spec_until_nul,
};
use std::collections::HashMap;
use vstd::prelude::*;
use vstd::string::StrSliceExecFns;
use vstd::utf8::{encode_utf8, is_ascii_chars, is_ascii_chars_encode_utf8};

verus! {

broadcast use vstd::std_specs::hash::group_hash_axioms;

/// Where a variable lives.
#[derive(Debug, Clone, Copy, PartialEq, Eq)]
pub enum Location {
    /// Unused marker kept for compatibility with the command table format.
    _0,
    /// A variable local to the script.
    Local,
    /// A variable shared between scripts.
    Global,
}

/// A variable reference found in bytecode.
#[derive(Debug, Clone, Copy)]
pub struct Variable {
    pub value: i64,
    pub location: Location,
}

impl Variable {
    /// Creates a reference to the local variable `value`.
    pub fn new_local(value: i64) -> (v: Variable)
        ensures
            v.value == value,
            v.location == Location::Local,
    {
        Variable { value, location: Location::Local }
    }
}

/// An array reference (its contents are not decoded).
#[derive(Debug, Copy, Clone)]
pub struct Array;

/// A pointer to a script location. Negative values are local to the script.
#[derive(Debug, Copy, Clone)]
pub struct Pointer(pub i64);

impl Pointer {
    pub fn from_i64(i: i64) -> (p: Pointer)
        ensures
            p.0 == i,
    {
        Pointer(i)
    }

    /// Returns `true` for pointers into the script's own code.
    pub fn is_local(&self) -> (b: bool)
        ensures
            b == (self.0 < 0),
    {
        self.0 < 0
    }

    /// The magnitude of the pointer.
    pub fn absolute(&self) -> (a: u64)
        requires
            self.0 != i64::MIN,
        ensures
            a == spec_abs(self.0 as int),
    {
        if self.0 < 0 {
            (-self.0) as u64
        } else {
            self.0 as u64
        }
    }
}

/// The absolute value of an integer.
pub open spec fn spec_abs(i: int) -> int {
    if i < 0 {
        -i
    } else {
        i
    }
}

/// A single argument value in SCM bytecode. Real numbers are held as the bits
/// of their 32-bit IEEE representation.
#[derive(Debug)]
pub enum Value {
    Integer(i64),
    Real(u32),
    String(String),
    Model(i64),
    Pointer(Pointer),
    VarArgs(Vec<Value>),
    Buffer(String),
    Variable(Variable),
    Array(Array),
}

/// The mathematical content of a [`Value`].
pub enum SpecValue {
    Integer(int),
    Real(u32),
    String(Seq<char>),
    Model(int),
    Pointer(int),
    VarArgs(Seq<Value>),
    Buffer(Seq<char>),
    Variable(int, Location),
    Array,
}

impl View for Value {
    type V = SpecValue;

    open spec fn view(&self) -> SpecValue {
        match self {
            Value::Integer(i) => SpecValue::Integer(*i as int),
            Value::Real(r) => SpecValue::Real(*r),
            Value::String(s) => SpecValue::String(s@),
            Value::Model(m) => SpecValue::Model(*m as int),
            Value::Pointer(p) => SpecValue::Pointer(p.0 as int),
            Value::VarArgs(v) => SpecValue::VarArgs(v@),
            Value::Buffer(s) => SpecValue::Buffer(s@),
            Value::Variable(v) => SpecValue::Variable(v.value as int, v.location),
            Value::Array(_) => SpecValue::Array,
        }
    }
}

/// Why bytecode could not be read.
#[derive(Debug, Clone, Copy, PartialEq, Eq)]
pub enum ReadError {
    /// The bytes ended in the middle of an item.
    UnexpectedEof,
    /// A value started with a type identifier that does not exist.
    UnknownType(u8),
    /// An instruction used an opcode that the command table does not list.
    UnknownOpcode(u16),
}

/// Type identifiers of array references, which carry six bytes of data.
pub open spec fn is_array_id(id: u8) -> bool {
    id == 7 || id == 8 || id == 0xc || id == 0xd || id == 0x12 || id == 0x13
}

/// Type identifiers of global variable references.
pub open spec fn is_global_var_id(id: u8) -> bool {
    id == 2 || id == 0xa || id == 0x10
}

/// Type identifiers of local variable references.
pub open spec fn is_local_var_id(id: u8) -> bool {
    id == 3 || id == 0xb || id == 0x11
}

/// A fixed-width string of `n` bytes starting at `q`.
pub open spec fn spec_fixed_string(b: Seq<u8>, q: int, n: int) -> Result<(SpecValue, int), ReadError> {
    if q + n <= b.len() {
        Ok((SpecValue::String(spec_latin1(spec_until_nul(b.subrange(q, q + n)))), q + n))
    } else {
        Err(ReadError::UnexpectedEof)
    }
}

/// The value encoded at position `p` of `b`, with the position after it.
pub open spec fn spec_read_value(b: Seq<u8>, p: int) -> Result<(SpecValue, int), ReadError> {
    if !(0 <= p < b.len()) {
        Err(ReadError::UnexpectedEof)
    } else {
        let id = b[p];
        let q = p + 1;
        if id == 1 {
            if q + 4 <= b.len() {
                Ok((SpecValue::Integer(spec_i32(spec_u32_le(b, q))), q + 4))
            } else {
                Err(ReadError::UnexpectedEof)
            }
        } else if is_global_var_id(id) || is_local_var_id(id) {
            if q + 2 <= b.len() {
                let loc = if is_global_var_id(id) {
                    Location::Global
                } else {
                    Location::Local
                };
                Ok((SpecValue::Variable(spec_u16_le(b, q), loc), q + 2))
            } else {
                Err(ReadError::UnexpectedEof)
            }
        } else if id == 4 {
            if q + 1 <= b.len() {
                Ok((SpecValue::Integer(spec_i8(b[q] as int)), q + 1))
            } else {
                Err(ReadError::UnexpectedEof)
            }
        } else if id == 5 {
            if q + 2 <= b.len() {
                Ok((SpecValue::Integer(spec_i16(spec_u16_le(b, q))), q + 2))
            } else {
                Err(ReadError::UnexpectedEof)
            }
        } else if id == 6 {
            if q + 4 <= b.len() {
                Ok((SpecValue::Real(spec_u32_le(b, q) as u32), q + 4))
            } else {
                Err(ReadError::UnexpectedEof)
            }
        } else if is_array_id(id) {
            if q + 6 <= b.len() {
                Ok((SpecValue::Array, q + 6))
            } else {
                Err(ReadError::UnexpectedEof)
            }
        } else if id == 9 {
            spec_fixed_string(b, q, 8)
        } else if id == 0xe {
            if q + 1 <= b.len() {
                spec_fixed_string(b, q + 1, b[q] as int)
            } else {
                Err(ReadError::UnexpectedEof)
            }
        } else if id == 0xf {
            spec_fixed_string(b, q, 16)
        } else {
            Err(ReadError::UnknownType(id))
        }
    }
}

/// The mathematical form of a read result.
pub open spec fn view_read(r: Result<(Value, usize), ReadError>) -> Result<(SpecValue, int), ReadError> {
    match r {
        Ok((v, n)) => Ok((v@, n as int)),
        Err(e) => Err(e),
    }
}

/// Reads a fixed-width string of `n` bytes at `q`.
fn read_fixed_string(bytes: &[u8], q: usize, n: usize) -> (res: Result<(Value, usize), ReadError>)
    requires
        q <= bytes@.len(),
        n <= 256,
    ensures
        view_read(res) == spec_fixed_string(bytes@, q as int, n as int),
{
    if n <= bytes.len() - q {
        let s = latin1_until_nul(bytes, q, q + n);
        Ok((Value::String(s), q + n))
    } else {
        Err(ReadError::UnexpectedEof)
    }
}

impl Value {
    /// Reads one value from `bytes` at `pos`, returning it with the position
    /// just after it.
    pub fn read(bytes: &[u8], pos: usize) -> (res: Result<(Value, usize), ReadError>)
        ensures
            view_read(res) == spec_read_value(bytes@, pos as int),
    {
        if pos >= bytes.len() {
            return Err(ReadError::UnexpectedEof);
        }
        let id = bytes[pos];
        let q = pos + 1;
        let left = bytes.len() - q;
        if id == 1 {
            if left >= 4 {
                let v = read_i32_le(&bytes[q..q + 4]);
                proof {
                    assert(bytes@.subrange(q as int, q + 4)[0] == bytes@[q as int]);
                }
                Ok((Value::Integer(v as i64), q + 4))
            } else {
                Err(ReadError::UnexpectedEof)
            }
        } else if id == 2 || id == 0xa || id == 0x10 || id == 3 || id == 0xb || id == 0x11 {
            if left >= 2 {
                let v = read_u16_le(&bytes[q..q + 2]);
                let location = if id == 2 || id == 0xa || id == 0x10 {
                    Location::Global
                } else {
                    Location::Local
                };
                Ok((Value::Variable(Variable { value: v as i64, location }), q + 2))
            } else {
                Err(ReadError::UnexpectedEof)
            }
        } else if id == 4 {
            if left >= 1 {
                let u = bytes[q];
                let v: i64 = if u >= 0x80 {
                    u as i64 - 0x100
                } else {
                    u as i64
                };
                Ok((Value::Integer(v), q + 1))
            } else {
                Err(ReadError::UnexpectedEof)
            }
        } else if id == 5 {
            if left >= 2 {
                let v = read_i16_le(&bytes[q..q + 2]);
                Ok((Value::Integer(v as i64), q + 2))
            } else {
                Err(ReadError::UnexpectedEof)
            }
        } else if id == 6 {
            if left >= 4 {
                let v = read_u32_le(&bytes[q..q + 4]);
                Ok((Value::Real(v), q + 4))
            } else {
                Err(ReadError::UnexpectedEof)
            }
        } else if id == 7 || id == 8 || id == 0xc || id == 0xd || id == 0x12 || id == 0x13 {
            if left >= 6 {
                Ok((Value::Array(Array), q + 6))
            } else {
                Err(ReadError::UnexpectedEof)
            }
        } else if id == 9 {
            read_fixed_string(bytes, q, 8)
        } else if id == 0xe {
            if left >= 1 {
                let n = bytes[q] as usize;
                read_fixed_string(bytes, q + 1, n)
            } else {
                Err(ReadError::UnexpectedEof)
            }
        } else if id == 0xf {
            read_fixed_string(bytes, q, 16)
        } else {
            Err(ReadError::UnknownType(id))
        }
    }
}

/// The value that is actually written for `v`: models and pointers are
/// written as plain integers.
pub open spec fn spec_into_basic(v: SpecValue) -> SpecValue {
    match v {
        SpecValue::Model(m) => SpecValue::Integer(m),
        SpecValue::Pointer(p) => SpecValue::Integer(p),
        other => other,
    }
}

/// Values that `Value::write` can encode.
pub open spec fn spec_writable(v: SpecValue) -> bool {
    match spec_into_basic(v) {
        SpecValue::Integer(_) => true,
        SpecValue::Real(_) => true,
        SpecValue::String(s) => encode_utf8(s).len() < usize::MAX && s.len() + 2 <= usize::MAX,
        SpecValue::Variable(_, loc) => loc != Location::_0,
        _ => false,
    }
}

/// The bytes that `Value::write` appends for `v`.
pub open spec fn spec_encode_value(v: SpecValue) -> Seq<u8> {
    match spec_into_basic(v) {
        SpecValue::Integer(i) => seq![1u8] + spec_i32_bytes((i as i32) as int),
        SpecValue::Real(r) => seq![6u8] + spec_u32_bytes(r as int),
        SpecValue::String(s) => seq![0x0eu8, (encode_utf8(s).len() as u8)] + s.map_values(
            |c: char| c as u8,
        ),
        SpecValue::Variable(n, loc) => seq![
            if loc == Location::Global {
                2u8
            } else {
                3u8
            },
        ] + spec_u16_bytes((n as u16) as int),
        _ => Seq::empty(),
    }
}

/// The number of bytes that `Value::write` writes for `v`.
pub open spec fn spec_written_count(v: SpecValue) -> int {
    match spec_into_basic(v) {
        SpecValue::Integer(_) => 5,
        SpecValue::Real(_) => 5,
        SpecValue::String(s) => s.len() as int + 2,
        SpecValue::Variable(_, _) => 3,
        _ => 0,
    }
}

impl Value {
    /// Converts models and pointers to plain integers.
    pub fn into_basic(self) -> (v: Value)
        ensures
            v@ == spec_into_basic(self@),
    {
        match self {
            Value::Model(val) => Value::Integer(val),
            Value::Pointer(val) => Value::Integer(val.0),
            other => other,
        }
    }

    /// Appends the bytecode for this value to `writer` and returns the
    /// number of bytes written.
    pub fn write(self, writer: &mut Vec<u8>) -> (count: usize)
        requires
            spec_writable(self@),
        ensures
            final(writer)@ == old(writer)@ + spec_encode_value(self@),
            count == spec_written_count(self@),
            count == spec_encode_value(self@).len(),
    {
        let ghost start = writer@;
        match self.into_basic() {
            Value::Integer(val) => {
                writer.push(0x01);
                let b = i32_le_bytes(val as i32);
                writer.extend_from_slice(&b);
                assert(writer@ =~= start + spec_encode_value(self@));
                5
            },
            Value::Real(val) => {
                writer.push(0x06);
                let b = u32_le_bytes(val);
                writer.extend_from_slice(&b);
                assert(writer@ =~= start + spec_encode_value(self@));
                5
            },
            Value::String(string) => {
                let st = string.as_str();
                let len = st.len();
                writer.push(0x0e);
                writer.push(len as u8);
                let n = st.unicode_len();
                let mut i: usize = 0;
                while i < n
                    invariant
                        0 <= i <= n,
                        n == st@.len(),
                        st@ == string@,
                        writer@ == start + seq![0x0eu8, (len as u8)] + st@.subrange(
                            0,
                            i as int,
                        ).map_values(|c: char| c as u8),
                    decreases n - i,
                {
                    let c = st.get_char(i);
                    writer.push(c as u8);
                    proof {
                        assert(st@.subrange(0, i + 1) =~= st@.subrange(0, i as int).push(c));
                        assert(st@.subrange(0, i + 1).map_values(|c: char| c as u8)
                            =~= st@.subrange(0, i as int).map_values(|c: char| c as u8).push(
                            c as u8,
                        ));
                    }
                    i = i + 1;
                }
                assert(st@.subrange(0, n as int) =~= st@);
                assert(writer@ =~= start + spec_encode_value(self@));
                n + 2
            },
            Value::Variable(Variable { value, location }) => {
                let id: u8 = match location {
                    Location::Global => 0x02,
                    _ => 0x03,
                };
                writer.push(id);
                let b = u16_le_bytes(value as u16);
                writer.extend_from_slice(&b);
                assert(writer@ =~= start + spec_encode_value(self@));
                3
            },
            _ => {
                proof {
                    assert(false);
                }
                0
            },
        }
    }
}

/// Writing a value and reading the bytes back gives the same value, for
/// integers in the 32-bit range, reals, variables with 16-bit indices and
/// ASCII strings without zero bytes of at most 255 characters.
pub proof fn lemma_value_write_read_roundtrip(v: SpecValue, rest: Seq<u8>)
    requires
        match v {
            SpecValue::Integer(i) => -0x8000_0000 <= i < 0x8000_0000,
            SpecValue::Real(_) => true,
            SpecValue::Variable(n, loc) => 0 <= n < 0x10000 && loc != Location::_0,
            SpecValue::String(s) => is_ascii_chars(s) && s.len() < 256 && forall|j: int|
                0 <= j < s.len() ==> s[j] != '\0',
            _ => false,
        },
    ensures
        spec_read_value(spec_encode_value(v) + rest, 0) == Ok::<(SpecValue, int), ReadError>(
            (v, spec_encode_value(v).len() as int),
        ),
{
    let e = spec_encode_value(v);
    let b = e + rest;
    match v {
        SpecValue::Integer(i) => {
            lemma_i32_bytes_roundtrip(i);
            assert((i as i32) as int == i);
            assert(b.subrange(1, 5) =~= spec_i32_bytes(i));
            assert(spec_u32_le(b, 1) == spec_u32_le(spec_i32_bytes(i), 0));
        },
        SpecValue::Real(r) => {
            lemma_u32_bytes_roundtrip(r as int);
            assert(spec_u32_le(b, 1) == spec_u32_le(spec_u32_bytes(r as int), 0));
        },
        SpecValue::Variable(n, loc) => {
            lemma_u16_bytes_roundtrip(n);
            assert((n as u16) as int == n);
            assert(spec_u16_le(b, 1) == spec_u16_le(spec_u16_bytes(n), 0));
        },
        SpecValue::String(s) => {
            is_ascii_chars_encode_utf8(s);
            let m = s.map_values(|c: char| c as u8);
            assert(b[1] as int == s.len());
            assert(b.subrange(2, 2 + s.len() as int) =~= m);
            assert forall|j: int| 0 <= j < m.len() implies m[j] != 0 by {
                assert(s[j] as u8 == encode_utf8(s)[j]);
                assert('\0' <= s[j] <= '\u{7f}');
                assert(s[j] != '\0');
            }
            lemma_until_nul_prefix(m, Seq::empty());
            assert(m + Seq::<u8>::empty() =~= m);
            assert(spec_latin1(m) =~= s) by {
                assert forall|j: int| 0 <= j < s.len() implies (m[j] as char) == s[j] by {
                    assert('\0' <= s[j] <= '\u{7f}');
                }
            }
        },
        _ => {},
    }
}

/// The kind of value that a command parameter takes.
#[derive(Debug, Clone, Copy, PartialEq, Eq)]
pub enum ParamType {
    /// An integral value.
    Integer,
    /// A string value.
    String,
    /// A floating-point value.
    Real,
    /// A model ID.
    Model,
    /// A pointer to a script location.
    Pointer,
    /// A null byte to mark the end of argument lists.
    End,
    /// Long buffer; used only for opcode 05B6.
    Buffer,
    /// Allows any type. Typically used for variadic arguments.
    Any,
}

/// One parameter of a command.
#[derive(Debug, Clone, Copy)]
pub struct Param {
    pub param_type: ParamType,
    pub location: Location,
    pub is_variadic: bool,
    pub is_output: bool,
}

/// The value that a parameter of type `param_type` reads at `p`: integers
/// read for pointer parameters become pointers.
pub open spec fn spec_read_param(param_type: ParamType, b: Seq<u8>, p: int) -> Result<
    (SpecValue, int),
    ReadError,
> {
    match spec_read_value(b, p) {
        Ok((v, q)) => if param_type == ParamType::Pointer && v is Integer {
            Ok((SpecValue::Pointer(v->Integer_0), q))
        } else {
            Ok((v, q))
        },
        Err(e) => Err(e),
    }
}

impl Param {
    /// Reads the value for this parameter at `pos`.
    pub fn read(&self, bytes: &[u8], pos: usize) -> (res: Result<(Value, usize), ReadError>)
        ensures
            view_read(res) == spec_read_param(self.param_type, bytes@, pos as int),
    {
        let (value, next) = Value::read(bytes, pos)?;
        if let ParamType::Pointer = self.param_type {
            if let Value::Integer(val) = value {
                return Ok((Value::Pointer(Pointer::from_i64(val)), next));
            }
        }
        Ok((value, next))
    }
}

/// A command that the script engine understands.
#[derive(Debug)]
pub struct Command {
    pub opcode: u16,
    pub name: String,
    pub returns: bool,
    pub params: Vec<Param>,
}

/// The values that `params` read one after another from position `p`.
pub open spec fn spec_read_args(params: Seq<Param>, b: Seq<u8>, p: int) -> Result<
    (Seq<SpecValue>, int),
    ReadError,
>
    decreases params.len(),
{
    if params.len() == 0 {
        Ok((Seq::empty(), p))
    } else {
        match spec_read_args(params.drop_last(), b, p) {
            Ok((vs, q)) => match spec_read_param(params.last().param_type, b, q) {
                Ok((v, r)) => Ok((vs.push(v), r)),
                Err(e) => Err(e),
            },
            Err(e) => Err(e),
        }
    }
}

/// The mathematical content of an [`Instr`].
pub struct SpecInstr {
    pub opcode: u16,
    pub offset: int,
    pub bool_inverted: bool,
    pub args: Seq<SpecValue>,
}

/// The instruction encoded at `p`, with the position after it.
pub open spec fn spec_read_instr(cmds: Map<u16, Command>, b: Seq<u8>, p: int) -> Result<
    (SpecInstr, int),
    ReadError,
> {
    if !(0 <= p && p + 2 <= b.len()) {
        Err(ReadError::UnexpectedEof)
    } else {
        let raw = spec_u16_le(b, p);
        let opcode = (raw % 0x8000) as u16;
        if !cmds.contains_key(opcode) {
            Err(ReadError::UnknownOpcode(opcode))
        } else {
            match spec_read_args(cmds[opcode].params@, b, p + 2) {
                Ok((args, q)) => Ok(
                    (SpecInstr { opcode, offset: p, bool_inverted: raw >= 0x8000, args }, q),
                ),
                Err(e) => Err(e),
            }
        }
    }
}

/// A decoded instruction.
#[derive(Debug)]
pub struct Instr {
    pub opcode: u16,
    pub offset: u64,
    pub bool_inverted: bool,
    pub args: Vec<Value>,
}

impl View for Instr {
    type V = SpecInstr;

    open spec fn view(&self) -> SpecInstr {
        SpecInstr {
            opcode: self.opcode,
            offset: self.offset as int,
            bool_inverted: self.bool_inverted,
            args: self.args@.map_values(|v: Value| v@),
        }
    }
}

/// The mathematical form of an instruction read result.
pub open spec fn view_instr_read(r: Result<(Instr, u64), ReadError>) -> Result<(SpecInstr, int), ReadError> {
    match r {
        Ok((i, n)) => Ok((i@, n as int)),
        Err(e) => Err(e),
    }
}

/// Opcodes whose pointer arguments are possible branch targets: goto,
/// goto_if_true, goto_if_false, gosub, switch_start and switch_continue.
pub open spec fn is_branch_opcode(opcode: u16) -> bool {
    opcode == 0x0002 || opcode == 0x004c || opcode == 0x004d || opcode == 0x0050 || opcode
        == 0x0871 || opcode == 0x0872
}

/// The local branch targets among `args`, in order.
pub open spec fn spec_local_targets(args: Seq<SpecValue>) -> Seq<int>
    decreases args.len(),
{
    if args.len() == 0 {
        Seq::empty()
    } else {
        let rest = spec_local_targets(args.drop_last());
        match args.last() {
            SpecValue::Pointer(p) => if p < 0 {
                rest.push(-p)
            } else {
                rest
            },
            _ => rest,
        }
    }
}

/// The offsets that execution may continue at after `instr`, where `current`
/// is the offset just after it.
pub open spec fn spec_next_offsets(instr: SpecInstr, current: int) -> Seq<int> {
    if instr.opcode == 0x0051 {
        Seq::empty()
    } else {
        let fall = if instr.opcode != 0x0002 {
            seq![current]
        } else {
            Seq::empty()
        };
        if is_branch_opcode(instr.opcode) {
            fall + spec_local_targets(instr.args)
        } else {
            fall
        }
    }
}

/// No argument is a pointer to `i64::MIN`, whose magnitude does not fit.
pub open spec fn pointers_in_range(args: Seq<SpecValue>) -> bool {
    forall|j: int| 0 <= j < args.len() ==> args[j] != SpecValue::Pointer(i64::MIN as int)
}

/// A read that succeeds ends within the bytes and after its start.
pub proof fn lemma_read_value_advances(b: Seq<u8>, p: int)
    ensures
        spec_read_value(b, p) matches Ok((_, q)) ==> p < q <= b.len(),
{
}

/// Once reading a prefix of the parameters fails, reading all of them fails
/// with the same error.
pub proof fn lemma_read_args_err_extends(params: Seq<Param>, b: Seq<u8>, p: int, i: int)
    requires
        0 <= i <= params.len(),
        spec_read_args(params.take(i), b, p) is Err,
    ensures
        spec_read_args(params, b, p) == spec_read_args(params.take(i), b, p),
    decreases params.len() - i,
{
    if i < params.len() {
        assert(params.take(i + 1).drop_last() =~= params.take(i));
        lemma_read_args_err_extends(params, b, p, i + 1);
    } else {
        assert(params.take(i) =~= params);
    }
}

impl Instr {
    pub fn new(opcode: u16, args: Vec<Value>) -> (i: Instr)
        ensures
            i.opcode == opcode,
            i.offset == 0,
            !i.bool_inverted,
            i.args == args,
    {
        Instr { opcode, offset: 0, bool_inverted: false, args }
    }

    /// Reads the instruction at `pos`, returning it with the position after it.
    pub fn read(commands: &HashMap<u16, Command>, bytes: &[u8], pos: u64) -> (res: Result<
        (Instr, u64),
        ReadError,
    >)
        ensures
            view_instr_read(res) == spec_read_instr(commands@, bytes@, pos as int),
    {
        let len = bytes.len() as u64;
        if pos >= len || len - pos < 2 {
            return Err(ReadError::UnexpectedEof);
        }
        let p = pos as usize;
        let raw = read_u16_le(&bytes[p..p + 2]);
        proof {
            assert(spec_u16_le(bytes@.subrange(p as int, p + 2), 0) == spec_u16_le(bytes@, p as int));
        }
        let opcode = raw & 0x7fff;
        let bool_inverted = raw & 0x8000 != 0;
        proof {
            assert(raw & 0x7fff == raw % 0x8000 && ((raw & 0x8000 != 0) == (raw >= 0x8000)))
                by (bit_vector);
        }
        let cmd = match commands.get(&opcode) {
            Some(command) => command,
            None => {
                return Err(ReadError::UnknownOpcode(opcode));
            },
        };
        let mut args: Vec<Value> = Vec::new();
        let mut cur: usize = p + 2;
        let mut i: usize = 0;
        assert(cmd.params@.take(0) =~= Seq::<Param>::empty());
        assert(args@.map_values(|v: Value| v@) =~= Seq::<SpecValue>::empty());
        while i < cmd.params.len()
            invariant
                0 <= i <= cmd.params@.len(),
                p + 2 <= cur <= bytes@.len(),
                commands@.contains_key(opcode),
                *cmd == commands@[opcode],
                p as int == pos as int,
                p + 2 <= bytes@.len(),
                raw as int == spec_u16_le(bytes@, p as int),
                opcode == raw % 0x8000,
                spec_read_args(cmd.params@.take(i as int), bytes@, p + 2) == Ok::<
                    (Seq<SpecValue>, int),
                    ReadError,
                >((args@.map_values(|v: Value| v@), cur as int)),
            decreases cmd.params@.len() - i,
        {
            let ghost prefix = cmd.params@.take(i as int);
            let ghost prev = args@;
            let ghost prev_cur = cur;
            assert(cmd.params@.take(i + 1).drop_last() =~= prefix);
            assert(cmd.params@.take(i + 1).last() == cmd.params@[i as int]);
            match cmd.params[i].read(bytes, cur) {
                Ok((v, next)) => {
                    args.push(v);
                    cur = next;
                    assert(args@.map_values(|v: Value| v@) =~= prev.map_values(|v: Value| v@).push(
                        v@,
                    ));
                    proof {
                        lemma_read_value_advances(bytes@, prev_cur as int);
                    }
                },
                Err(e) => {
                    proof {
                        assert(spec_read_args(cmd.params@.take(i + 1), bytes@, p + 2) == Err::<
                            (Seq<SpecValue>, int),
                            ReadError,
                        >(e));
                        lemma_read_args_err_extends(cmd.params@, bytes@, p + 2, i + 1);
                        assert(cmd.params@.take(cmd.params@.len() as int) =~= cmd.params@);
                    }
                    return Err(e);
                },
            }
            i = i + 1;
        }
        assert(cmd.params@.take(cmd.params@.len() as int) =~= cmd.params@);
        Ok((Instr { opcode, offset: pos, bool_inverted, args }, cur as u64))
    }
}

/// The bytes of `args` written one after another.
pub open spec fn spec_encode_args(args: Seq<SpecValue>) -> Seq<u8>
    decreases args.len(),
{
    if args.len() == 0 {
        Seq::empty()
    } else {
        spec_encode_args(args.drop_last()) + spec_encode_value(args.last())
    }
}

/// The sum of the byte counts that writing `args` reports.
pub open spec fn spec_args_count(args: Seq<SpecValue>) -> int
    decreases args.len(),
{
    if args.len() == 0 {
        0
    } else {
        spec_args_count(args.drop_last()) + spec_written_count(args.last())
    }
}

/// The opcode as written: the top bit marks an inverted boolean result.
pub open spec fn spec_compiled_opcode(opcode: u16, inverted: bool) -> u16 {
    if inverted {
        opcode | 0x8000
    } else {
        opcode
    }
}

/// The counts of all prefixes of `args` are non-negative and grow.
pub proof fn lemma_args_count_monotone(args: Seq<SpecValue>, i: int)
    requires
        0 <= i <= args.len(),
    ensures
        0 <= spec_args_count(args.take(i)) <= spec_args_count(args),
    decreases args.len() - i,
{
    if i < args.len() {
        assert(args.take(i + 1).drop_last() =~= args.take(i));
        lemma_args_count_monotone(args, i + 1);
        assert(spec_written_count(args[i]) >= 0);
    } else {
        assert(args.take(i) =~= args);
    }
    lemma_args_count_nonneg(args.take(i));
}

/// The count that writing a value reports is the number of bytes written.
pub proof fn lemma_written_count_is_length(v: SpecValue)
    requires
        spec_writable(v),
    ensures
        spec_written_count(v) == spec_encode_value(v).len(),
{
}

/// The count that writing values reports is the number of bytes written.
pub proof fn lemma_args_count_is_length(args: Seq<SpecValue>)
    requires
        forall|j: int| 0 <= j < args.len() ==> spec_writable(#[trigger] args[j]),
    ensures
        spec_args_count(args) == spec_encode_args(args).len(),
    decreases args.len(),
{
    if args.len() > 0 {
        lemma_args_count_is_length(args.drop_last());
        lemma_written_count_is_length(args.last());
    }
}

/// Byte counts are never negative.
pub proof fn lemma_args_count_nonneg(args: Seq<SpecValue>)
    ensures
        spec_args_count(args) >= 0,
    decreases args.len(),
{
    if args.len() > 0 {
        lemma_args_count_nonneg(args.drop_last());
    }
}

impl Instr {
    /// The offsets that execution may continue at after this instruction,
    /// where `current` is the offset just after it.
    pub fn next_offsets(&self, current: u64) -> (offsets: Vec<u64>)
        requires
            pointers_in_range(self@.args),
        ensures
            offsets@.map_values(|o: u64| o as int) == spec_next_offsets(self@, current as int),
    {
        let mut offsets: Vec<u64> = Vec::new();
        if self.opcode == 0x0051 {
            assert(offsets@.map_values(|o: u64| o as int) =~= Seq::<int>::empty());
            return offsets;
        }
        if self.opcode != 0x0002 {
            offsets.push(current);
        }
        let ghost fall = offsets@.map_values(|o: u64| o as int);
        if self.opcode == 0x0002 || self.opcode == 0x004c || self.opcode == 0x004d || self.opcode
            == 0x0050 || self.opcode == 0x0871 || self.opcode == 0x0872 {
            let ghost args = self@.args;
            let mut i: usize = 0;
            assert(args.take(0) =~= Seq::<SpecValue>::empty());
            assert(fall + Seq::<int>::empty() =~= fall);
            while i < self.args.len()
                invariant
                    0 <= i <= self.args@.len(),
                    args == self@.args,
                    args.len() == self.args@.len(),
                    pointers_in_range(args),
                    offsets@.map_values(|o: u64| o as int) == fall + spec_local_targets(
                        args.take(i as int),
                    ),
                decreases self.args@.len() - i,
            {
                let ghost prev = offsets@;
                assert(args.take(i + 1).drop_last() =~= args.take(i as int));
                assert(args[i as int] == self.args@[i as int]@);
                if let Value::Pointer(ptr) = &self.args[i] {
                    if ptr.is_local() {
                        assert(args[i as int] != SpecValue::Pointer(i64::MIN as int));
                        offsets.push(ptr.absolute());
                        assert(offsets@.map_values(|o: u64| o as int) =~= prev.map_values(
                            |o: u64| o as int,
                        ).push(spec_abs(ptr.0 as int)));
                    }
                }
                i = i + 1;
            }
            assert(args.take(args.len() as int) =~= args);
        } else {
            assert(offsets@.map_values(|o: u64| o as int) =~= fall);
        }
        offsets
    }

    /// Appends the bytecode for this instruction to `dest` and returns the
    /// number of bytes written.
    pub fn write(self, dest: &mut Vec<u8>) -> (count: usize)
        requires
            forall|j: int| 0 <= j < self.args@.len() ==> spec_writable(#[trigger] self.args@[j]@),
            2 + spec_args_count(self@.args) <= usize::MAX,
        ensures
            final(dest)@ == old(dest)@ + spec_u16_bytes(
                spec_compiled_opcode(self.opcode, self.bool_inverted) as int,
            ) + spec_encode_args(self@.args),
            count == 2 + spec_args_count(self@.args),
            count == final(dest)@.len() - old(dest)@.len(),
    {
        let ghost args = self@.args;
        let ghost start = dest@;
        let compiled_opcode = if self.bool_inverted {
            self.opcode | 0x8000
        } else {
            self.opcode
        };
        let b = u16_le_bytes(compiled_opcode);
        dest.extend_from_slice(&b);
        let ghost head = dest@;
        let mut byte_count: usize = 2;
        let mut rest = self.args;
        let total = rest.len();
        assert(total == args.len());
        let mut i: usize = 0;
        assert(args.take(0) =~= Seq::<SpecValue>::empty());
        assert(head + Seq::<u8>::empty() =~= head);
        proof {
            lemma_args_count_monotone(args, 0);
        }
        while rest.len() > 0
            invariant
                0 <= i <= args.len(),
                args.len() <= usize::MAX,
                rest@.len() == args.len() - i,
                forall|j: int| 0 <= j < rest@.len() ==> #[trigger] rest@[j]@ == args[i + j],
                forall|j: int| 0 <= j < args.len() ==> spec_writable(#[trigger] args[j]),
                2 + spec_args_count(args) <= usize::MAX,
                byte_count == 2 + spec_args_count(args.take(i as int)),
                dest@ == head + spec_encode_args(args.take(i as int)),
            decreases rest@.len(),
        {
            let arg = rest.remove(0);
            proof {
                lemma_args_count_monotone(args, i + 1);
                assert(args.take(i + 1).drop_last() =~= args.take(i as int));
                assert(arg@ == args[i as int]);
            }
            let n = arg.write(dest);
            byte_count = byte_count + n;
            i = i + 1;
        }
        assert(args.take(args.len() as int) =~= args);
        proof {
            lemma_args_count_is_length(args);
            assert(spec_u16_bytes(compiled_opcode as int).len() == 2);
        }
        byte_count
    }
}

/// Integers read from bytecode fit in 32 bits.
pub proof fn lemma_read_value_int_range(b: Seq<u8>, p: int)
    ensures
        spec_read_value(b, p) matches Ok((SpecValue::Integer(i), _)) ==> -0x8000_0000 <= i
            < 0x8000_0000,
{
    if 0 <= p < b.len() && p + 5 <= b.len() {
        let q = p + 1;
        assert(0 <= spec_u32_le(b, q) < 0x1_0000_0000);
    }
}

/// Pointers read for parameters come from 32-bit integers, so none of them is
/// `i64::MIN`.
pub proof fn lemma_read_args_pointers(params: Seq<Param>, b: Seq<u8>, p: int)
    ensures
        spec_read_args(params, b, p) matches Ok((args, _)) ==> pointers_in_range(args),
    decreases params.len(),
{
    if params.len() > 0 {
        lemma_read_args_pointers(params.drop_last(), b, p);
        if let Ok((vs, q)) = spec_read_args(params.drop_last(), b, p) {
            lemma_read_value_int_range(b, q);
            if let Ok((v, r)) = spec_read_param(params.last().param_type, b, q) {
                let all = vs.push(v);
                assert forall|j: int| 0 <= j < all.len() implies all[j] != SpecValue::Pointer(
                    i64::MIN as int,
                ) by {
                    if j < vs.len() {
                        assert(all[j] == vs[j]);
                    }
                }
            }
        }
    }
}

/// The offsets that execution may continue at after the instruction at `o`
/// (none when it cannot be read).
#[verifier::opaque]
pub open spec fn spec_successors(cmds: Map<u16, Command>, b: Seq<u8>, o: int) -> Seq<int> {
    match spec_read_instr(cmds, b, o) {
        Ok((i, q)) => spec_next_offsets(i, q),
        Err(_) => Seq::empty(),
    }
}

/// Whether an instruction can be read at `o`.
#[verifier::opaque]
pub open spec fn spec_decodes(cmds: Map<u16, Command>, b: Seq<u8>, o: int) -> bool {
    spec_read_instr(cmds, b, o) is Ok
}

/// `m` holds exactly what reading the instruction at each of its offsets gives.
pub open spec fn decoded_map(cmds: Map<u16, Command>, b: Seq<u8>, m: Map<u64, Instr>) -> bool {
    forall|k: u64|
        #![trigger m.dom().contains(k)]
        m.dom().contains(k) ==> spec_decodes(cmds, b, k as int) && spec_decoded(cmds, b, k as int)
            == m[k]@
}

/// The instruction read at `o`.
#[verifier::opaque]
pub open spec fn spec_decoded(cmds: Map<u16, Command>, b: Seq<u8>, o: int) -> SpecInstr {
    spec_read_instr(cmds, b, o)->Ok_0.0
}

/// What a read at `o` tells about the opaque views of it.
pub proof fn lemma_read_facts(cmds: Map<u16, Command>, b: Seq<u8>, o: int)
    ensures
        match spec_read_instr(cmds, b, o) {
            Ok((i, q)) => spec_decodes(cmds, b, o) && spec_successors(cmds, b, o)
                == spec_next_offsets(i, q) && spec_decoded(cmds, b, o) == i && 0 <= o && o + 2
                <= b.len(),
            Err(_) => !spec_decodes(cmds, b, o) && spec_successors(cmds, b, o) == Seq::<
                int,
            >::empty(),
        },
{
    reveal(spec_decodes);
    reveal(spec_successors);
    reveal(spec_decoded);
}

/// Every offset in `m` is the entry point or a successor of another offset in `m`.
pub open spec fn reached_map(cmds: Map<u16, Command>, b: Seq<u8>, m: Map<u64, Instr>) -> bool {
    forall|k: u64|
        #![trigger m.dom().contains(k)]
        m.dom().contains(k) ==> k == 0 || exists|k2: u64|
            #![trigger m.dom().contains(k2)]
            m.dom().contains(k2) && spec_successors(cmds, b, k2 as int).contains(k as int)
}

/// Every readable successor of an offset in `m` is in `m`, and so is the
/// entry point when it is readable.
pub open spec fn closed_map(cmds: Map<u16, Command>, b: Seq<u8>, m: Map<u64, Instr>) -> bool {
    &&& (spec_decodes(cmds, b, 0) ==> m.dom().contains(0))
    &&& forall|k: u64, j: int|
        #![trigger m.dom().contains(k), spec_successors(cmds, b, k as int)[j]]
        m.dom().contains(k) && 0 <= j < spec_successors(cmds, b, k as int).len()
            && spec_decodes(cmds, b, spec_successors(cmds, b, k as int)[j]) ==> m.dom().contains(
            spec_successors(cmds, b, k as int)[j] as u64,
        )
}

/// The number of offsets below `n` that are not in `dom`.
pub open spec fn spec_unvisited(dom: Set<u64>, n: nat) -> nat
    decreases n,
{
    if n == 0 {
        0
    } else {
        spec_unvisited(dom, (n - 1) as nat) + if dom.contains((n - 1) as u64) {
            0nat
        } else {
            1nat
        }
    }
}

/// Adding a missing offset below `n` lowers the count of unvisited offsets.
pub proof fn lemma_unvisited_insert(dom: Set<u64>, n: nat, k: u64)
    requires
        n <= u64::MAX + 1,
        !dom.contains(k),
    ensures
        k < n ==> spec_unvisited(dom.insert(k), n) + 1 == spec_unvisited(dom, n),
        k >= n ==> spec_unvisited(dom.insert(k), n) == spec_unvisited(dom, n),
    decreases n,
{
    if n > 0 {
        lemma_unvisited_insert(dom, (n - 1) as nat, k);
    }
}

/// Every pending offset is the entry point or a successor of a known offset.
#[verifier::opaque]
pub open spec fn pending_reached(cmds: Map<u16, Command>, b: Seq<u8>, dom: Set<u64>, stack: Seq<u64>) -> bool {
    forall|i: int|
        0 <= i < stack.len() ==> #[trigger] stack[i] == 0 || exists|k2: u64|
            #![trigger dom.contains(k2)]
            dom.contains(k2) && spec_successors(cmds, b, k2 as int).contains(stack[i] as int)
}

/// Every known offset is the entry point or a successor of a known offset.
#[verifier::opaque]
pub open spec fn dom_reached(cmds: Map<u16, Command>, b: Seq<u8>, dom: Set<u64>) -> bool {
    forall|k: u64|
        #![trigger dom.contains(k)]
        dom.contains(k) ==> k == 0 || exists|k2: u64|
            #![trigger dom.contains(k2)]
            dom.contains(k2) && spec_successors(cmds, b, k2 as int).contains(k as int)
}

/// Every readable successor of a known offset, and the entry point when it
/// is readable, is known or pending.
#[verifier::opaque]
pub open spec fn pending_closed(cmds: Map<u16, Command>, b: Seq<u8>, dom: Set<u64>, stack: Seq<u64>) -> bool {
    &&& (spec_decodes(cmds, b, 0) ==> dom.contains(0) || stack.contains(0))
    &&& forall|k: u64, j: int|
        #![trigger dom.contains(k), spec_successors(cmds, b, k as int)[j]]
        dom.contains(k) && 0 <= j < spec_successors(cmds, b, k as int).len() && spec_decodes(
            cmds,
            b,
            spec_successors(cmds, b, k as int)[j],
        ) ==> dom.contains(spec_successors(cmds, b, k as int)[j] as u64) || stack.contains(
            spec_successors(cmds, b, k as int)[j] as u64,
        )
}

/// Dropping a pending offset that is already known, or that cannot be read,
/// keeps the exploration invariants.
pub proof fn lemma_explore_skip(
    cmds: Map<u16, Command>,
    b: Seq<u8>,
    dom: Set<u64>,
    stack: Seq<u64>,
    offset: u64,
)
    requires
        b.len() <= u64::MAX,
        pending_reached(cmds, b, dom, stack.push(offset)),
        pending_closed(cmds, b, dom, stack.push(offset)),
        dom.contains(offset) || !spec_decodes(cmds, b, offset as int),
    ensures
        pending_reached(cmds, b, dom, stack),
        pending_closed(cmds, b, dom, stack),
{
    reveal(pending_reached);
    reveal(pending_closed);
    let old_stack = stack.push(offset);
    assert forall|x: u64| old_stack.contains(x) implies stack.contains(x) || x == offset by {
        let i = choose|i: int| 0 <= i < old_stack.len() && old_stack[i] == x;
        if i < stack.len() {
            assert(stack[i] == x);
        }
    }
    assert forall|i: int| 0 <= i < stack.len() implies #[trigger] stack[i] == 0 || exists|k2: u64|
        #![trigger dom.contains(k2)]
        dom.contains(k2) && spec_successors(cmds, b, k2 as int).contains(stack[i] as int) by {
        assert(stack[i] == old_stack[i]);
    }
    assert forall|k: u64, j: int|
        #![trigger dom.contains(k), spec_successors(cmds, b, k as int)[j]]
        dom.contains(k) && 0 <= j < spec_successors(cmds, b, k as int).len() && spec_decodes(
            cmds,
            b,
            spec_successors(cmds, b, k as int)[j],
        ) implies dom.contains(spec_successors(cmds, b, k as int)[j] as u64) || stack.contains(
        spec_successors(cmds, b, k as int)[j] as u64,
    ) by {
        let s = spec_successors(cmds, b, k as int)[j];
        if !dom.contains(s as u64) {
            assert(old_stack.contains(s as u64));
            lemma_decodes_in_range(cmds, b, s);
            if (s as u64) == offset {
                assert(s == offset as int);
            }
        }
    }
}

/// An offset that can be read lies within the bytes.
pub proof fn lemma_decodes_in_range(cmds: Map<u16, Command>, b: Seq<u8>, o: int)
    requires
        spec_decodes(cmds, b, o),
    ensures
        0 <= o < b.len(),
{
    lemma_read_facts(cmds, b, o);
}

/// Recording a readable pending offset and pushing its successors keeps the
/// exploration invariants.
pub proof fn lemma_explore_insert(
    cmds: Map<u16, Command>,
    b: Seq<u8>,
    dom: Set<u64>,
    stack: Seq<u64>,
    offset: u64,
    succ: Seq<u64>,
)
    requires
        pending_reached(cmds, b, dom, stack.push(offset)),
        pending_closed(cmds, b, dom, stack.push(offset)),
        dom_reached(cmds, b, dom),
        !dom.contains(offset),
        spec_decodes(cmds, b, offset as int),
        spec_successors(cmds, b, offset as int) == succ.map_values(|o: u64| o as int),
    ensures
        pending_reached(cmds, b, dom.insert(offset), stack + succ),
        pending_closed(cmds, b, dom.insert(offset), stack + succ),
        dom_reached(cmds, b, dom.insert(offset)),
{
    reveal(pending_reached);
    reveal(pending_closed);
    reveal(dom_reached);
    let old_stack = stack.push(offset);
    let nd = dom.insert(offset);
    let ns = stack + succ;
    assert forall|x: u64| old_stack.contains(x) implies ns.contains(x) || x == offset by {
        let i = choose|i: int| 0 <= i < old_stack.len() && old_stack[i] == x;
        if i < stack.len() {
            assert(ns[i] == x);
        }
    }
    assert forall|j: int| 0 <= j < succ.len() implies ns.contains(succ[j]) by {
        assert(ns[stack.len() + j] == succ[j]);
    }
    // The popped offset was reached from a known offset (or is the entry point).
    assert(old_stack[old_stack.len() - 1] == offset);
    assert forall|k: u64| #![trigger nd.contains(k)] nd.contains(k) implies k == 0 || exists|k2: u64|
        #![trigger nd.contains(k2)]
        nd.contains(k2) && spec_successors(cmds, b, k2 as int).contains(k as int) by {
        if k == offset {
            if k != 0 {
                let k2 = choose|k2: u64|
                    #![trigger dom.contains(k2)]
                    dom.contains(k2) && spec_successors(cmds, b, k2 as int).contains(
                        old_stack[old_stack.len() - 1] as int,
                    );
                assert(nd.contains(k2));
            }
        } else if k != 0 {
            let k2 = choose|k2: u64|
                #![trigger dom.contains(k2)]
                dom.contains(k2) && spec_successors(cmds, b, k2 as int).contains(k as int);
            assert(nd.contains(k2));
        }
    }
    assert forall|i: int| 0 <= i < ns.len() implies #[trigger] ns[i] == 0 || exists|k2: u64|
        #![trigger nd.contains(k2)]
        nd.contains(k2) && spec_successors(cmds, b, k2 as int).contains(ns[i] as int) by {
        if i < stack.len() {
            assert(ns[i] == old_stack[i]);
            if ns[i] != 0 {
                let k2 = choose|k2: u64|
                    #![trigger dom.contains(k2)]
                    dom.contains(k2) && spec_successors(cmds, b, k2 as int).contains(
                        old_stack[i] as int,
                    );
                assert(nd.contains(k2));
            }
        } else {
            let j = i - stack.len();
            assert(ns[i] == succ[j]);
            assert(spec_successors(cmds, b, offset as int)[j] == succ[j] as int);
            assert(nd.contains(offset));
        }
    }
    assert forall|k: u64, j: int|
        #![trigger nd.contains(k), spec_successors(cmds, b, k as int)[j]]
        nd.contains(k) && 0 <= j < spec_successors(cmds, b, k as int).len() && spec_decodes(
            cmds,
            b,
            spec_successors(cmds, b, k as int)[j],
        ) implies nd.contains(spec_successors(cmds, b, k as int)[j] as u64) || ns.contains(
        spec_successors(cmds, b, k as int)[j] as u64,
    ) by {
        let s = spec_successors(cmds, b, k as int)[j];
        if k == offset {
            assert(s == succ[j] as int);
            assert(ns.contains(succ[j]));
        } else {
            assert(dom.contains(k));
            if !dom.contains(s as u64) {
                assert(old_stack.contains(s as u64));
            }
        }
    }
    if spec_decodes(cmds, b, 0) {
        if !dom.contains(0) {
            assert(old_stack.contains(0));
        }
    }
}

/// The result of disassembling a script: the instructions by offset, and the
/// offsets in the order they were found.
pub struct Disassembly {
    pub instrs: HashMap<u64, Instr>,
    pub order: Vec<u64>,
}

impl Disassembly {
    /// Disassembles `bytecode` from offset 0, following every path that the
    /// instructions can take. Paths that run into unreadable bytes end there.
    pub fn disasm_all(commands: &HashMap<u16, Command>, bytecode: &[u8]) -> (d: Disassembly)
        ensures
            decoded_map(commands@, bytecode@, d.instrs@),
            reached_map(commands@, bytecode@, d.instrs@),
            closed_map(commands@, bytecode@, d.instrs@),
            d.order@.no_duplicates(),
            forall|i: int| 0 <= i < d.order@.len() ==> d.instrs@.dom().contains(#[trigger] d.order@[i]),
            forall|k: u64| d.instrs@.dom().contains(k) ==> d.order@.contains(k),
    {
        let ghost cmds = commands@;
        let ghost b = bytecode@;
        let mut instrs: HashMap<u64, Instr> = HashMap::new();
        let mut order: Vec<u64> = Vec::new();
        let mut stack: Vec<u64> = Vec::new();
        stack.push(0);
        assert(bytecode@.len() == bytecode.len());
        proof {
            reveal(pending_reached);
            reveal(pending_closed);
            reveal(dom_reached);
            assert(stack@[0] == 0);
        }
        while stack.len() > 0
            invariant
                b == bytecode@,
                b.len() <= u64::MAX,
                cmds == commands@,
                decoded_map(cmds, b, instrs@),
                dom_reached(cmds, b, instrs@.dom()),
                pending_reached(cmds, b, instrs@.dom(), stack@),
                pending_closed(cmds, b, instrs@.dom(), stack@),
                order@.no_duplicates(),
                forall|i: int| 0 <= i < order@.len() ==> instrs@.dom().contains(#[trigger] order@[i]),
                forall|k: u64| instrs@.dom().contains(k) ==> order@.contains(k),
            decreases spec_unvisited(instrs@.dom(), b.len()), stack@.len(),
        {
            let ghost old_stack = stack@;
            let offset = stack.pop().unwrap();
            assert(old_stack =~= stack@.push(offset));
            if instrs.contains_key(&offset) {
                proof {
                    lemma_explore_skip(cmds, b, instrs@.dom(), stack@, offset);
                }
                continue;
            }
            match Instr::read(commands, bytecode, offset) {
                Err(_) => {
                    proof {
                        lemma_read_facts(cmds, b, offset as int);
                        lemma_explore_skip(cmds, b, instrs@.dom(), stack@, offset);
                    }
                    continue;
                },
                Ok((instr, next)) => {
                    proof {
                        lemma_read_facts(cmds, b, offset as int);
                        lemma_read_args_pointers(cmds[instr.opcode].params@, b, offset + 2);
                        lemma_unvisited_insert(instrs@.dom(), b.len(), offset);
                    }
                    let mut succ = instr.next_offsets(next);
                    let ghost succ_seq = succ@;
                    let ghost mid_stack = stack@;
                    let ghost old_order = order@;
                    let ghost old_map = instrs@;
                    proof {
                        lemma_explore_insert(cmds, b, old_map.dom(), mid_stack, offset, succ_seq);
                    }
                    instrs.insert(offset, instr);
                    order.push(offset);
                    stack.append(&mut succ);
                    proof {
                        assert(stack@ =~= mid_stack + succ_seq);
                        assert(instrs@.dom() =~= old_map.dom().insert(offset));
                        assert forall|k: u64| #![trigger instrs@.dom().contains(k)] instrs@.dom().contains(k) implies spec_decodes(
                            cmds,
                            b,
                            k as int,
                        ) && spec_decoded(cmds, b, k as int) == instrs@[k]@ by {
                            if k != offset {
                                assert(old_map.dom().contains(k));
                            }
                        }
                        assert forall|i: int| 0 <= i < order@.len() implies instrs@.dom().contains(
                            #[trigger] order@[i],
                        ) by {
                            if i < old_order.len() {
                                assert(order@[i] == old_order[i]);
                            }
                        }
                        assert(!old_order.contains(offset));
                        assert forall|k: u64| instrs@.dom().contains(k) implies order@.contains(k) by {
                            if k != offset {
                                assert(old_map.dom().contains(k));
                                assert(old_order.contains(k));
                                let i = choose|i: int| 0 <= i < old_order.len() && old_order[i] == k;
                                assert(order@[i] == k);
                            } else {
                                assert(order@[order@.len() - 1] == k);
                            }
                        }
                    }
                },
            }
        }
        proof {
            reveal(pending_closed);
            reveal(dom_reached);
        }
        Disassembly { instrs, order }
    }
}

/// A problem that a script can have on this platform.
#[derive(Debug)]
pub enum Issue {
    /// The script uses instructions that aren't implemented in this library.
    NotImpl,
    /// The script uses code that can only work on Android due to architecture differences.
    BadArch,
    /// The script check failed, so we can't say whether or not the script has issues.
    Unchecked,
    /// The script has the same identity as some other script.
    Duplicate(String),
}

/// The text that describes `issue` to the user.
pub open spec fn spec_issue_message(issue: Issue) -> Seq<char> {
    match issue {
        Issue::NotImpl => "Requires features unavailable on iOS."@,
        Issue::BadArch => "Contains some iOS-incompatible code."@,
        Issue::Duplicate(orig_name) => "Duplicate of '"@ + orig_name@ + "'."@,
        Issue::Unchecked => "Script check failed."@,
    }
}

impl Issue {
    /// Returns the text that describes this issue to the user.
    pub fn message(&self) -> (m: String)
        ensures
            m@ == spec_issue_message(*self),
    {
        match self {
            Issue::NotImpl => "Requires features unavailable on iOS.".to_owned(),
            Issue::BadArch => "Contains some iOS-incompatible code.".to_owned(),
            Issue::Duplicate(orig_name) => {
                let mut m = "Duplicate of '".to_owned();
                m.append(orig_name.as_str());
                m.append("'.");
                m
            },
            Issue::Unchecked => "Script check failed.".to_owned(),
        }
    }
}

/// The issue that an instruction with `opcode` causes, if any.
pub open spec fn spec_opcode_issue(opcode: u16) -> Option<Issue> {
    if opcode == 0x0dd5 || opcode == 0x0dd6 || (0x0de1 <= opcode <= 0x0df6) {
        Some(Issue::NotImpl)
    } else if (0x0dd0 <= opcode <= 0x0ddb) || opcode == 0x0dde {
        Some(Issue::BadArch)
    } else {
        None
    }
}

/// Returns the issue that an instruction with `opcode` causes, if any.
pub fn opcode_issue(opcode: u16) -> (issue: Option<Issue>)
    ensures
        issue == spec_opcode_issue(opcode),
{
    if opcode == 0x0dd5 || opcode == 0x0dd6 || (0x0de1 <= opcode && opcode <= 0x0df6) {
        Some(Issue::NotImpl)
    } else if (0x0dd0 <= opcode && opcode <= 0x0ddb) || opcode == 0x0dde {
        Some(Issue::BadArch)
    } else {
        None
    }
}

/// The issues of the instructions at `offsets` in `m`, in that order.
pub open spec fn spec_scan_issues(offsets: Seq<u64>, m: Map<u64, Instr>) -> Seq<Issue>
    decreases offsets.len(),
{
    if offsets.len() == 0 {
        Seq::empty()
    } else {
        let rest = spec_scan_issues(offsets.drop_last(), m);
        match spec_opcode_issue(m[offsets.last()].opcode) {
            Some(i) => rest.push(i),
            None => rest,
        }
    }
}

/// What makes `m` a disassembly of `b` and `order` an ordering of its offsets.
pub open spec fn is_disassembly(
    cmds: Map<u16, Command>,
    b: Seq<u8>,
    m: Map<u64, Instr>,
    order: Seq<u64>,
) -> bool {
    &&& decoded_map(cmds, b, m)
    &&& reached_map(cmds, b, m)
    &&& closed_map(cmds, b, m)
    &&& order.no_duplicates()
    &&& forall|i: int| 0 <= i < order.len() ==> m.dom().contains(#[trigger] order[i])
    &&& forall|k: u64| m.dom().contains(k) ==> order.contains(k)
}

/// A record of the problems found in a script.
pub struct CompatReport {
    pub issues: Vec<Issue>,
}

impl CompatReport {
    /// Disassembles `bytecode` and records the issue of every instruction found,
    /// in the order the instructions were found.
    #[verifier::spinoff_prover]
    #[verifier::rlimit(40)]
    pub fn scan(commands: &HashMap<u16, Command>, bytecode: &[u8]) -> (report: CompatReport)
        ensures
            exists|m: Map<u64, Instr>, order: Seq<u64>|
                is_disassembly(commands@, bytecode@, m, order) && report.issues@
                    == spec_scan_issues(order, m),
    {
        let d = Disassembly::disasm_all(commands, bytecode);
        let mut issues: Vec<Issue> = Vec::new();
        let mut i: usize = 0;
        assert(d.order@.take(0) =~= Seq::<u64>::empty());
        while i < d.order.len()
            invariant
                0 <= i <= d.order@.len(),
                forall|j: int| 0 <= j < d.order@.len() ==> d.instrs@.dom().contains(#[trigger] d.order@[j]),
                issues@ == spec_scan_issues(d.order@.take(i as int), d.instrs@),
            decreases d.order@.len() - i,
        {
            let k = d.order[i];
            assert(d.order@.take(i + 1).drop_last() =~= d.order@.take(i as int));
            assert(d.instrs@.dom().contains(k));
            let instr = d.instrs.get(&k).unwrap();
            if let Some(issue) = opcode_issue(instr.opcode) {
                issues.push(issue);
            }
            i = i + 1;
        }
        assert(d.order@.take(d.order@.len() as int) =~= d.order@);
        let report = CompatReport { issues };
        assert(is_disassembly(commands@, bytecode@, d.instrs@, d.order@));
        report
    }
}

/// The bytes of `s` before its first zero byte are exactly its leading
/// non-zero bytes, and a zero byte (or the end of `s`) follows them.
proof fn lemma_until_nul_shape(s: Seq<u8>)
    ensures
        spec_until_nul(s).len() <= s.len(),
        forall|j: int|
            0 <= j < spec_until_nul(s).len() ==> #[trigger] spec_until_nul(s)[j] == s[j] && s[j]
                != 0,
        spec_until_nul(s).len() == s.len() || s[spec_until_nul(s).len() as int] == 0,
    decreases s.len(),
{
    if s.len() > 0 && s[0] != 0 {
        let t = s.drop_first();
        lemma_until_nul_shape(t);
        assert forall|j: int| 0 <= j < spec_until_nul(s).len() implies #[trigger] spec_until_nul(
            s,
        )[j] == s[j] && s[j] != 0 by {
            if j > 0 {
                assert(spec_until_nul(s)[j] == spec_until_nul(t)[j - 1]);
                assert(t[j - 1] == s[j]);
            }
        }
        if spec_until_nul(t).len() < t.len() {
            assert(s[spec_until_nul(s).len() as int] == t[spec_until_nul(t).len() as int]);
        }
    }
}

/// `text` is the text held in the zero-padded field `field`: one character
/// per byte (each byte standing for the character of the same number), up to
/// the first zero byte or the end of the field.
pub open spec fn is_field_text(field: Seq<u8>, text: Seq<char>) -> bool {
    &&& text.len() <= field.len()
    &&& forall|j: int| #![trigger text[j]] 0 <= j < text.len() ==> field[j] != 0 && text[j] == field[j] as char
    &&& text.len() == field.len() || field[text.len() as int] == 0
}

/// A string of fixed length `n` read at `q` is the text of the `n` bytes there,
/// and reading ends just after them.
proof fn lemma_fixed_string_text(b: Seq<u8>, q: int, n: int)
    requires
        0 <= q,
        0 <= n,
        q + n <= b.len(),
    ensures
        spec_fixed_string(b, q, n) matches Ok((SpecValue::String(t), end)) && end == q + n
            && is_field_text(b.subrange(q, q + n), t),
{
    lemma_field_text(b.subrange(q, q + n));
}

/// The text of a field is its bytes up to the first zero byte, each read as a
/// character.
proof fn lemma_field_text(f: Seq<u8>)
    ensures
        is_field_text(f, spec_latin1(spec_until_nul(f))),
{
    lemma_until_nul_shape(f);
    let u = spec_until_nul(f);
    let t = spec_latin1(u);
    assert(t.len() == u.len());
    assert forall|j: int| 0 <= j < t.len() implies f[j] != 0 && t[j] == f[j] as char by {
        assert(u[j] == f[j]);
        assert(f[j] != 0);
        assert(t[j] == u[j] as char);
    }
}

/// A short string literal (type 9) takes the eight bytes that follow its type
/// byte: it reads as the text of those bytes, up to the first zero byte, and
/// the value that follows starts nine bytes on.
pub proof fn lemma_read_short_string(field: Seq<u8>, rest: Seq<u8>)
    requires
        field.len() == 8,
    ensures
        spec_read_value(seq![9u8] + field + rest, 0) matches Ok((SpecValue::String(t), end))
            && end == 9 && is_field_text(field, t),
{
    let b = seq![9u8] + field + rest;
    lemma_fixed_string_text(b, 1, 8);
    assert(b.subrange(1, 9) =~= field);
}

/// A long string literal (type 0x0F) takes the sixteen bytes that follow its
/// type byte: it reads as the text of those bytes, up to the first zero byte,
/// and the value that follows starts seventeen bytes on.
pub proof fn lemma_read_long_string(field: Seq<u8>, rest: Seq<u8>)
    requires
        field.len() == 16,
    ensures
        spec_read_value(seq![0x0fu8] + field + rest, 0) matches Ok((SpecValue::String(t), end))
            && end == 17 && is_field_text(field, t),
{
    let b = seq![0x0fu8] + field + rest;
    lemma_fixed_string_text(b, 1, 16);
    assert(b.subrange(1, 17) =~= field);
}

/// A string with a length byte (type 0x0E) takes as many bytes as that byte
/// says: it reads as the text of those bytes, up to the first zero byte, and
/// the value that follows starts just after them.
pub proof fn lemma_read_sized_string(field: Seq<u8>, rest: Seq<u8>)
    requires
        field.len() < 256,
    ensures
        spec_read_value(seq![0x0eu8, field.len() as u8] + field + rest, 0) matches Ok(
            (SpecValue::String(t), end),
        ) && end == 2 + field.len() && is_field_text(field, t),
{
    let b = seq![0x0eu8, field.len() as u8] + field + rest;
    assert(b[1] == field.len() as u8);
    lemma_fixed_string_text(b, 2, field.len() as int);
    assert(b.subrange(2, 2 + field.len() as int) =~= field);
}

/// The local branch targets among `args` are the offsets of their local
/// pointers (negative pointer values).
proof fn lemma_local_targets_contain(args: Seq<SpecValue>, j: int, p: int)
    requires
        0 <= j < args.len(),
        args[j] == SpecValue::Pointer(p),
        p < 0,
    ensures
        spec_local_targets(args).contains(-p),
    decreases args.len(),
{
    if j < args.len() - 1 {
        lemma_local_targets_contain(args.drop_last(), j, p);
        let rest = spec_local_targets(args.drop_last());
        let k = choose|k: int| 0 <= k < rest.len() && rest[k] == -p;
        match args.last() {
            SpecValue::Pointer(q) => if q < 0 {
                assert(rest.push(-q)[k] == -p);
            },
            _ => {},
        }
    } else {
        assert(spec_local_targets(args).last() == -p);
    }
}

/// Where execution may go after an instruction, `current` being the offset
/// just after it. A return (0x0051) goes nowhere known here. Every other
/// instruction but goto (0x0002) may fall through to `current`. Goto, the
/// conditional gotos (0x004C, 0x004D), gosub (0x0050) and the switch
/// instructions (0x0871, 0x0872) may also go to the offset of each of their
/// local pointer arguments. Any other instruction only falls through.
pub proof fn lemma_next_offsets_follow_control_flow(instr: SpecInstr, current: int)
    ensures
        instr.opcode == 0x0051 ==> spec_next_offsets(instr, current).len() == 0,
        instr.opcode != 0x0051 && instr.opcode != 0x0002 ==> spec_next_offsets(
            instr,
            current,
        ).contains(current),
        (instr.opcode == 0x0002 || instr.opcode == 0x004c || instr.opcode == 0x004d
            || instr.opcode == 0x0050 || instr.opcode == 0x0871 || instr.opcode == 0x0872)
            ==> forall|j: int|
            0 <= j < instr.args.len() ==> (#[trigger] instr.args[j] matches SpecValue::Pointer(p)
                ==> (p < 0 ==> spec_next_offsets(instr, current).contains(-p))),
        !(instr.opcode == 0x0002 || instr.opcode == 0x004c || instr.opcode == 0x004d
            || instr.opcode == 0x0050 || instr.opcode == 0x0871 || instr.opcode == 0x0872
            || instr.opcode == 0x0051) ==> spec_next_offsets(instr, current) == seq![current],
{
    let fall = if instr.opcode != 0x0002 {
        seq![current]
    } else {
        Seq::<int>::empty()
    };
    if instr.opcode != 0x0051 && instr.opcode != 0x0002 {
        assert(spec_next_offsets(instr, current)[0] == current);
    }
    if instr.opcode == 0x0002 || instr.opcode == 0x004c || instr.opcode == 0x004d || instr.opcode
        == 0x0050 || instr.opcode == 0x0871 || instr.opcode == 0x0872 {
        assert forall|j: int|
            0 <= j < instr.args.len() implies (#[trigger] instr.args[j] matches SpecValue::Pointer(
                p,
            ) ==> (p < 0 ==> spec_next_offsets(instr, current).contains(-p))) by {
            match instr.args[j] {
                SpecValue::Pointer(p) => if p < 0 {
                    lemma_local_targets_contain(instr.args, j, p);
                    let t = spec_local_targets(instr.args);
                    let k = choose|k: int| 0 <= k < t.len() && t[k] == -p;
                    assert((fall + t)[fall.len() + k] == -p);
                },
                _ => {},
            }
        }
    }
}

/// The first two bytes that `Instr::write` writes hold the opcode, with the
/// top bit set exactly when the instruction's boolean result is inverted; so
/// reading the instruction back gives its opcode and its inversion.
pub proof fn lemma_written_opcode_word(
    cmds: Map<u16, Command>,
    opcode: u16,
    inverted: bool,
    rest: Seq<u8>,
)
    requires
        opcode < 0x8000,
    ensures
        spec_u16_le(spec_u16_bytes(spec_compiled_opcode(opcode, inverted) as int), 0) == opcode
            + if inverted {
            0x8000int
        } else {
            0int
        },
        spec_read_instr(
            cmds,
            spec_u16_bytes(spec_compiled_opcode(opcode, inverted) as int) + rest,
            0,
        ) matches Ok((i, _)) ==> i.opcode == opcode && i.bool_inverted == inverted,
{
    assert((opcode | 0x8000u16) == opcode + 0x8000) by (bit_vector)
        requires
            opcode < 0x8000u16,
    ;
    let w = spec_compiled_opcode(opcode, inverted);
    lemma_u16_bytes_roundtrip(w as int);
    let b = spec_u16_bytes(w as int) + rest;
    assert(spec_u16_le(b, 0) == spec_u16_le(spec_u16_bytes(w as int), 0));
}

} // verus!
