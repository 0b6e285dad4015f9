//! Structured operations and their unspecified kinds.
//!
//! `OperationKind` names a semantic opcode together with the kinds of its
//! operands; `Operation` is the specified counterpart carrying concrete
//! operands. Decoding projects a kind onto an operation by specifying each
//! operand kind with the argument data extracted from a codeword.

use vstd::prelude::*;

use crate::operands::{
    spec_dest_data, spec_dest_kind, spec_specify_dest, spec_specify_src, spec_src_data,
    spec_src_kind, Dest, DestKind, Src, SrcKind,
};

verus! {

/// A semantic opcode with the kinds of the operands it expects.
///
/// For `Stash` and `Fetch` the operands are the first register, the last
/// register, and a flag: flag 1 means I is advanced past the copied range,
/// flag 0 leaves I alone.
#[derive(Copy, Clone, Debug, PartialEq, Eq, Structural)]
pub enum OperationKind {
    NoOp,
    Load(DestKind, SrcKind),
    Stash(SrcKind, SrcKind, SrcKind),
    Fetch(SrcKind, SrcKind, SrcKind),
    Jump(SrcKind),
    JumpV0(SrcKind),
    Call(SrcKind),
    Ret,
    SkipEq(SrcKind, SrcKind),
    SkipNotEq(SrcKind, SrcKind),
    SkipKey(SrcKind),
    SkipNotKey(SrcKind),
    Add(DestKind, SrcKind, SrcKind),
    Sub(DestKind, SrcKind, SrcKind),
    Or(DestKind, SrcKind, SrcKind),
    And(DestKind, SrcKind, SrcKind),
    Xor(DestKind, SrcKind, SrcKind),
    Shr(DestKind, SrcKind),
    Shl(DestKind, SrcKind),
    Rand(DestKind, SrcKind, SrcKind),
    Cls,
    Sprite(SrcKind, SrcKind, SrcKind),
    Font(SrcKind, SrcKind),
    Bcd(SrcKind),
    WaitKey(DestKind, SrcKind),
}

/// A semantic opcode with fully specified operands.
#[derive(Copy, Clone, Debug, PartialEq, Eq, Structural)]
pub enum Operation {
    NoOp,
    Load(Dest, Src),
    Stash(Src, Src, Src),
    Fetch(Src, Src, Src),
    Jump(Src),
    JumpV0(Src),
    Call(Src),
    Ret,
    SkipEq(Src, Src),
    SkipNotEq(Src, Src),
    SkipKey(Src),
    SkipNotKey(Src),
    Add(Dest, Src, Src),
    Sub(Dest, Src, Src),
    Or(Dest, Src, Src),
    And(Dest, Src, Src),
    Xor(Dest, Src, Src),
    Shr(Dest, Src),
    Shl(Dest, Src),
    Rand(Dest, Src, Src),
    Cls,
    Sprite(Src, Src, Src),
    Font(Src, Src),
    Bcd(Src),
    WaitKey(Dest, Src),
}

/// The kind of a specified operation: the same opcode over operand kinds.
pub open spec fn spec_op_kind(op: Operation) -> OperationKind {
    match op {
        Operation::NoOp => OperationKind::NoOp,
        Operation::Load(d, s) => OperationKind::Load(spec_dest_kind(d), spec_src_kind(s)),
        Operation::Stash(a, b, f) => OperationKind::Stash(
            spec_src_kind(a),
            spec_src_kind(b),
            spec_src_kind(f),
        ),
        Operation::Fetch(a, b, f) => OperationKind::Fetch(
            spec_src_kind(a),
            spec_src_kind(b),
            spec_src_kind(f),
        ),
        Operation::Jump(a) => OperationKind::Jump(spec_src_kind(a)),
        Operation::JumpV0(a) => OperationKind::JumpV0(spec_src_kind(a)),
        Operation::Call(a) => OperationKind::Call(spec_src_kind(a)),
        Operation::Ret => OperationKind::Ret,
        Operation::SkipEq(a, b) => OperationKind::SkipEq(spec_src_kind(a), spec_src_kind(b)),
        Operation::SkipNotEq(a, b) => OperationKind::SkipNotEq(spec_src_kind(a), spec_src_kind(b)),
        Operation::SkipKey(k) => OperationKind::SkipKey(spec_src_kind(k)),
        Operation::SkipNotKey(k) => OperationKind::SkipNotKey(spec_src_kind(k)),
        Operation::Add(d, a, b) => OperationKind::Add(
            spec_dest_kind(d),
            spec_src_kind(a),
            spec_src_kind(b),
        ),
        Operation::Sub(d, a, b) => OperationKind::Sub(
            spec_dest_kind(d),
            spec_src_kind(a),
            spec_src_kind(b),
        ),
        Operation::Or(d, a, b) => OperationKind::Or(
            spec_dest_kind(d),
            spec_src_kind(a),
            spec_src_kind(b),
        ),
        Operation::And(d, a, b) => OperationKind::And(
            spec_dest_kind(d),
            spec_src_kind(a),
            spec_src_kind(b),
        ),
        Operation::Xor(d, a, b) => OperationKind::Xor(
            spec_dest_kind(d),
            spec_src_kind(a),
            spec_src_kind(b),
        ),
        Operation::Shr(d, s) => OperationKind::Shr(spec_dest_kind(d), spec_src_kind(s)),
        Operation::Shl(d, s) => OperationKind::Shl(spec_dest_kind(d), spec_src_kind(s)),
        Operation::Rand(d, s, m) => OperationKind::Rand(
            spec_dest_kind(d),
            spec_src_kind(s),
            spec_src_kind(m),
        ),
        Operation::Cls => OperationKind::Cls,
        Operation::Sprite(x, y, n) => OperationKind::Sprite(
            spec_src_kind(x),
            spec_src_kind(y),
            spec_src_kind(n),
        ),
        Operation::Font(g, f) => OperationKind::Font(spec_src_kind(g), spec_src_kind(f)),
        Operation::Bcd(s) => OperationKind::Bcd(spec_src_kind(s)),
        Operation::WaitKey(d, k) => OperationKind::WaitKey(spec_dest_kind(d), spec_src_kind(k)),
    }
}

/// Projects an operation kind onto an operation by specifying each operand
/// kind with the data of its argument slot: the first operand takes slot 0,
/// the second slot 1, the third slot 2.
pub open spec fn spec_project(kind: OperationKind, d0: usize, d1: usize, d2: usize) -> Operation {
    match kind {
        OperationKind::NoOp => Operation::NoOp,
        OperationKind::Load(d, s) => Operation::Load(
            spec_specify_dest(d, d0),
            spec_specify_src(s, d1),
        ),
        OperationKind::Stash(a, b, f) => Operation::Stash(
            spec_specify_src(a, d0),
            spec_specify_src(b, d1),
            spec_specify_src(f, d2),
        ),
        OperationKind::Fetch(a, b, f) => Operation::Fetch(
            spec_specify_src(a, d0),
            spec_specify_src(b, d1),
            spec_specify_src(f, d2),
        ),
        OperationKind::Jump(a) => Operation::Jump(spec_specify_src(a, d0)),
        OperationKind::JumpV0(a) => Operation::JumpV0(spec_specify_src(a, d0)),
        OperationKind::Call(a) => Operation::Call(spec_specify_src(a, d0)),
        OperationKind::Ret => Operation::Ret,
        OperationKind::SkipEq(a, b) => Operation::SkipEq(
            spec_specify_src(a, d0),
            spec_specify_src(b, d1),
        ),
        OperationKind::SkipNotEq(a, b) => Operation::SkipNotEq(
            spec_specify_src(a, d0),
            spec_specify_src(b, d1),
        ),
        OperationKind::SkipKey(k) => Operation::SkipKey(spec_specify_src(k, d0)),
        OperationKind::SkipNotKey(k) => Operation::SkipNotKey(spec_specify_src(k, d0)),
        OperationKind::Add(d, a, b) => Operation::Add(
            spec_specify_dest(d, d0),
            spec_specify_src(a, d1),
            spec_specify_src(b, d2),
        ),
        OperationKind::Sub(d, a, b) => Operation::Sub(
            spec_specify_dest(d, d0),
            spec_specify_src(a, d1),
            spec_specify_src(b, d2),
        ),
        OperationKind::Or(d, a, b) => Operation::Or(
            spec_specify_dest(d, d0),
            spec_specify_src(a, d1),
            spec_specify_src(b, d2),
        ),
        OperationKind::And(d, a, b) => Operation::And(
            spec_specify_dest(d, d0),
            spec_specify_src(a, d1),
            spec_specify_src(b, d2),
        ),
        OperationKind::Xor(d, a, b) => Operation::Xor(
            spec_specify_dest(d, d0),
            spec_specify_src(a, d1),
            spec_specify_src(b, d2),
        ),
        OperationKind::Shr(d, s) => Operation::Shr(
            spec_specify_dest(d, d0),
            spec_specify_src(s, d1),
        ),
        OperationKind::Shl(d, s) => Operation::Shl(
            spec_specify_dest(d, d0),
            spec_specify_src(s, d1),
        ),
        OperationKind::Rand(d, s, m) => Operation::Rand(
            spec_specify_dest(d, d0),
            spec_specify_src(s, d1),
            spec_specify_src(m, d2),
        ),
        OperationKind::Cls => Operation::Cls,
        OperationKind::Sprite(x, y, n) => Operation::Sprite(
            spec_specify_src(x, d0),
            spec_specify_src(y, d1),
            spec_specify_src(n, d2),
        ),
        OperationKind::Font(g, f) => Operation::Font(
            spec_specify_src(g, d0),
            spec_specify_src(f, d1),
        ),
        OperationKind::Bcd(s) => Operation::Bcd(spec_specify_src(s, d0)),
        OperationKind::WaitKey(d, k) => Operation::WaitKey(
            spec_specify_dest(d, d0),
            spec_specify_src(k, d1),
        ),
    }
}

/// The data carried by the operand in the given argument slot of an
/// operation; zero where the slot is absent or its operand is fixed.
pub open spec fn spec_op_data(op: Operation, slot: int) -> usize {
    if slot == 0 {
        match op {
            Operation::NoOp => 0,
            Operation::Load(d, _) => spec_dest_data(d),
            Operation::Stash(a, _, _) => spec_src_data(a),
            Operation::Fetch(a, _, _) => spec_src_data(a),
            Operation::Jump(a) => spec_src_data(a),
            Operation::JumpV0(a) => spec_src_data(a),
            Operation::Call(a) => spec_src_data(a),
            Operation::Ret => 0,
            Operation::SkipEq(a, _) => spec_src_data(a),
            Operation::SkipNotEq(a, _) => spec_src_data(a),
            Operation::SkipKey(k) => spec_src_data(k),
            Operation::SkipNotKey(k) => spec_src_data(k),
            Operation::Add(d, _, _) => spec_dest_data(d),
            Operation::Sub(d, _, _) => spec_dest_data(d),
            Operation::Or(d, _, _) => spec_dest_data(d),
            Operation::And(d, _, _) => spec_dest_data(d),
            Operation::Xor(d, _, _) => spec_dest_data(d),
            Operation::Shr(d, _) => spec_dest_data(d),
            Operation::Shl(d, _) => spec_dest_data(d),
            Operation::Rand(d, _, _) => spec_dest_data(d),
            Operation::Cls => 0,
            Operation::Sprite(x, _, _) => spec_src_data(x),
            Operation::Font(g, _) => spec_src_data(g),
            Operation::Bcd(s) => spec_src_data(s),
            Operation::WaitKey(d, _) => spec_dest_data(d),
        }
    } else if slot == 1 {
        match op {
            Operation::Load(_, s) => spec_src_data(s),
            Operation::Stash(_, b, _) => spec_src_data(b),
            Operation::Fetch(_, b, _) => spec_src_data(b),
            Operation::SkipEq(_, b) => spec_src_data(b),
            Operation::SkipNotEq(_, b) => spec_src_data(b),
            Operation::Add(_, a, _) => spec_src_data(a),
            Operation::Sub(_, a, _) => spec_src_data(a),
            Operation::Or(_, a, _) => spec_src_data(a),
            Operation::And(_, a, _) => spec_src_data(a),
            Operation::Xor(_, a, _) => spec_src_data(a),
            Operation::Shr(_, s) => spec_src_data(s),
            Operation::Shl(_, s) => spec_src_data(s),
            Operation::Rand(_, s, _) => spec_src_data(s),
            Operation::Sprite(_, y, _) => spec_src_data(y),
            Operation::Font(_, f) => spec_src_data(f),
            Operation::WaitKey(_, k) => spec_src_data(k),
            _ => 0,
        }
    } else if slot == 2 {
        match op {
            Operation::Stash(_, _, f) => spec_src_data(f),
            Operation::Fetch(_, _, f) => spec_src_data(f),
            Operation::Add(_, _, b) => spec_src_data(b),
            Operation::Sub(_, _, b) => spec_src_data(b),
            Operation::Or(_, _, b) => spec_src_data(b),
            Operation::And(_, _, b) => spec_src_data(b),
            Operation::Xor(_, _, b) => spec_src_data(b),
            Operation::Rand(_, _, m) => spec_src_data(m),
            Operation::Sprite(_, _, n) => spec_src_data(n),
            _ => 0,
        }
    } else {
        0
    }
}

/// Whether the operand in the given argument slot of a kind carries the
/// slot's data verbatim once specified. Slots without an operand, and slots
/// held by fixed operands, do not.
pub open spec fn spec_kind_consumes(kind: OperationKind, slot: int) -> bool {
    if slot == 0 {
        match kind {
            OperationKind::NoOp => false,
            OperationKind::Load(d, _) => d.consumes_data(),
            OperationKind::Stash(a, _, _) => a.consumes_data(),
            OperationKind::Fetch(a, _, _) => a.consumes_data(),
            OperationKind::Jump(a) => a.consumes_data(),
            OperationKind::JumpV0(a) => a.consumes_data(),
            OperationKind::Call(a) => a.consumes_data(),
            OperationKind::Ret => false,
            OperationKind::SkipEq(a, _) => a.consumes_data(),
            OperationKind::SkipNotEq(a, _) => a.consumes_data(),
            OperationKind::SkipKey(k) => k.consumes_data(),
            OperationKind::SkipNotKey(k) => k.consumes_data(),
            OperationKind::Add(d, _, _) => d.consumes_data(),
            OperationKind::Sub(d, _, _) => d.consumes_data(),
            OperationKind::Or(d, _, _) => d.consumes_data(),
            OperationKind::And(d, _, _) => d.consumes_data(),
            OperationKind::Xor(d, _, _) => d.consumes_data(),
            OperationKind::Shr(d, _) => d.consumes_data(),
            OperationKind::Shl(d, _) => d.consumes_data(),
            OperationKind::Rand(d, _, _) => d.consumes_data(),
            OperationKind::Cls => false,
            OperationKind::Sprite(x, _, _) => x.consumes_data(),
            OperationKind::Font(g, _) => g.consumes_data(),
            OperationKind::Bcd(s) => s.consumes_data(),
            OperationKind::WaitKey(d, _) => d.consumes_data(),
        }
    } else if slot == 1 {
        match kind {
            OperationKind::Load(_, s) => s.consumes_data(),
            OperationKind::Stash(_, b, _) => b.consumes_data(),
            OperationKind::Fetch(_, b, _) => b.consumes_data(),
            OperationKind::SkipEq(_, b) => b.consumes_data(),
            OperationKind::SkipNotEq(_, b) => b.consumes_data(),
            OperationKind::Add(_, a, _) => a.consumes_data(),
            OperationKind::Sub(_, a, _) => a.consumes_data(),
            OperationKind::Or(_, a, _) => a.consumes_data(),
            OperationKind::And(_, a, _) => a.consumes_data(),
            OperationKind::Xor(_, a, _) => a.consumes_data(),
            OperationKind::Shr(_, s) => s.consumes_data(),
            OperationKind::Shl(_, s) => s.consumes_data(),
            OperationKind::Rand(_, s, _) => s.consumes_data(),
            OperationKind::Sprite(_, y, _) => y.consumes_data(),
            OperationKind::Font(_, f) => f.consumes_data(),
            OperationKind::WaitKey(_, k) => k.consumes_data(),
            _ => false,
        }
    } else if slot == 2 {
        match kind {
            OperationKind::Stash(_, _, f) => f.consumes_data(),
            OperationKind::Fetch(_, _, f) => f.consumes_data(),
            OperationKind::Add(_, _, b) => b.consumes_data(),
            OperationKind::Sub(_, _, b) => b.consumes_data(),
            OperationKind::Or(_, _, b) => b.consumes_data(),
            OperationKind::Xor(_, _, b) => b.consumes_data(),
            OperationKind::And(_, _, b) => b.consumes_data(),
            OperationKind::Rand(_, _, m) => m.consumes_data(),
            OperationKind::Sprite(_, _, n) => n.consumes_data(),
            _ => false,
        }
    } else {
        false
    }
}

/// A slot whose operand consumes its data hands the data back unchanged
/// through projection: extracting the slot's data from the projected
/// operation returns what was put in.
#[verifier::rlimit(100)]
pub proof fn lemma_project_data_roundtrip(kind: OperationKind, d0: usize, d1: usize, d2: usize)
    ensures
        spec_kind_consumes(kind, 0) ==> spec_op_data(spec_project(kind, d0, d1, d2), 0) == d0,
        spec_kind_consumes(kind, 1) ==> spec_op_data(spec_project(kind, d0, d1, d2), 1) == d1,
        spec_kind_consumes(kind, 2) ==> spec_op_data(spec_project(kind, d0, d1, d2), 2) == d2,
        spec_op_kind(spec_project(kind, d0, d1, d2)) == kind,
{
    match kind {
        OperationKind::NoOp => {},
        OperationKind::Load(d, s) => {},
        OperationKind::Stash(a, b, f) => {},
        OperationKind::Fetch(a, b, f) => {},
        OperationKind::Jump(a) => {},
        OperationKind::JumpV0(a) => {},
        OperationKind::Call(a) => {},
        OperationKind::Ret => {},
        OperationKind::SkipEq(a, b) => {},
        OperationKind::SkipNotEq(a, b) => {},
        OperationKind::SkipKey(k) => {},
        OperationKind::SkipNotKey(k) => {},
        OperationKind::Add(d, a, b) => {},
        OperationKind::Sub(d, a, b) => {},
        OperationKind::Or(d, a, b) => {},
        OperationKind::And(d, a, b) => {},
        OperationKind::Xor(d, a, b) => {},
        OperationKind::Shr(d, s) => {},
        OperationKind::Shl(d, s) => {},
        OperationKind::Rand(d, s, m) => {},
        OperationKind::Cls => {},
        OperationKind::Sprite(x, y, n) => {},
        OperationKind::Font(g, f) => {},
        OperationKind::Bcd(s) => {},
        OperationKind::WaitKey(d, k) => {},
    }
}

impl Operation {
    /// Returns the kind of this operation.
    pub fn kind(&self) -> (r: OperationKind)
        ensures
            r == spec_op_kind(*self),
    {
        match *self {
            Operation::NoOp => OperationKind::NoOp,
            Operation::Load(d, s) => OperationKind::Load(d.kind(), s.kind()),
            Operation::Stash(a, b, f) => OperationKind::Stash(a.kind(), b.kind(), f.kind()),
            Operation::Fetch(a, b, f) => OperationKind::Fetch(a.kind(), b.kind(), f.kind()),
            Operation::Jump(a) => OperationKind::Jump(a.kind()),
            Operation::JumpV0(a) => OperationKind::JumpV0(a.kind()),
            Operation::Call(a) => OperationKind::Call(a.kind()),
            Operation::Ret => OperationKind::Ret,
            Operation::SkipEq(a, b) => OperationKind::SkipEq(a.kind(), b.kind()),
            Operation::SkipNotEq(a, b) => OperationKind::SkipNotEq(a.kind(), b.kind()),
            Operation::SkipKey(k) => OperationKind::SkipKey(k.kind()),
            Operation::SkipNotKey(k) => OperationKind::SkipNotKey(k.kind()),
            Operation::Add(d, a, b) => OperationKind::Add(d.kind(), a.kind(), b.kind()),
            Operation::Sub(d, a, b) => OperationKind::Sub(d.kind(), a.kind(), b.kind()),
            Operation::Or(d, a, b) => OperationKind::Or(d.kind(), a.kind(), b.kind()),
            Operation::And(d, a, b) => OperationKind::And(d.kind(), a.kind(), b.kind()),
            Operation::Xor(d, a, b) => OperationKind::Xor(d.kind(), a.kind(), b.kind()),
            Operation::Shr(d, s) => OperationKind::Shr(d.kind(), s.kind()),
            Operation::Shl(d, s) => OperationKind::Shl(d.kind(), s.kind()),
            Operation::Rand(d, s, m) => OperationKind::Rand(d.kind(), s.kind(), m.kind()),
            Operation::Cls => OperationKind::Cls,
            Operation::Sprite(x, y, n) => OperationKind::Sprite(x.kind(), y.kind(), n.kind()),
            Operation::Font(g, f) => OperationKind::Font(g.kind(), f.kind()),
            Operation::Bcd(s) => OperationKind::Bcd(s.kind()),
            Operation::WaitKey(d, k) => OperationKind::WaitKey(d.kind(), k.kind()),
        }
    }

    /// Returns the data carried by the operand in the given argument slot.
    pub fn slot_data(&self, slot: usize) -> (r: usize)
        ensures
            r == spec_op_data(*self, slot as int),
    {
        if slot == 0 {
            match *self {
                Operation::NoOp => 0,
                Operation::Load(d, _) => d.data(),
                Operation::Stash(a, _, _) => a.data(),
                Operation::Fetch(a, _, _) => a.data(),
                Operation::Jump(a) => a.data(),
                Operation::JumpV0(a) => a.data(),
                Operation::Call(a) => a.data(),
                Operation::Ret => 0,
                Operation::SkipEq(a, _) => a.data(),
                Operation::SkipNotEq(a, _) => a.data(),
                Operation::SkipKey(k) => k.data(),
                Operation::SkipNotKey(k) => k.data(),
                Operation::Add(d, _, _) => d.data(),
                Operation::Sub(d, _, _) => d.data(),
                Operation::Or(d, _, _) => d.data(),
                Operation::And(d, _, _) => d.data(),
                Operation::Xor(d, _, _) => d.data(),
                Operation::Shr(d, _) => d.data(),
                Operation::Shl(d, _) => d.data(),
                Operation::Rand(d, _, _) => d.data(),
                Operation::Cls => 0,
                Operation::Sprite(x, _, _) => x.data(),
                Operation::Font(g, _) => g.data(),
                Operation::Bcd(s) => s.data(),
                Operation::WaitKey(d, _) => d.data(),
            }
        } else if slot == 1 {
            match *self {
                Operation::Load(_, s) => s.data(),
                Operation::Stash(_, b, _) => b.data(),
                Operation::Fetch(_, b, _) => b.data(),
                Operation::SkipEq(_, b) => b.data(),
                Operation::SkipNotEq(_, b) => b.data(),
                Operation::Add(_, a, _) => a.data(),
                Operation::Sub(_, a, _) => a.data(),
                Operation::Or(_, a, _) => a.data(),
                Operation::And(_, a, _) => a.data(),
                Operation::Xor(_, a, _) => a.data(),
                Operation::Shr(_, s) => s.data(),
                Operation::Shl(_, s) => s.data(),
                Operation::Rand(_, s, _) => s.data(),
                Operation::Sprite(_, y, _) => y.data(),
                Operation::Font(_, f) => f.data(),
                Operation::WaitKey(_, k) => k.data(),
                _ => 0,
            }
        } else if slot == 2 {
            match *self {
                Operation::Stash(_, _, f) => f.data(),
                Operation::Fetch(_, _, f) => f.data(),
                Operation::Add(_, _, b) => b.data(),
                Operation::Sub(_, _, b) => b.data(),
                Operation::Or(_, _, b) => b.data(),
                Operation::And(_, _, b) => b.data(),
                Operation::Xor(_, _, b) => b.data(),
                Operation::Rand(_, _, m) => m.data(),
                Operation::Sprite(_, _, n) => n.data(),
                _ => 0,
            }
        } else {
            0
        }
    }
}

} // verus!
