//! The stack-machine semantic model that the generated assembly implements:
//! a stack pointer always one past the top occupied cell, four segment base
//! registers, general memory, and the static cells. The step functions below
//! state, in terms of this model, exactly what the code emitted for push,
//! pop, call and return does to the machine, and the lemmas prove the stack
//! discipline those snippets are designed to keep.
use vstd::prelude::*;

verus! {

/// The machine as the generated code sees it: the stack pointer, the four
/// segment base registers, general memory, and the static cells (which the
/// assembler places behind namespaced symbols).
pub struct MachineState {
    pub sp: int,
    pub lcl: int,
    pub arg: int,
    pub this_ptr: int,
    pub that_ptr: int,
    pub ram: Map<int, int>,
    pub statics: Map<int, int>,
}

/// The segments a pop command can store into: every segment with storage
/// (`constant` has none and supplies its index directly).
pub open spec fn is_pop_segment(seg: Seq<char>) -> bool {
    seg == "local"@ || seg == "argument"@ || seg == "this"@ || seg == "that"@ || seg == "temp"@
        || seg == "pointer"@ || seg == "static"@
}

/// The value a segment cell currently stores: base-relative segments read
/// memory at base plus index, `temp` at the fixed offset five plus index,
/// `pointer` reads the `this` or `that` base register itself, and `static`
/// reads the namespaced static cell.
pub open spec fn seg_value(s: MachineState, seg: Seq<char>, idx: int) -> int {
    if seg == "local"@ {
        s.ram[s.lcl + idx]
    } else if seg == "argument"@ {
        s.ram[s.arg + idx]
    } else if seg == "this"@ {
        s.ram[s.this_ptr + idx]
    } else if seg == "that"@ {
        s.ram[s.that_ptr + idx]
    } else if seg == "temp"@ {
        s.ram[5 + idx]
    } else if seg == "pointer"@ {
        if idx == 0 {
            s.this_ptr
        } else {
            s.that_ptr
        }
    } else {
        s.statics[idx]
    }
}

/// A push of a value: write it to the cell at the stack pointer, then
/// advance the pointer.
pub open spec fn push_value(s: MachineState, v: int) -> MachineState {
    MachineState { sp: s.sp + 1, ram: s.ram.insert(s.sp, v), ..s }
}

/// The effect of `push segment index`: `constant` pushes the index itself;
/// every other segment pushes the value its cell stores.
pub open spec fn step_push(s: MachineState, seg: Seq<char>, idx: int) -> MachineState {
    if seg == "constant"@ {
        push_value(s, idx)
    } else {
        push_value(s, seg_value(s, seg, idx))
    }
}

/// A store into a segment cell, the counterpart of `seg_value`.
pub open spec fn write_seg(s: MachineState, seg: Seq<char>, idx: int, v: int) -> MachineState {
    if seg == "local"@ {
        MachineState { ram: s.ram.insert(s.lcl + idx, v), ..s }
    } else if seg == "argument"@ {
        MachineState { ram: s.ram.insert(s.arg + idx, v), ..s }
    } else if seg == "this"@ {
        MachineState { ram: s.ram.insert(s.this_ptr + idx, v), ..s }
    } else if seg == "that"@ {
        MachineState { ram: s.ram.insert(s.that_ptr + idx, v), ..s }
    } else if seg == "temp"@ {
        MachineState { ram: s.ram.insert(5 + idx, v), ..s }
    } else if seg == "pointer"@ {
        if idx == 0 {
            MachineState { this_ptr: v, ..s }
        } else {
            MachineState { that_ptr: v, ..s }
        }
    } else {
        MachineState { statics: s.statics.insert(idx, v), ..s }
    }
}

/// The effect of `pop segment index`: retreat the stack pointer, then store
/// the value the retired cell holds into the segment cell.
pub open spec fn step_pop(s: MachineState, seg: Seq<char>, idx: int) -> MachineState {
    let v = s.ram[s.sp - 1];
    let s1 = MachineState { sp: s.sp - 1, ..s };
    write_seg(s1, seg, idx, v)
}

/// The effect of `call name nArgs` on the machine (the jump itself aside):
/// push the return address, then the caller's local, argument, this and that
/// bases, in that order; point the argument base at the first of the `nArgs`
/// arguments already on the stack (five below the new top, minus the
/// argument count); point the local base at the new top.
pub open spec fn step_call(s: MachineState, nargs: int, ret: int) -> MachineState {
    let s1 = push_value(s, ret);
    let s2 = push_value(s1, s.lcl);
    let s3 = push_value(s2, s.arg);
    let s4 = push_value(s3, s.this_ptr);
    let s5 = push_value(s4, s.that_ptr);
    MachineState { arg: s.sp - nargs, lcl: s5.sp, ..s5 }
}

/// The effect of `return`: capture the frame top from the local base, fetch
/// the return address five below it before anything is overwritten, plant
/// the return value (the top of the stack) in the caller's argument slot,
/// rewind the stack pointer to one past that slot, and restore the that,
/// this, argument and local bases, in exactly that order, from the frame.
pub open spec fn step_return(s: MachineState) -> MachineState {
    let frame = s.lcl;
    let ram1 = s.ram.insert(s.arg, s.ram[s.sp - 1]);
    MachineState {
        sp: s.arg + 1,
        lcl: ram1[frame - 4],
        arg: ram1[frame - 3],
        this_ptr: ram1[frame - 2],
        that_ptr: ram1[frame - 1],
        ram: ram1,
        statics: s.statics,
    }
}

proof fn lemma_segment_names()
    ensures
        "local"@ == seq!['l', 'o', 'c', 'a', 'l'],
        "argument"@ == seq!['a', 'r', 'g', 'u', 'm', 'e', 'n', 't'],
        "this"@ == seq!['t', 'h', 'i', 's'],
        "that"@ == seq!['t', 'h', 'a', 't'],
        "temp"@ == seq!['t', 'e', 'm', 'p'],
        "pointer"@ == seq!['p', 'o', 'i', 'n', 't', 'e', 'r'],
        "static"@ == seq!['s', 't', 'a', 't', 'i', 'c'],
        "constant"@ == seq!['c', 'o', 'n', 's', 't', 'a', 'n', 't'],
{
    reveal_strlit("local");
    reveal_strlit("argument");
    reveal_strlit("this");
    reveal_strlit("that");
    reveal_strlit("temp");
    reveal_strlit("pointer");
    reveal_strlit("static");
    reveal_strlit("constant");
    assert("local"@ =~= seq!['l', 'o', 'c', 'a', 'l']);
    assert("argument"@ =~= seq!['a', 'r', 'g', 'u', 'm', 'e', 'n', 't']);
    assert("this"@ =~= seq!['t', 'h', 'i', 's']);
    assert("that"@ =~= seq!['t', 'h', 'a', 't']);
    assert("temp"@ =~= seq!['t', 'e', 'm', 'p']);
    assert("pointer"@ =~= seq!['p', 'o', 'i', 'n', 't', 'e', 'r']);
    assert("static"@ =~= seq!['s', 't', 'a', 't', 'i', 'c']);
    assert("constant"@ =~= seq!['c', 'o', 'n', 's', 't', 'a', 'n', 't']);
}

/// Push then pop of the same segment and index is a net no-op on that
/// segment's stored value and restores the stack pointer to its pre-push
/// value (for every segment with storage; `constant` cannot be popped into).
pub proof fn lemma_push_pop_net_no_op(s: MachineState, seg: Seq<char>, idx: int)
    requires
        is_pop_segment(seg),
    ensures
        ({
            let after = step_pop(step_push(s, seg, idx), seg, idx);
            after.sp == s.sp && seg_value(after, seg, idx) == seg_value(s, seg, idx)
        }),
{
    lemma_segment_names();
}

/// For a call followed by a callee that leaves exactly one result on the
/// stack, return rewinds the stack to one past where the arguments began —
/// the depth from before the arguments were pushed, plus one for the result
/// (so with no arguments, exactly the pre-call depth plus one) — leaves the
/// result on top, and restores all four saved segment base registers to
/// their pre-call values.
pub proof fn lemma_call_return_frame(s: MachineState, nargs: int, ret: int, v: int)
    requires
        nargs >= 0,
    ensures
        ({
            let finished = step_return(push_value(step_call(s, nargs, ret), v));
            finished.sp == s.sp - nargs + 1 && finished.lcl == s.lcl && finished.arg == s.arg
                && finished.this_ptr == s.this_ptr && finished.that_ptr == s.that_ptr
                && finished.ram[finished.sp - 1] == v
        }),
{
}

} // verus!
