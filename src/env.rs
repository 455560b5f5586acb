use vstd::prelude::*;
use crate::interpret::{Interpreter, InterpreterError, Opcode, decoded};
use crate::vm::{VM, VMValue};

verus! {

/// Replaces the two `Int`s on top of `s` by `op` of them (the lower one
/// first); fails without change where they are missing or not `Int`s.
pub open spec fn binary_int(s: Seq<VMValue>, op: spec_fn(i32, i32) -> i32) -> Result<
    Seq<VMValue>,
    InterpreterError,
> {
    if s.len() < 2 {
        Err(InterpreterError::StackUnderflow)
    } else {
        match (s[s.len() - 2], s[s.len() - 1]) {
            (VMValue::Int(x), VMValue::Int(y)) => Ok(
                s.subrange(0, s.len() - 2).push(VMValue::Int(op(x, y))),
            ),
            _ => Err(InterpreterError::OperandTypeMismatch),
        }
    }
}

/// Replaces the `Int` on top of `s` by `f` of it; fails without change where
/// it is missing or not an `Int`.
pub open spec fn unary_int(s: Seq<VMValue>, f: spec_fn(i32) -> VMValue) -> Result<
    Seq<VMValue>,
    InterpreterError,
> {
    if s.len() < 1 {
        Err(InterpreterError::StackUnderflow)
    } else {
        match s.last() {
            VMValue::Int(x) => Ok(s.drop_last().push(f(x))),
            _ => Err(InterpreterError::OperandTypeMismatch),
        }
    }
}

/// The stack after running instruction byte `b` on `s`. Conversions to
/// floating point are not run: they fail as unimplemented.
pub open spec fn step(s: Seq<VMValue>, b: u8) -> Result<Seq<VMValue>, InterpreterError> {
    match decoded(b) {
        Err(e) => Err(e),
        Ok(Opcode::AConstNull) => Ok(s.push(VMValue::Null)),
        Ok(Opcode::IConst(v)) => Ok(s.push(VMValue::Int(v as i32))),
        Ok(Opcode::IAdd) => binary_int(s, |x: i32, y: i32| x.wrapping_add(y)),
        Ok(Opcode::IMul) => binary_int(s, |x: i32, y: i32| x.wrapping_mul(y)),
        Ok(Opcode::IAnd) => binary_int(s, |x: i32, y: i32| x & y),
        Ok(Opcode::I2B) => unary_int(s, |x: i32| VMValue::Int(x as i8 as i32)),
        Ok(Opcode::I2C) => unary_int(s, |x: i32| VMValue::Int(x as u16 as i32)),
        Ok(Opcode::I2S) => unary_int(s, |x: i32| VMValue::Int(x as i16 as i32)),
        Ok(Opcode::I2L) => unary_int(s, |x: i32| VMValue::Long(x as i64)),
        Ok(Opcode::I2F) => Err(InterpreterError::UnimplementedOpcode(b)),
        Ok(Opcode::I2D) => Err(InterpreterError::UnimplementedOpcode(b)),
    }
}

/// Runs `code` in order on `s`: the final stack and how the run ended. A
/// faulting instruction stops the run and leaves the stack as it was before it.
pub open spec fn run(s: Seq<VMValue>, code: Seq<u8>) -> (Seq<VMValue>, Result<(), InterpreterError>)
    decreases code.len(),
{
    if code.len() == 0 {
        (s, Ok(()))
    } else {
        match step(s, code[0]) {
            Err(e) => (s, Err(e)),
            Ok(t) => run(t, code.drop_first()),
        }
    }
}

/// An instruction adds at most one value to the stack.
pub proof fn lemma_step_grows_by_one(s: Seq<VMValue>, b: u8)
    ensures
        step(s, b) matches Ok(t) ==> t.len() <= s.len() + 1,
{
}

/// A byte that decodes to no instruction stops the run at once, with the
/// stack untouched and the byte named in the fault.
pub proof fn lemma_unknown_opcode_stops(s: Seq<VMValue>, b: u8, rest: Seq<u8>)
    requires
        decoded(b) is Err,
    ensures
        run(s, seq![b] + rest) == (s, Err::<(), _>(InterpreterError::UnimplementedOpcode(b))),
{
    assert((seq![b] + rest)[0] == b);
}

/// A faulting instruction leaves the stack as the instructions before it
/// left it: running stops there, whatever follows.
pub proof fn lemma_fault_keeps_stack(s: Seq<VMValue>, code: Seq<u8>, rest: Seq<u8>)
    requires
        run(s, code).1 is Err,
    ensures
        run(s, code + rest) == run(s, code),
    decreases code.len(),
{
    if code.len() > 0 {
        assert((code + rest)[0] == code[0]);
        if let Ok(t) = step(s, code[0]) {
            assert((code + rest).drop_first() =~= code.drop_first() + rest);
            lemma_fault_keeps_stack(t, code.drop_first(), rest);
        }
    }
}

/// Running `p` then `q` is running `q` on the stack that `p` leaves, when
/// `p` runs without a fault.
pub proof fn lemma_run_concat(s: Seq<VMValue>, p: Seq<u8>, q: Seq<u8>)
    requires
        run(s, p).1 is Ok,
    ensures
        run(s, p + q) == run(run(s, p).0, q),
    decreases p.len(),
{
    if p.len() == 0 {
        assert(p + q =~= q);
    } else {
        assert((p + q)[0] == p[0]);
        let t = step(s, p[0])->Ok_0;
        assert((p + q).drop_first() =~= p.drop_first() + q);
        lemma_run_concat(t, p.drop_first(), q);
    }
}

/// A byte that decodes to no instruction, reached after instructions that
/// run without a fault, ends the run with that byte named in the fault; the
/// stack is the one those instructions left, and nothing after it runs.
pub proof fn lemma_unknown_opcode_after(s: Seq<VMValue>, p: Seq<u8>, b: u8, q: Seq<u8>)
    requires
        run(s, p).1 is Ok,
        decoded(b) is Err,
    ensures
        run(s, p + seq![b] + q) == (run(s, p).0, Err::<(), _>(
            InterpreterError::UnimplementedOpcode(b),
        )),
{
    assert(p + seq![b] + q =~= p + (seq![b] + q));
    lemma_run_concat(s, p, seq![b] + q);
    lemma_unknown_opcode_stops(run(s, p).0, b, q);
}

/// A stack and the interpreter that runs instructions on it.
pub struct VMEnv {
    vm: VM,
    interpreter: Interpreter,
}

impl View for VMEnv {
    type V = Seq<VMValue>;

    /// The values on the stack, bottom first.
    closed spec fn view(&self) -> Seq<VMValue> {
        self.vm@
    }
}

impl VMEnv {
    pub closed spec fn wf(&self) -> bool {
        self.vm.wf()
    }

    pub fn of(vm: VM, interpreter: Interpreter) -> (r: Self)
        requires
            vm.wf(),
        ensures
            r.wf(),
            r@ == vm@,
    {
        VMEnv { vm, interpreter }
    }

    /// Runs `code` byte by byte until it ends or an instruction faults.
    pub fn execute(&mut self, code: &Vec<u8>) -> (r: Result<(), InterpreterError>)
        requires
            old(self).wf(),
            old(self)@.len() + code@.len() < usize::MAX,
        ensures
            final(self).wf(),
            (final(self)@, r) == run(old(self)@, code@),
    {
        let mut i: usize = 0;
        proof {
            assert(code@.subrange(0, code@.len() as int) =~= code@);
        }
        while i < code.len()
            invariant
                self.wf(),
                i <= code@.len(),
                self@.len() <= old(self)@.len() + i,
                old(self)@.len() + code@.len() < usize::MAX,
                run(old(self)@, code@) == run(self@, code@.subrange(i as int, code@.len() as int)),
            decreases code@.len() - i,
        {
            let ghost rest = code@.subrange(i as int, code@.len() as int);
            proof {
                assert(rest[0] == code@[i as int]);
                assert(rest.drop_first() =~= code@.subrange(i + 1, code@.len() as int));
                lemma_step_grows_by_one(self@, code@[i as int]);
            }
            self.step(code[i])?;
            i = i + 1;
        }
        Ok(())
    }

    /// Runs one instruction byte.
    fn step(&mut self, b: u8) -> (r: Result<(), InterpreterError>)
        requires
            old(self).wf(),
            old(self)@.len() < usize::MAX,
        ensures
            final(self).wf(),
            match step(old(self)@, b) {
                Ok(t) => r is Ok && final(self)@ == t,
                Err(e) => r == Err::<(), _>(e) && final(self)@ == old(self)@,
            },
    {
        match self.interpreter.decode(b)? {
            Opcode::AConstNull => {
                self.aconst_null();
                Ok(())
            },
            Opcode::IConst(v) => {
                self.iconst(v as i32);
                Ok(())
            },
            Opcode::IAdd => self.iadd(),
            Opcode::IMul => self.binary(b),
            Opcode::IAnd => self.binary(b),
            Opcode::I2B => self.unary(b),
            Opcode::I2C => self.unary(b),
            Opcode::I2S => self.unary(b),
            Opcode::I2L => self.unary(b),
            Opcode::I2F => Err(InterpreterError::UnimplementedOpcode(b)),
            Opcode::I2D => Err(InterpreterError::UnimplementedOpcode(b)),
        }
    }

    /// Pushes an `Int`.
    pub fn iconst(&mut self, val: i32)
        requires
            old(self).wf(),
            old(self)@.len() < usize::MAX,
        ensures
            final(self).wf(),
            final(self)@ == old(self)@.push(VMValue::Int(val)),
    {
        self.vm.push(VMValue::Int(val));
    }

    /// Pushes `Null`.
    pub fn aconst_null(&mut self)
        requires
            old(self).wf(),
            old(self)@.len() < usize::MAX,
        ensures
            final(self).wf(),
            final(self)@ == old(self)@.push(VMValue::Null),
    {
        self.vm.push(VMValue::Null);
    }

    /// Replaces the two `Int`s on top by their sum, wrapping on overflow.
    pub fn iadd(&mut self) -> (r: Result<(), InterpreterError>)
        requires
            old(self).wf(),
        ensures
            final(self).wf(),
            match binary_int(old(self)@, |x: i32, y: i32| x.wrapping_add(y)) {
                Ok(t) => r is Ok && final(self)@ == t,
                Err(e) => r == Err::<(), _>(e) && final(self)@ == old(self)@,
            },
    {
        self.binary(0x60)
    }

    /// Runs the two-operand integer instruction `b` (add, multiply or and).
    fn binary(&mut self, b: u8) -> (r: Result<(), InterpreterError>)
        requires
            old(self).wf(),
            decoded(b) == Ok::<_, InterpreterError>(Opcode::IAdd) || decoded(b) == Ok::<
                _,
                InterpreterError,
            >(Opcode::IMul) || decoded(b) == Ok::<_, InterpreterError>(Opcode::IAnd),
        ensures
            final(self).wf(),
            match step(old(self)@, b) {
                Ok(t) => r is Ok && final(self)@ == t,
                Err(e) => r == Err::<(), _>(e) && final(self)@ == old(self)@,
            },
    {
        let (x, y) = match (self.vm.peek(1), self.vm.peek(0)) {
            (Some(VMValue::Int(x)), Some(VMValue::Int(y))) => (x, y),
            (Some(_), Some(_)) => return Err(InterpreterError::OperandTypeMismatch),
            _ => return Err(InterpreterError::StackUnderflow),
        };
        let ghost s = self@;
        proof {
            self.vm.lemma_len_fits();
        }
        let _ = self.vm.pop();
        let _ = self.vm.pop();
        assert(self@.len() == s.len() - 2);
        let v = if b == 0x60 {
            x.wrapping_add(y)
        } else if b == 0x68 {
            x.wrapping_mul(y)
        } else {
            x & y
        };
        self.vm.push(VMValue::Int(v));
        proof {
            assert(s.drop_last().drop_last() =~= s.subrange(0, s.len() - 2));
        }
        Ok(())
    }

    /// Runs the one-operand conversion `b` (to byte, char, short or long).
    fn unary(&mut self, b: u8) -> (r: Result<(), InterpreterError>)
        requires
            old(self).wf(),
            decoded(b) == Ok::<_, InterpreterError>(Opcode::I2B) || decoded(b) == Ok::<
                _,
                InterpreterError,
            >(Opcode::I2C) || decoded(b) == Ok::<_, InterpreterError>(Opcode::I2S) || decoded(b)
                == Ok::<_, InterpreterError>(Opcode::I2L),
        ensures
            final(self).wf(),
            match step(old(self)@, b) {
                Ok(t) => r is Ok && final(self)@ == t,
                Err(e) => r == Err::<(), _>(e) && final(self)@ == old(self)@,
            },
    {
        let x = match self.vm.peek(0) {
            Some(VMValue::Int(x)) => x,
            Some(_) => return Err(InterpreterError::OperandTypeMismatch),
            None => return Err(InterpreterError::StackUnderflow),
        };
        let ghost s = self@;
        proof {
            self.vm.lemma_len_fits();
        }
        let _ = self.vm.pop();
        assert(self@.len() == s.len() - 1);
        let v = if b == 0x91 {
            VMValue::Int(#[verifier::truncate] (x as i8) as i32)
        } else if b == 0x92 {
            VMValue::Int(#[verifier::truncate] (x as u16) as i32)
        } else if b == 0x93 {
            VMValue::Int(#[verifier::truncate] (x as i16) as i32)
        } else {
            VMValue::Long(x as i64)
        };
        self.vm.push(v);
        Ok(())
    }

    /// Takes the top value off the stack; an empty stack underflows.
    pub fn pop(&mut self) -> (r: Result<VMValue, InterpreterError>)
        requires
            old(self).wf(),
        ensures
            final(self).wf(),
            old(self)@.len() == 0 ==> r == Err::<VMValue, _>(InterpreterError::StackUnderflow)
                && final(self)@ == old(self)@,
            old(self)@.len() > 0 ==> r == Ok::<_, InterpreterError>(old(self)@.last())
                && final(self)@ == old(self)@.drop_last(),
    {
        self.vm.pop()
    }
}

} // verus!
