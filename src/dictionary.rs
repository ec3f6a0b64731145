//! The image's dictionary and the bootstrap protocol that evaluates one input
//! token by running the image's interpreter word on it.
use vstd::prelude::*;

use crate::semantics::{entered, run_spec, Machine, Signal, IMAGE_SIZE, STACK_DEPTH};
use crate::vm::NgaVm;

verus! {

/// Cell holding the address of the newest dictionary entry.
pub const DICT_HEAD: usize = 2;

/// Cell holding the heap pointer.
pub const HEAP_ADDR: usize = 3;

/// Cell holding the image version, `major * 100 + minor`.
pub const VERSION_ADDR: usize = 4;

/// Cell holding the address of the text input buffer.
pub const TIB_ADDR: usize = 7;

/// Offset of an entry's execution target from the entry.
pub const XT_OFFSET: usize = 1;

/// Offset of an entry's name from the entry: the header holds the link, the
/// target and two more cells, and the name follows it.
pub const NAME_OFFSET: usize = 4;

/// Why a name could not be resolved.
#[derive(Clone, Copy, Debug, PartialEq, Eq, Structural)]
pub enum LookupError {
    /// The list ended without an entry of that name.
    NotFound,
    /// A link leaves the image, or the walk did not end within the image's size.
    Malformed,
}

/// Why a token could not be handed to the interpreter.
#[derive(Clone, Copy, Debug, PartialEq, Eq, Structural)]
pub enum BootError {
    Lookup(LookupError),
    /// The token does not fit in the image at the text input buffer.
    BufferOutOfRange,
    /// No room on the data stack for the buffer's address.
    StackFull,
}

/// What evaluating one token came to.
#[derive(Clone, Copy, Debug, PartialEq, Eq, Structural)]
pub enum Evaluation {
    /// The token asks to end the session; the machine was not run.
    Bye,
    /// The interpreter ran and stopped with this signal.
    Started(Signal),
    Failed(BootError),
}

/// `name` is stored at `at`, one byte per cell, followed by a zero cell.
pub open spec fn name_at(mem: Seq<i32>, at: int, name: Seq<u8>) -> bool {
    &&& 0 <= at
    &&& at + name.len() < mem.len()
    &&& forall|j: int| 0 <= j < name.len() ==> mem[at + j] == name[j] as i32
    &&& mem[at + name.len()] == 0
}

/// Walk the list from entry `at` for at most `fuel` entries, looking for `name`.
pub open spec fn find(mem: Seq<i32>, name: Seq<u8>, at: int, fuel: nat) -> Result<
    int,
    LookupError,
>
    decreases fuel,
{
    if at == 0 {
        Err(LookupError::NotFound)
    } else if !(0 < at < mem.len()) || fuel == 0 {
        Err(LookupError::Malformed)
    } else if name_at(mem, at + NAME_OFFSET, name) {
        Ok(at)
    } else {
        find(mem, name, mem[at] as int, (fuel - 1) as nat)
    }
}

/// The newest entry named `name`. A list of distinct entries inside the image
/// has fewer entries than the image has cells, so a longer walk means a cycle.
pub open spec fn lookup_spec(mem: Seq<i32>, name: Seq<u8>) -> Result<int, LookupError> {
    find(mem, name, mem[DICT_HEAD as int] as int, IMAGE_SIZE as nat)
}

/// Following links from `at`, the terminating zero comes within `n` entries,
/// each inside the image.
pub open spec fn ends_within(mem: Seq<i32>, at: int, n: nat) -> bool
    decreases n,
{
    if at == 0 {
        true
    } else if n == 0 {
        false
    } else {
        0 < at < mem.len() && ends_within(mem, mem[at] as int, (n - 1) as nat)
    }
}

proof fn lemma_find_ends(mem: Seq<i32>, name: Seq<u8>, at: int, n: nat, fuel: nat)
    requires
        ends_within(mem, at, n),
        n <= fuel,
    ensures
        find(mem, name, at, fuel) != Err::<int, LookupError>(LookupError::Malformed),
    decreases n,
{
    if at != 0 && !name_at(mem, at + NAME_OFFSET, name) {
        lemma_find_ends(mem, name, mem[at] as int, (n - 1) as nat, (fuel - 1) as nat);
    }
}

/// A dictionary whose list reaches its terminating zero within as many entries
/// as the image has cells, every link inside the image, is never reported
/// malformed: every lookup in it either finds its name or reports it missing.
pub proof fn law_terminated_list_resolves(mem: Seq<i32>, name: Seq<u8>, n: nat)
    requires
        mem.len() == IMAGE_SIZE,
        n <= IMAGE_SIZE,
        ends_within(mem, mem[DICT_HEAD as int] as int, n),
    ensures
        lookup_spec(mem, name) != Err::<int, LookupError>(LookupError::Malformed),
{
    lemma_find_ends(mem, name, mem[DICT_HEAD as int] as int, n, IMAGE_SIZE as nat);
}

/// The execution target of the entry named `name`.
pub open spec fn xt_spec(mem: Seq<i32>, name: Seq<u8>) -> Result<i32, LookupError> {
    match lookup_spec(mem, name) {
        Ok(e) => Ok(mem[e + XT_OFFSET]),
        Err(x) => Err(x),
    }
}

/// Memory with `token` written at `at`, one byte per cell, and a zero after it.
pub open spec fn injected(mem: Seq<i32>, at: int, token: Seq<u8>) -> Seq<i32> {
    Seq::new(
        mem.len(),
        |i: int|
            if at <= i < at + token.len() {
                token[i - at] as i32
            } else if i == at + token.len() {
                0
            } else {
                mem[i]
            },
    )
}

/// The bytes of `bye`.
pub open spec fn bye_word() -> Seq<u8> {
    seq![98u8, 121u8, 101u8]
}

/// The bytes of `interpret`.
pub open spec fn interpret_word() -> Seq<u8> {
    seq![105u8, 110u8, 116u8, 101u8, 114u8, 112u8, 114u8, 101u8, 116u8]
}

/// The bytes of `err:notfound`.
pub open spec fn notfound_word() -> Seq<u8> {
    seq![101u8, 114u8, 114u8, 58u8, 110u8, 111u8, 116u8, 102u8, 111u8, 117u8, 110u8, 100u8]
}

/// Evaluate one token: `bye` ends the session; any other token is written to
/// the text input buffer, its address pushed, and the interpreter word run,
/// with the "not found" word's target watched.
pub open spec fn evaluate_spec(m: Machine, token: Seq<u8>, fuel: nat) -> (Machine, Evaluation) {
    if token == bye_word() {
        (m, Evaluation::Bye)
    } else {
        match (xt_spec(m.memory, notfound_word()), xt_spec(m.memory, interpret_word())) {
            (Err(e), _) => (m, Evaluation::Failed(BootError::Lookup(e))),
            (_, Err(e)) => (m, Evaluation::Failed(BootError::Lookup(e))),
            (Ok(nf), Ok(xt)) => {
                let tib = m.memory[TIB_ADDR as int];
                if !(0 <= tib && tib + token.len() < IMAGE_SIZE) {
                    (m, Evaluation::Failed(BootError::BufferOutOfRange))
                } else if m.depth() >= STACK_DEPTH {
                    (m, Evaluation::Failed(BootError::StackFull))
                } else {
                    let ready = Machine {
                        memory: injected(m.memory, tib as int, token),
                        data: m.data.push(tib),
                        watch: nf as int,
                        ..m
                    };
                    let (n, s) = run_spec(entered(ready, xt), fuel);
                    (n, Evaluation::Started(s))
                }
            },
        }
    }
}

impl NgaVm {
    /// Whether `name` is stored at `at`, zero-terminated.
    pub fn name_matches(&self, at: usize, name: &[u8]) -> (r: bool)
        requires
            self.wf(),
        ensures
            r == name_at(self@.memory, at as int, name@),
    {
        let len = name.len();
        if len >= IMAGE_SIZE || at >= IMAGE_SIZE - len {
            return false;
        }
        let mut j: usize = 0;
        while j < len
            invariant
                self.wf(),
                len == name@.len(),
                at + len < IMAGE_SIZE,
                j <= len,
                forall|k: int| 0 <= k < j ==> self@.memory[at + k] == name@[k] as i32,
            decreases len - j,
        {
            if self.cell(at + j) != name[j] as i32 {
                return false;
            }
            j = j + 1;
        }
        self.cell(at + len) == 0
    }

    /// Find the newest dictionary entry named `name`.
    pub fn lookup(&self, name: &[u8]) -> (r: Result<usize, LookupError>)
        requires
            self.wf(),
        ensures
            match r {
                Ok(e) => lookup_spec(self@.memory, name@) == Ok::<int, LookupError>(e as int),
                Err(x) => lookup_spec(self@.memory, name@) == Err::<int, LookupError>(x),
            },
            r is Ok ==> name_at(self@.memory, r->Ok_0 + NAME_OFFSET, name@),
    {
        let mut at: i32 = self.cell(DICT_HEAD);
        let mut fuel: usize = IMAGE_SIZE;
        loop
            invariant
                self.wf(),
                find(self@.memory, name@, at as int, fuel as nat) == lookup_spec(
                    self@.memory,
                    name@,
                ),
            decreases fuel,
        {
            if at == 0 {
                return Err(LookupError::NotFound);
            }
            if !(0 < at && (at as usize) < IMAGE_SIZE) || fuel == 0 {
                return Err(LookupError::Malformed);
            }
            let e = at as usize;
            if self.name_matches(e + NAME_OFFSET, name) {
                return Ok(e);
            }
            at = self.cell(e);
            fuel = fuel - 1;
        }
    }

    /// The execution target of the newest entry named `name`.
    pub fn lookup_xt(&self, name: &[u8]) -> (r: Result<i32, LookupError>)
        requires
            self.wf(),
        ensures
            r == xt_spec(self@.memory, name@),
    {
        match self.lookup(name) {
            Ok(e) => Ok(self.cell(e + XT_OFFSET)),
            Err(x) => Err(x),
        }
    }

    /// Write `token` at `at`, one byte per cell, followed by a zero cell; false,
    /// with nothing changed, when it does not fit in the image.
    pub fn inject(&mut self, token: &[u8], at: usize) -> (r: bool)
        requires
            old(self).wf(),
        ensures
            final(self).wf(),
            r == (at + token@.len() < IMAGE_SIZE),
            r ==> final(self)@ == (Machine {
                memory: injected(old(self)@.memory, at as int, token@),
                ..old(self)@
            }),
            !r ==> final(self)@ == old(self)@,
    {
        let len = token.len();
        if len >= IMAGE_SIZE || at >= IMAGE_SIZE - len {
            return false;
        }
        let ghost start = self@;
        let mut j: usize = 0;
        while j < len
            invariant
                self.wf(),
                len == token@.len(),
                at + len < IMAGE_SIZE,
                j <= len,
                self@ == (Machine { memory: self@.memory, ..start }),
                forall|i: int|
                    0 <= i < IMAGE_SIZE ==> self@.memory[i] == (if at <= i < at + j {
                        token@[i - at] as i32
                    } else {
                        start.memory[i]
                    }),
            decreases len - j,
        {
            self.set_cell(at + j, token[j] as i32);
            j = j + 1;
        }
        self.set_cell(at + len, 0);
        proof {
            assert(self@.memory =~= injected(start.memory, at as int, token@));
        }
        true
    }

    /// Evaluate one input token and take up to `fuel` steps of the interpreter.
    pub fn evaluate(&mut self, token: &[u8], fuel: u64) -> (r: Evaluation)
        requires
            old(self).wf(),
        ensures
            final(self).wf(),
            (final(self)@, r) == evaluate_spec(old(self)@, token@, fuel as nat),
    {
        if token.len() == 3 && token[0] == 98u8 && token[1] == 121u8 && token[2] == 101u8 {
            proof {
                assert(token@ =~= bye_word());
            }
            return Evaluation::Bye;
        }
        proof {
            if token@ == bye_word() {
                assert(token@[0] == 98u8 && token@[1] == 121u8 && token@[2] == 101u8);
            }
        }
        let notfound_name: Vec<u8> = vec![101u8, 114, 114, 58, 110, 111, 116, 102, 111, 117, 110, 100];
        let interpret_name: Vec<u8> = vec![105u8, 110, 116, 101, 114, 112, 114, 101, 116];
        proof {
            assert(notfound_name@ =~= notfound_word());
            assert(interpret_name@ =~= interpret_word());
        }
        let nf = match self.lookup_xt(notfound_name.as_slice()) {
            Ok(x) => x,
            Err(e) => return Evaluation::Failed(BootError::Lookup(e)),
        };
        let xt = match self.lookup_xt(interpret_name.as_slice()) {
            Ok(x) => x,
            Err(e) => return Evaluation::Failed(BootError::Lookup(e)),
        };
        let tib = self.cell(TIB_ADDR);
        if tib < 0 {
            return Evaluation::Failed(BootError::BufferOutOfRange);
        }
        if self.data_stack().len() >= STACK_DEPTH {
            if token.len() >= IMAGE_SIZE || tib as usize >= IMAGE_SIZE - token.len() {
                return Evaluation::Failed(BootError::BufferOutOfRange);
            }
            return Evaluation::Failed(BootError::StackFull);
        }
        if !self.inject(token, tib as usize) {
            return Evaluation::Failed(BootError::BufferOutOfRange);
        }
        self.push_data(tib);
        self.set_watch(nf);
        let s = self.execute(xt, fuel);
        Evaluation::Started(s)
    }
}

} // verus!
