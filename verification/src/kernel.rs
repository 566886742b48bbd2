//! The kernel from the moment the bootloader hands over control.
//!
//! The kernel is a small state machine. It waits to be entered, runs, and
//! halts; from the halt there is no way back. A function that would never
//! return is a step into the halted state here, and the caller does the
//! waiting.

use crate::console::ConsolePort;
use crate::fault::{
    format_fault,
    lemma_panic_text_shape,
    panic_text,
    FaultModel,
    FaultRecord,
    Location,
    LocationModel,
};
use crate::float::{Decimal, DecimalModel, Float, FloatModel};
use crate::format::{
    arg_models,
    number_models,
    render,
    render_line,
    rendered,
    rendered_line,
    Arg,
    ArgModel,
    FormatError,
    Number,
    NumberModel,
    Value,
    ValueModel,
};
use crate::writer::HostWriter;
use vstd::prelude::*;
use vstd::string::StringSliceAdditionalSpecFns;

verus! {

/// `bootloader_api::BootInfo`: what the bootloader found of the machine, handed
/// to the kernel once at its entry. The kernel borrows it and never looks
/// inside; nothing is claimed of its contents.
#[verifier::external_type_specification]
#[verifier::external_body]
pub struct ExBootInfo(bootloader_api::BootInfo);

/// The context in which the kernel itself runs.
pub const KERNEL_CONTEXT: u64 = 0;

/// Where the kernel stands.
#[derive(Debug, Clone, Copy, PartialEq, Eq, Structural)]
pub enum RunState {
    /// Loaded; the bootloader has not yet handed over control.
    Booting,
    /// Entered and at work.
    Running,
    /// Idle for good. Nothing leads out of this state.
    Halted,
}

/// The kernel as an observer sees it.
pub struct KernelModel {
    pub state: RunState,
    /// Every byte the kernel has written to the debug port, oldest first.
    pub transcript: Seq<u8>,
    /// How many of these bytes the caller has taken to put them on the wire.
    pub taken: nat,
}

/// What can happen to the kernel.
pub enum KernelEvent {
    /// The bootloader calls the entry function.
    Enter,
    /// Kernel code asks for a rendered template to be printed, from the place
    /// given; the request carries what rendering gave.
    Request(Result<Seq<u8>, FormatError>, LocationModel),
    /// A fault is detected.
    Fault(FaultModel),
    /// Kernel code has nothing left to do.
    Halt,
}

impl KernelModel {
    /// The kernel before it is entered: nothing written yet.
    pub open spec fn booting() -> KernelModel {
        KernelModel { state: RunState::Booting, transcript: Seq::empty(), taken: 0 }
    }

    /// The bytes written since the output was last taken.
    pub open spec fn pending(self) -> Seq<u8> {
        self.transcript.skip(self.taken as int)
    }

    /// The kernel after the caller took all that was pending.
    pub open spec fn all_taken(self) -> KernelModel {
        KernelModel { taken: self.transcript.len(), ..self }
    }

    /// The entry function is called. Only the first call enters the kernel.
    pub open spec fn enter(self) -> KernelModel {
        if self.state is Booting {
            KernelModel { state: RunState::Running, ..self }
        } else {
            self
        }
    }

    /// Running kernel code writes `text`. A kernel that does not run writes
    /// nothing.
    pub open spec fn emit(self, text: Seq<u8>) -> KernelModel {
        if self.state is Running {
            KernelModel { transcript: self.transcript + text, ..self }
        } else {
            self
        }
    }

    /// A fault is detected: the kernel reports it and halts. A halted kernel
    /// stays silent.
    pub open spec fn fault(self, f: FaultModel) -> KernelModel {
        if self.state is Halted {
            self
        } else {
            KernelModel {
                state: RunState::Halted,
                transcript: self.transcript + panic_text(f),
                ..self
            }
        }
    }

    /// Running kernel code asks for what rendering gave to be printed: text is
    /// written; an error of rendering is a fault.
    pub open spec fn request(self, outcome: Result<Seq<u8>, FormatError>, at: LocationModel) -> KernelModel {
        if self.state is Running {
            match outcome {
                Ok(text) => self.emit(text),
                Err(e) => self.fault(format_fault(e, at)),
            }
        } else {
            self
        }
    }

    /// The kernel goes idle for good.
    pub open spec fn halt(self) -> KernelModel {
        KernelModel { state: RunState::Halted, ..self }
    }

    /// The kernel after `event`.
    pub open spec fn step(self, event: KernelEvent) -> KernelModel {
        match event {
            KernelEvent::Enter => self.enter(),
            KernelEvent::Request(outcome, at) => self.request(outcome, at),
            KernelEvent::Fault(f) => self.fault(f),
            KernelEvent::Halt => self.halt(),
        }
    }

    /// The kernel after a run of events.
    pub open spec fn run(self, events: Seq<KernelEvent>) -> KernelModel
        decreases events.len(),
    {
        if events.len() == 0 {
            self
        } else {
            self.run(events.drop_last()).step(events.last())
        }
    }

    /// How many of the calls of the entry function in `events` entered the
    /// kernel.
    pub open spec fn entries(self, events: Seq<KernelEvent>) -> nat
        decreases events.len(),
    {
        if events.len() == 0 {
            0
        } else {
            let earlier = self.entries(events.drop_last());
            if events.last() is Enter && self.run(events.drop_last()).state is Booting {
                earlier + 1
            } else {
                earlier
            }
        }
    }
}

/// The numbers that the kernel shows at its start.
pub open spec fn demo_numbers() -> Seq<NumberModel> {
    seq![
        NumberModel::Float(
            FloatModel::Finite(DecimalModel { negative: false, digits: seq![2u8, 6u8], exponent: 1 }),
        ),
        NumberModel::Float(FloatModel::Nan),
        NumberModel::Float(
            FloatModel::Finite(
                DecimalModel { negative: true, digits: seq![1u8, 0u8, 3u8], exponent: 2 },
            ),
        ),
    ]
}

/// The arguments of the kernel's first line: the list of numbers, and the
/// integer 1234 under the name `n`.
pub open spec fn demo_args() -> Seq<ArgModel> {
    seq![
        ArgModel { name: None, value: ValueModel::List(demo_numbers()) },
        ArgModel {
            name: Some("n".spec_bytes()),
            value: ValueModel::Number(NumberModel::Int(1234)),
        },
    ]
}

/// The arguments of the lines that show a slice: the slice without a name, and
/// under the name `S`.
pub open spec fn slice_args() -> Seq<ArgModel> {
    seq![
        ArgModel { name: None, value: ValueModel::Text("a slice".spec_bytes()) },
        ArgModel { name: Some("S".spec_bytes()), value: ValueModel::Text("a slice".spec_bytes()) },
    ]
}

/// The argument of the kernel's last line.
pub open spec fn closing_args() -> Seq<ArgModel> {
    seq![
        ArgModel {
            name: None,
            value: ValueModel::Text(
                "Two blank lines should be printed above this line".spec_bytes(),
            ),
        },
    ]
}

/// The place that the kernel's own requests come from.
pub open spec fn main_location() -> LocationModel {
    LocationModel { file: "simpleos_main".spec_bytes(), line: 0, column: 0 }
}

/// The kernel after the work it does once entered: six requests, the first
/// without a newline, then the halt.
pub open spec fn after_main(k: KernelModel) -> KernelModel {
    let at = main_location();
    k.request(
        rendered(
            "Printing integer '{n}' and array of floats {:?} with no newline. ".spec_bytes(),
            demo_args(),
        ),
        at,
    ).request(
        rendered_line("Test printing slice '{S}' with a newline.".spec_bytes(), slice_args()),
        at,
    ).request(
        rendered_line("Test printing slice '{}' with a newline.".spec_bytes(), slice_args()),
        at,
    ).request(rendered_line("".spec_bytes(), Seq::empty()), at).request(
        rendered_line("".spec_bytes(), Seq::empty()),
        at,
    ).request(rendered_line("{}".spec_bytes(), closing_args()), at).halt()
}

/// The kernel: its state and its debug port.
pub struct Kernel {
    state: RunState,
    port: ConsolePort,
}

impl View for Kernel {
    type V = KernelModel;

    closed spec fn view(&self) -> KernelModel {
        KernelModel {
            state: self.state,
            transcript: self.port@.transcript,
            taken: self.port@.taken,
        }
    }
}

impl Kernel {
    /// Between two calls nobody holds the port: each request takes the lock
    /// and gives it back.
    #[verifier::type_invariant]
    spec fn port_is_free(self) -> bool {
        self.port@.holder is None
    }

    /// A kernel that waits to be entered.
    pub fn new() -> (kernel: Kernel)
        ensures
            kernel@ == KernelModel::booting(),
    {
        Kernel { state: RunState::Booting, port: ConsolePort::new() }
    }

    /// Where the kernel stands.
    pub fn state(&self) -> (state: RunState)
        ensures
            state == self@.state,
    {
        self.state
    }

    /// Whether the kernel has halted.
    pub fn is_halted(&self) -> (halted: bool)
        ensures
            halted == (self@.state is Halted),
    {
        match self.state {
            RunState::Halted => true,
            _ => false,
        }
    }

    /// Hands out the bytes written since the last call, oldest first, for the
    /// caller to put on the wire.
    pub fn take_output(&mut self) -> (out: Vec<u8>)
        ensures
            out@ == old(self)@.pending(),
            final(self)@ == old(self)@.all_taken(),
    {
        let mut port = self.lend_port();
        let out = port.take_output();
        self.return_port(port);
        out
    }

    /// Takes the port out of the kernel for a request to be made on it; a
    /// fresh port stands in until [`Kernel::return_port`] brings it back.
    fn lend_port(&mut self) -> (port: ConsolePort)
        ensures
            port@ == old(self).port@,
            port@.holder is None,
            final(self).state == old(self).state,
    {
        proof {
            use_type_invariant(&*self);
        }
        let mut port = ConsolePort::new();
        std::mem::swap(&mut self.port, &mut port);
        port
    }

    /// Puts the port back after a request.
    fn return_port(&mut self, port: ConsolePort)
        requires
            port@.holder is None,
        ensures
            final(self).port@ == port@,
            final(self).state == old(self).state,
    {
        let mut port = port;
        std::mem::swap(&mut self.port, &mut port);
    }

    /// The bootloader hands over control; `true` if this call entered the
    /// kernel, which only the first does.
    pub fn enter(&mut self) -> (entered: bool)
        ensures
            entered == (old(self)@.state is Booting),
            final(self)@ == old(self)@.enter(),
    {
        proof {
            use_type_invariant(&*self);
        }
        match self.state {
            RunState::Booting => {
                self.state = RunState::Running;
                true
            },
            _ => false,
        }
    }

    /// Goes idle for good.
    pub fn halt(&mut self)
        ensures
            final(self)@ == old(self)@.halt(),
    {
        proof {
            use_type_invariant(&*self);
        }
        self.state = RunState::Halted;
    }

    /// Writes `text` as one request, if the kernel runs.
    fn emit(&mut self, text: &[u8])
        ensures
            final(self)@ == old(self)@.emit(text@),
    {
        match self.state {
            RunState::Running => {
                let mut port = self.lend_port();
                let writer = HostWriter::new(KERNEL_CONTEXT);
                writer.write_bytes(&mut port, text);
                self.return_port(port);
            },
            _ => {},
        }
    }

    /// The panic reporter: writes the header and the record of the fault, and
    /// halts. It acts once: a halted kernel writes nothing more.
    pub fn panic(&mut self, fault: &FaultRecord)
        ensures
            final(self)@ == old(self)@.fault(fault@),
            final(self)@.state is Halted,
    {
        match self.state {
            RunState::Halted => {},
            _ => {
                let text = fault.report();
                let mut port = self.lend_port();
                let writer = HostWriter::new(KERNEL_CONTEXT);
                writer.write_bytes(&mut port, text.as_slice());
                self.return_port(port);
                self.state = RunState::Halted;
            },
        }
    }

    /// Writes what rendering gave, or reports its error as a fault detected at
    /// `at`.
    fn request(&mut self, outcome: Result<Vec<u8>, FormatError>, at: &Location)
        ensures
            final(self)@ == old(self)@.request(
                match outcome {
                    Ok(text) => Ok(text@),
                    Err(e) => Err(e),
                },
                at@,
            ),
    {
        match self.state {
            RunState::Running => match outcome {
                Ok(text) => self.emit(text.as_slice()),
                Err(e) => {
                    let fault = FaultRecord::from_format_error(e, at);
                    self.panic(&fault);
                },
            },
            _ => {},
        }
    }

    /// Prints without a newline, from the place `at` in the kernel's code.
    ///
    /// A running kernel writes exactly the bytes that the template renders
    /// to. Printing cannot fail: a template that cannot be rendered is a fault,
    /// which is reported and halts the kernel. A kernel that does not run
    /// prints nothing.
    pub fn print(&mut self, template: &str, args: &Vec<Arg>, at: &Location)
        ensures
            final(self)@ == old(self)@.request(
                rendered(template.spec_bytes(), arg_models(args@)),
                at@,
            ),
    {
        let outcome = render(template, args);
        self.request(outcome, at);
    }

    /// Prints with a newline, from the place `at` in the kernel's code: the
    /// bytes that the template renders to and then exactly one newline.
    pub fn println(&mut self, template: &str, args: &Vec<Arg>, at: &Location)
        ensures
            final(self)@ == old(self)@.request(
                rendered_line(template.spec_bytes(), arg_models(args@)),
                at@,
            ),
    {
        let outcome = render_line(template, args);
        self.request(outcome, at);
    }

    /// The entry function: what the bootloader calls to hand over control,
    /// with what it found of the machine.
    ///
    /// The first call enters the kernel, which shows a few lines on the debug
    /// port and halts, whatever the boot information holds; the call comes
    /// back only for the caller to idle. Any later call does nothing.
    pub fn simpleos_main(&mut self, _bootinfo: &bootloader_api::BootInfo)
        ensures
            old(self)@.state is Booting ==> final(self)@ == after_main(old(self)@.enter()),
            old(self)@.state is Booting ==> final(self)@.state is Halted,
            !(old(self)@.state is Booting) ==> final(self)@ == old(self)@,
    {
        if !self.enter() {
            return ;
        }
        let at = Location::new("simpleos_main", 0, 0);
        let arr = Value::List(demo_list());
        let n = Value::Number(Number::Int(1234));
        let mut args: Vec<Arg> = Vec::new();
        args.push(Arg::positional(arr));
        args.push(Arg::named("n".to_owned(), n));
        assert(arg_models(args@) == demo_args());
        self.print("Printing integer '{n}' and array of floats {:?} with no newline. ", &args, &at);

        let mut slice: Vec<Arg> = Vec::new();
        slice.push(Arg::positional(Value::Text("a slice".to_owned())));
        slice.push(Arg::named("S".to_owned(), Value::Text("a slice".to_owned())));
        assert(arg_models(slice@) == slice_args());
        self.println("Test printing slice '{S}' with a newline.", &slice, &at);
        self.println("Test printing slice '{}' with a newline.", &slice, &at);

        let none: Vec<Arg> = Vec::new();
        assert(arg_models(none@) == Seq::<ArgModel>::empty());
        self.println("", &none, &at);
        self.println("", &none, &at);

        let mut closing: Vec<Arg> = Vec::new();
        closing.push(
            Arg::positional(
                Value::Text("Two blank lines should be printed above this line".to_owned()),
            ),
        );
        assert(arg_models(closing@) == closing_args());
        self.println("{}", &closing, &at);
        self.halt();
    }
}

/// The numbers 2.6, not-a-number and -10.3.
fn demo_list() -> (items: Vec<Number>)
    ensures
        number_models(items@) == demo_numbers(),
{
    let mut items: Vec<Number> = Vec::new();
    let mut a: Vec<u8> = Vec::new();
    a.push(2);
    a.push(6);
    let mut b: Vec<u8> = Vec::new();
    b.push(1);
    b.push(0);
    b.push(3);
    assert(a@ == seq![2u8, 6u8]);
    assert(b@ == seq![1u8, 0u8, 3u8]);
    if let Some(d) = Decimal::new(false, a, 1) {
        items.push(Number::Float(Float::Finite(d)));
    }
    items.push(Number::Float(Float::Nan));
    if let Some(d) = Decimal::new(true, b, 2) {
        items.push(Number::Float(Float::Finite(d)));
    }
    assert(number_models(items@) == demo_numbers());
    items
}

/// Nothing leads out of the halt: whatever happens to a halted kernel, it
/// stays halted and writes nothing.
pub proof fn lemma_halted_is_final(k: KernelModel, events: Seq<KernelEvent>)
    requires
        k.state is Halted,
    ensures
        k.run(events) == k,
    decreases events.len(),
{
    if events.len() > 0 {
        lemma_halted_is_final(k, events.drop_last());
    }
}

/// The kernel is entered at most once: of all the calls of the entry function
/// in any run of events at most one takes effect, and none if the kernel was
/// entered before.
pub proof fn lemma_entered_at_most_once(k: KernelModel, events: Seq<KernelEvent>)
    ensures
        k.entries(events) <= 1,
        !(k.state is Booting) ==> k.entries(events) == 0,
        k.entries(events) == 1 ==> !(k.run(events).state is Booting),
        !(k.state is Booting) ==> !(k.run(events).state is Booting),
    decreases events.len(),
{
    if events.len() > 0 {
        lemma_entered_at_most_once(k, events.drop_last());
    }
}

/// Once entered the kernel does not come back: after the entry function's
/// work it is halted, and stays so whatever follows.
pub proof fn lemma_main_never_returns(k: KernelModel, events: Seq<KernelEvent>)
    requires
        k.state is Booting,
    ensures
        after_main(k.enter()).state is Halted,
        after_main(k.enter()).run(events) == after_main(k.enter()),
{
    lemma_halted_is_final(after_main(k.enter()), events);
}

/// A fault in a kernel that has not halted writes the header first, then the
/// record of the fault, which is never empty, and halts the kernel: nothing is
/// written after the report, whatever follows.
pub proof fn lemma_fault_reports_and_halts(k: KernelModel, f: FaultModel, events: Seq<KernelEvent>)
    requires
        !(k.state is Halted),
    ensures
        k.fault(f).transcript == k.transcript + panic_text(f),
        "KERNEL PANIC".spec_bytes().is_prefix_of(panic_text(f)),
        crate::fault::fault_text(f).len() > 0,
        k.fault(f).state is Halted,
        k.fault(f).run(events) == k.fault(f),
{
    lemma_panic_text_shape(f);
    lemma_halted_is_final(k.fault(f), events);
}

/// Nothing that was written is ever taken back or reordered: after any run of
/// events the earlier transcript is the beginning of the later one.
pub proof fn lemma_transcript_only_grows(k: KernelModel, events: Seq<KernelEvent>)
    ensures
        k.transcript.is_prefix_of(k.run(events).transcript),
    decreases events.len(),
{
    if events.len() > 0 {
        lemma_transcript_only_grows(k, events.drop_last());
        let before = k.run(events.drop_last());
        let now = before.step(events.last());
        assert(before.transcript.is_prefix_of(now.transcript));
    }
}

} // verus!
