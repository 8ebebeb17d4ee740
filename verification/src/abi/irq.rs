//! Interrupt redirection: binding a guest function to a hardware interrupt
//! vector, and finding it again when the vector fires.
//!
//! The redirection table is plain data. What has to happen on the machine
//! (patching the descriptor table, programming the interrupt controller,
//! calling into the guest) is described by the values that the functions
//! here return, and carried out by their caller.

use vstd::prelude::*;

verus! {

/// Number of interrupt vectors, and of slots in the redirection table.
pub const VECTORS: usize = 256;

/// Number of lines of the master interrupt controller; a line at or above
/// this number is unmasked on the slave controller.
pub const MASTER_LINES: u8 = 8;

/// A guest function bound to a vector, and the context it is called with.
/// Both are addresses, which this crate never looks into.
#[derive(Clone, Copy, Debug, PartialEq, Eq, Structural)]
pub struct Binding {
    pub handler: usize,
    pub context: usize,
}

/// One of the two cascaded interrupt controllers.
#[derive(Clone, Copy, Debug, PartialEq, Eq, Structural)]
pub enum Controller {
    Master,
    Slave,
}

/// What is left to do on the machine once a handler was bound, in this
/// order: point descriptor-table entry `vector` at the trampoline of
/// `vector`, then unmask `line` on `controller`.
#[derive(Clone, Copy, Debug, PartialEq, Eq, Structural)]
pub struct IrqInstall {
    pub vector: u8,
    pub controller: Controller,
    pub line: u8,
}

/// What the trampoline of a vector does when the vector fires:
/// acknowledge `acknowledge`, then make `call`. Without a call the
/// interrupt is acknowledged and nothing else happens.
#[derive(Clone, Copy, Debug, PartialEq, Eq, Structural)]
pub struct Delivery {
    pub acknowledge: Controller,
    pub call: Option<Binding>,
}

/// The controller line of `vector`, where the lines of the master
/// controller start at vector `master_offset`. The subtraction wraps
/// around, so that every vector has a line.
pub open spec fn line_of(vector: u8, master_offset: u8) -> u8 {
    ((vector - master_offset) % 256) as u8
}

/// The controller on which `line` is unmasked.
pub open spec fn controller_of(line: u8) -> Controller {
    if line < MASTER_LINES {
        Controller::Master
    } else {
        Controller::Slave
    }
}

/// The slots of a redirection table in which nothing is bound.
pub open spec fn unbound() -> Seq<Option<Binding>> {
    Seq::new(VECTORS as nat, |v: int| None)
}

/// What the trampoline of `vector` does on the table with slots `slots`.
pub open spec fn delivery(slots: Seq<Option<Binding>>, vector: u8) -> Delivery {
    Delivery { acknowledge: Controller::Master, call: slots[vector as int] }
}

/// The function that index `handler` names in a guest instance with the
/// function tables `tables`: the entry at that index of the first table.
pub open spec fn resolved(tables: Seq<Seq<usize>>, handler: u32) -> usize {
    tables[0][handler as int]
}

/// The slots of a table after a request to bind `binding` to vector
/// `index`. A request for a vector that does not exist changes nothing.
pub open spec fn installed(slots: Seq<Option<Binding>>, index: u32, binding: Binding) -> Seq<
    Option<Binding>,
> {
    if index < VECTORS {
        slots.update(index as int, Some(binding))
    } else {
        slots
    }
}

/// What is left to do on the machine after such a request: nothing for a
/// vector that does not exist.
pub open spec fn installation(index: u32, master_offset: u8) -> Option<IrqInstall> {
    if index < VECTORS {
        let line = line_of(index as u8, master_offset);
        Some(IrqInstall { vector: index as u8, controller: controller_of(line), line })
    } else {
        None
    }
}

/// One slot per interrupt vector, each unbound or bound to a guest function.
///
/// Slot `v` is read by the trampoline of vector `v` and by nothing else.
/// A slot is bound and bound again; this table never unbinds one.
pub struct InterruptRedirectionTable {
    slots: [Option<Binding>; 256],
}

impl View for InterruptRedirectionTable {
    type V = Seq<Option<Binding>>;

    closed spec fn view(&self) -> Seq<Option<Binding>> {
        self.slots@
    }
}

impl InterruptRedirectionTable {
    /// A table in which no vector is bound.
    pub fn new() -> (table: InterruptRedirectionTable)
        ensures
            table@ == unbound(),
    {
        let table = InterruptRedirectionTable { slots: [None; 256] };
        assert(table@ =~= unbound());
        table
    }

    /// What is bound to `vector`, if anything.
    pub fn entry(&self, vector: u8) -> (b: Option<Binding>)
        ensures
            b == self@[vector as int],
    {
        self.slots[vector as usize]
    }

    /// What the trampoline of `vector` does when the vector fires: it
    /// acknowledges the master controller and then calls what is bound to
    /// the vector, if anything is.
    pub fn dispatch(&self, vector: u8) -> (d: Delivery)
        ensures
            d == delivery(self@, vector),
    {
        Delivery { acknowledge: Controller::Master, call: self.slots[vector as usize] }
    }

    /// Binds `binding` to `vector`, in place of what was bound before.
    fn bind(&mut self, vector: u8, binding: Binding)
        ensures
            final(self)@ == old(self)@.update(vector as int, Some(binding)),
    {
        self.slots[vector as usize] = Some(binding);
    }

    /// The table has one slot for each vector.
    pub proof fn lemma_one_slot_per_vector(&self)
        ensures
            self@.len() == VECTORS,
    {
    }
}

/// Binds entry `handler` of the first of the guest's function `tables` to
/// interrupt vector `index`, to be called with `context`, and says what is
/// left to do on the machine.
///
/// A vector that does not exist (`index` of 256 or more) is ignored: the
/// table stays as it is and nothing is left to do. Otherwise the slot of the
/// vector is overwritten, whether or not it was bound, and the caller has to
/// patch the descriptor table and then unmask the vector's controller line,
/// in this order and only now that the slot is written. `master_offset` is
/// the vector at which the lines of the master controller start.
///
/// The function found in the guest's table is taken as it is: nothing is
/// known here of its signature.
pub fn set_irq_handler(
    redirection: &mut InterruptRedirectionTable,
    index: u32,
    handler: u32,
    tables: &[Vec<usize>],
    context: usize,
    master_offset: u8,
) -> (todo: Option<IrqInstall>)
    requires
        index < VECTORS ==> tables.deep_view().len() > 0 && handler < tables.deep_view()[0].len(),
    ensures
        final(redirection)@ == installed(
            old(redirection)@,
            index,
            Binding { handler: resolved(tables.deep_view(), handler), context },
        ),
        todo == installation(index, master_offset),
{
    if index >= 256 {
        return None;
    }
    let vector = index as u8;
    let func_addr = tables[0][handler as usize];
    redirection.bind(vector, Binding { handler: func_addr, context });
    let line = vector.wrapping_sub(master_offset);
    let controller = if line < MASTER_LINES {
        Controller::Master
    } else {
        Controller::Slave
    };
    Some(IrqInstall { vector, controller, line })
}

/// A request for a vector that does not exist is ignored: the table stays
/// as it is, and neither the descriptor table nor a controller is touched.
pub proof fn lemma_out_of_range_ignored(
    slots: Seq<Option<Binding>>,
    index: u32,
    binding: Binding,
    master_offset: u8,
)
    requires
        index >= VECTORS,
    ensures
        installed(slots, index, binding) == slots,
        installation(index, master_offset) is None,
{
}

/// Once a handler was installed for a vector, the trampoline of that vector
/// calls exactly the function and exactly the context of the request, once;
/// the trampolines of the other vectors do what they did before.
pub proof fn lemma_installed_is_dispatched(
    slots: Seq<Option<Binding>>,
    index: u32,
    binding: Binding,
)
    requires
        slots.len() == VECTORS,
        index < VECTORS,
    ensures
        delivery(installed(slots, index, binding), index as u8).call == Some(binding),
        forall|v: u8|
            v != index ==> delivery(installed(slots, index, binding), v) == delivery(slots, v),
{
}

/// A second installation for a vector replaces the first: the table is as
/// if the first had never been made, and the trampoline calls the function
/// and context of the second request only.
pub proof fn lemma_reinstall_replaces(
    slots: Seq<Option<Binding>>,
    index: u32,
    first: Binding,
    second: Binding,
)
    requires
        slots.len() == VECTORS,
        index < VECTORS,
    ensures
        installed(installed(slots, index, first), index, second) == installed(
            slots,
            index,
            second,
        ),
        delivery(installed(installed(slots, index, first), index, second), index as u8).call
            == Some(second),
{
}

/// A vector that is bound stays bound: a request binds or rebinds, and
/// never unbinds.
pub proof fn lemma_bound_stays_bound(
    slots: Seq<Option<Binding>>,
    index: u32,
    binding: Binding,
    v: u8,
)
    requires
        slots.len() == VECTORS,
        slots[v as int] is Some,
    ensures
        installed(slots, index, binding)[v as int] is Some,
{
}

} // verus!
