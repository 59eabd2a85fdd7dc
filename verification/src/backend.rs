//! The capability interface every execution backend implements, and the
//! lifecycle states a core moves through.

use vstd::prelude::*;

verus! {

use crate::ident::FuncId;
use crate::errors::{LoadError, InvokeError};
use crate::message::Response;

pub use vstd::seq::Seq;

/// Lifecycle of one core.
#[derive(Clone, Copy, PartialEq, Eq, Structural, Debug)]
pub enum CoreState {
    /// Constructed; exports not yet enumerated.
    Unloaded,
    /// Exports enumerated; calls are routed to it.
    Loaded,
    /// An unrecoverable execution error was isolated here; the core no
    /// longer receives calls.
    Faulted,
    /// Explicitly shut down; resources released.
    ShutDown,
}

/// One execution backend: a unit that can enumerate its exported
/// functions and execute one of them on a byte payload.
///
/// The engine implements this for the sandboxed bytecode backend; an
/// embedder supplies further implementations (a native dynamic library
/// cannot be opened inside the verified library, so that backend is an
/// outside implementation of this trait).
pub trait Core: Sized {
    /// The identifier this core registers under.
    spec fn spec_id(&self) -> FuncId;

    /// The identifiers of the functions the core exposes; empty before
    /// `load` succeeds.
    spec fn exports(&self) -> Seq<FuncId>;

    /// Constructed but not yet loaded: `load` may be called exactly once,
    /// in this state.
    spec fn fresh(&self) -> bool;

    /// The backend's internal validity: what its constructor establishes
    /// and every operation preserves.
    spec fn inv(&self) -> bool;

    /// Loaded and accepting calls.
    spec fn ready(&self) -> bool;

    /// The identifier this core registers under.
    fn core_id(&self) -> (r: FuncId)
        ensures
            r == self.spec_id(),
    ;

    /// Backend-specific initialization: enumerate the exported functions
    /// and make the core callable. On success the export list is fixed and
    /// free of duplicate identifiers (a unit whose own exports collide is
    /// rejected at load, never registered).
    fn load(&mut self) -> (r: Result<(), LoadError>)
        requires
            old(self).fresh(),
            old(self).inv(),
        ensures
            final(self).inv(),
            final(self).spec_id() == old(self).spec_id(),
            r is Ok ==> final(self).ready(),
            r is Ok ==> forall|i: int, j: int|
                0 <= i < j < final(self).exports().len() ==> final(self).exports()[i]
                    != final(self).exports()[j],
            r is Err ==> !final(self).ready(),
    ;

    /// The functions available after `load`.
    fn get_fn_address_list(&self) -> (r: Vec<FuncId>)
        ensures
            r@ == self.exports(),
    ;

    /// Execute one exported function on a byte payload, synchronously.
    /// A core that is not ready refuses with `Unavailable`; `NotFound` is
    /// only ever given for an identifier the core does not export.
    fn call_function(&mut self, fn_id: &FuncId, message: &[u8]) -> (r: Result<
        Response,
        InvokeError,
    >)
        requires
            old(self).inv(),
        ensures
            final(self).inv(),
            final(self).spec_id() == old(self).spec_id(),
            final(self).exports() == old(self).exports(),
            !old(self).ready() ==> r == Err::<Response, InvokeError>(InvokeError::Unavailable),
            r == Err::<Response, InvokeError>(InvokeError::NotFound) ==> !old(
                self,
            ).exports().contains(*fn_id),
            old(self).ready() && old(self).exports().contains(*fn_id) ==> !(r == Err::<
                Response,
                InvokeError,
            >(InvokeError::NotFound)) && !(r == Err::<Response, InvokeError>(
                InvokeError::Unavailable,
            )),
            !(r matches Err(e) && crate::errors::is_fault(e)) ==> final(self).ready() == old(
                self,
            ).ready(),
    ;

    /// Release backend resources and clear the exported-function table;
    /// afterwards the core exposes no functions and calls refuse with
    /// `Unavailable`. Safe to call any number of times, with the same
    /// final state.
    fn shutdown(&mut self)
        requires
            old(self).inv(),
        ensures
            final(self).inv(),
            final(self).spec_id() == old(self).spec_id(),
            final(self).exports().len() == 0,
            !final(self).ready(),
    ;
}

} // verus!
