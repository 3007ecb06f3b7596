//! The single point through which the machine reaches every hint handler.

use vstd::prelude::*;
use cairo_vm::vm::vm_core::VirtualMachine;
use crate::error::BootloaderError;
use crate::external_hints::{Arg, ExternalHint, ExternalHintProcessor};
use crate::hints::{get_hints, hint_map, HintId, HintTable};

verus! {

/// A hint in the tagged encoding.
#[derive(Clone, Copy, Debug, PartialEq, Eq)]
pub enum TaggedHint {
    /// One of the hints this library handles itself.
    External(ExternalHint),
    /// Any other hint of that encoding.
    Core,
}

/// What the machine hands over at a hint site.
#[derive(Debug, PartialEq, Eq)]
pub enum HintData {
    /// A hint named by an identifier.
    Identified(String),
    /// A hint in the tagged encoding.
    Tagged(TaggedHint),
    /// Anything else.
    Unrecognized,
}

/// Where a hint goes.
#[derive(Clone, Copy, Debug, PartialEq, Eq)]
pub enum Dispatch {
    /// The hint was a tagged hint of this library and has been carried out.
    Handled,
    /// The handler to run; it may change the machine and the run's state,
    /// never the registry.
    Simple(HintId),
    /// The handler to run; what it returns may add entries to the registry.
    Extensive(HintId),
    /// No handler is registered: the machine's own hint library is next.
    BuiltinLibrary,
    /// The executor of hints in the tagged encoding is next.
    AlternateEncoding,
}

/// Where a hint goes that is not one of the tagged hints of this library:
/// first the table of simple handlers, then the table of extensive ones, then
/// the machine's own library. An identifier matches only whole.
pub open spec fn route_of(
    hints: Map<Seq<char>, HintId>,
    extensive_hints: Map<Seq<char>, HintId>,
    data: HintData,
) -> Result<Dispatch, BootloaderError> {
    match data {
        HintData::Identified(code) => {
            if hints.contains_key(code@) {
                Ok(Dispatch::Simple(hints[code@]))
            } else if extensive_hints.contains_key(code@) {
                Ok(Dispatch::Extensive(extensive_hints[code@]))
            } else {
                Ok(Dispatch::BuiltinLibrary)
            }
        },
        HintData::Tagged(_) => Ok(Dispatch::AlternateEncoding),
        HintData::Unrecognized => Err(BootloaderError::UnknownHint),
    }
}

/// What is tried after the handler at `tried` has said that it does not know
/// the hint: after the machine's own library the executor of the tagged
/// encoding, after anything else nothing.
pub open spec fn fallback_of(tried: Dispatch) -> Result<Dispatch, BootloaderError> {
    match tried {
        Dispatch::BuiltinLibrary => Ok(Dispatch::AlternateEncoding),
        _ => Err(BootloaderError::UnknownHint),
    }
}

/// What is tried after the handler at `tried` has said that it does not know
/// the hint.
pub fn next_after_unknown(tried: Dispatch) -> (r: Result<Dispatch, BootloaderError>)
    ensures
        r == fallback_of(tried),
{
    match tried {
        Dispatch::BuiltinLibrary => Ok(Dispatch::AlternateEncoding),
        _ => Err(BootloaderError::UnknownHint),
    }
}

/// The hint processor of a bootloader run.
pub struct BootloaderHintProcessor {
    hints: HintTable,
    extensive_hints: HintTable,
    external_hint_proc: ExternalHintProcessor,
}

impl BootloaderHintProcessor {
    /// The table of simple handlers.
    pub closed spec fn spec_hints(&self) -> Map<Seq<char>, HintId> {
        self.hints@
    }

    /// The table of extensive handlers.
    pub closed spec fn spec_extensive_hints(&self) -> Map<Seq<char>, HintId> {
        self.extensive_hints@
    }

    /// The processor of the tagged hints.
    pub closed spec fn spec_external(&self) -> ExternalHintProcessor {
        self.external_hint_proc
    }

    /// A processor with the bootloader's hints registered, no extensive
    /// handler, and the given run arguments.
    pub fn new(user_args: Vec<Vec<Arg>>) -> (r: Self)
        ensures
            r.spec_hints() == hint_map(),
            r.spec_extensive_hints() == Map::<Seq<char>, HintId>::empty(),
            r.spec_external().spec_user_args() == user_args@.map_values(|a: Vec<Arg>| a@),
            r.spec_external().spec_markers() == Seq::<Seq<crate::felt::Felt>>::empty(),
            r.spec_external().spec_panic_traceback() == Seq::<
                (crate::address::Relocatable, crate::address::Relocatable),
            >::empty(),
    {
        BootloaderHintProcessor {
            hints: Self::hints(),
            extensive_hints: Self::extensive_hints(),
            external_hint_proc: ExternalHintProcessor::new(user_args),
        }
    }

    fn hints() -> (r: HintTable)
        ensures
            r@ == hint_map(),
    {
        let mut hints = HintTable::new();
        let known = get_hints();
        hints.merge(&known);
        proof {
            assert(Map::<Seq<char>, HintId>::empty().union_prefer_right(known@) =~= known@);
        }
        hints
    }

    fn extensive_hints() -> (r: HintTable)
        ensures
            r@ == Map::<Seq<char>, HintId>::empty(),
    {
        HintTable::new()
    }

    /// The processor of the tagged hints.
    pub fn external(&self) -> (r: &ExternalHintProcessor)
        ensures
            *r == self.spec_external(),
    {
        &self.external_hint_proc
    }

    /// Registers the entries of `extension` as simple handlers, each
    /// replacing what its identifier named before.
    pub fn register(&mut self, extension: &HintTable)
        ensures
            final(self).spec_hints() == old(self).spec_hints().union_prefer_right(extension@),
            final(self).spec_extensive_hints() == old(self).spec_extensive_hints(),
            final(self).spec_external() == old(self).spec_external(),
    {
        self.hints.merge(extension);
    }

    /// Registers the entries of `extension` as extensive handlers, each
    /// replacing what its identifier named before.
    pub fn register_extensive(&mut self, extension: &HintTable)
        ensures
            final(self).spec_extensive_hints()
                == old(self).spec_extensive_hints().union_prefer_right(extension@),
            final(self).spec_hints() == old(self).spec_hints(),
            final(self).spec_external() == old(self).spec_external(),
    {
        self.extensive_hints.merge(extension);
    }

    /// Dispatches one hint.
    ///
    /// A tagged hint of this library is carried out at once, as
    /// `ExternalHintProcessor::execute_external_hint` does it, and the result
    /// is `Handled` or the hint's error. For any other hint nothing changes,
    /// and the result says where it goes.
    pub fn execute_hint_extensive(&mut self, vm: &mut VirtualMachine, hint_data: &HintData) -> (r:
        Result<Dispatch, BootloaderError>)
        ensures
            final(self).spec_hints() == old(self).spec_hints(),
            final(self).spec_extensive_hints() == old(self).spec_extensive_hints(),
            match *hint_data {
                HintData::Tagged(TaggedHint::External(hint)) => {
                    &&& r is Ok ==> r == Ok::<Dispatch, BootloaderError>(Dispatch::Handled)
                    &&& ExternalHintProcessor::hint_effect(
                        hint,
                        old(self).spec_external(),
                        *old(vm),
                        final(self).spec_external(),
                        *final(vm),
                        match r {
                            Ok(_) => Ok(()),
                            Err(e) => Err(e),
                        },
                    )
                },
                _ => {
                    &&& *final(vm) == *old(vm)
                    &&& final(self).spec_external() == old(self).spec_external()
                    &&& r == route_of(
                        old(self).spec_hints(),
                        old(self).spec_extensive_hints(),
                        *hint_data,
                    )
                },
            },
    {
        match hint_data {
            HintData::Tagged(TaggedHint::External(external_hint)) => {
                match self.external_hint_proc.execute_external_hint(vm, external_hint) {
                    Ok(()) => Ok(Dispatch::Handled),
                    Err(e) => Err(e),
                }
            },
            HintData::Tagged(TaggedHint::Core) => Ok(Dispatch::AlternateEncoding),
            HintData::Identified(code) => {
                let hint_code: &str = code.as_str();
                if let Some(hint_impl) = self.hints.get(hint_code) {
                    return Ok(Dispatch::Simple(hint_impl));
                }
                if let Some(hint_impl) = self.extensive_hints.get(hint_code) {
                    return Ok(Dispatch::Extensive(hint_impl));
                }
                Ok(Dispatch::BuiltinLibrary)
            },
            HintData::Unrecognized => Err(BootloaderError::UnknownHint),
        }
    }
}

} // verus!
