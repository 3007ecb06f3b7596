//! The hash of a task's program, and the check that holds it against the
//! hashes a run supports.

use vstd::prelude::*;
use cairo_vm::types::builtin_name::BuiltinName as VmBuiltinName;
use cairo_vm::types::relocatable::MaybeRelocatable as VmCell;
use cairo_vm::vm::runners::cairo_pie::StrippedProgram;
use cairo_vm::Felt252;
use crate::builtins::{is_builtin_name, BuiltinName};
use crate::error::BootloaderError;
use crate::felt::Felt;
use crate::task::{BootloaderConfig, HashScheme, Program, TaskSpec, BOOTLOADER_VERSION};

verus! {

/// The hash chain of a program: of the bootloader version, the offset of
/// the main function, the builtins' names and the data. `None` where a name
/// is not that of a builtin or the chain cannot be computed.
pub uninterp spec fn program_hash_chain(
    version: usize,
    main: usize,
    builtins: Seq<Seq<char>>,
    data: Seq<Felt>,
) -> Option<Felt>;

/// `cairo_vm::program_hash::compute_program_hash_chain`, on a stripped
/// program made of the arguments: the result depends on nothing else. Data
/// made of field elements never makes the chain fail, so there is a hash
/// whenever every name is that of a builtin.
#[verifier::external_body]
pub(crate) fn compute_program_hash_chain(
    version: usize,
    main: usize,
    builtins: &Vec<&'static str>,
    data: &Vec<Felt>,
) -> (r: Option<Felt>)
    ensures
        r == program_hash_chain(version, main, builtins@.map_values(|n: &'static str| n@), data@),
        (forall|i: int| 0 <= i < builtins@.len() ==> is_builtin_name((#[trigger] builtins@[i])@))
            ==> r is Some,
{
    let builtins = builtins.iter().map(|n| VmBuiltinName::from_str(n)).collect::<Option<_>>()?;
    let data = data.iter().map(|f| VmCell::Int(Felt252::from_bytes_be(&f.to_bytes_be()))).collect();
    let program = StrippedProgram { data, builtins, main, prime: () };
    let hash = cairo_vm::program_hash::compute_program_hash_chain(&program, version).ok()?;
    let d = hash.to_le_digits();
    Some(Felt { d0: d[0], d1: d[1], d2: d[2], d3: d[3] })
}

/// What is hashed of a program's bytecode: under the first scheme the
/// bytecode as it stands, under the second its length and then the bytecode.
pub open spec fn preimage(scheme: HashScheme, bytecode: Seq<Felt>) -> Seq<Felt> {
    match scheme {
        HashScheme::Scheme0 => bytecode,
        HashScheme::Scheme1 => seq![Felt::from_nat(bytecode.len())] + bytecode,
    }
}

/// The names of the builtins, in order.
pub open spec fn builtin_names(builtins: Seq<BuiltinName>) -> Seq<Seq<char>> {
    builtins.map_values(|b: BuiltinName| b.spec_name())
}

/// The hash of a program under a scheme; `None` for a program without a
/// main function and where the chain cannot be computed.
pub open spec fn spec_program_hash(program: Program, scheme: HashScheme) -> Option<Felt> {
    match program.main {
        Some(main) => program_hash_chain(
            BOOTLOADER_VERSION,
            main,
            builtin_names(program.builtins@),
            preimage(scheme, program.data@),
        ),
        None => None,
    }
}

/// What is hashed of a program's bytecode under a scheme.
pub fn hash_preimage(scheme: HashScheme, bytecode: &Vec<Felt>) -> (r: Vec<Felt>)
    ensures
        r@ == preimage(scheme, bytecode@),
{
    let mut out: Vec<Felt> = Vec::new();
    match scheme {
        HashScheme::Scheme0 => {},
        HashScheme::Scheme1 => {
            out.push(Felt::from_usize(bytecode.len()));
        },
    }
    let ghost head = out@;
    let mut i: usize = 0;
    proof {
        assert(out@ =~= head + bytecode@.take(0));
    }
    while i < bytecode.len()
        invariant
            i <= bytecode.len(),
            out@ == head + bytecode@.take(i as int),
        decreases bytecode.len() - i,
    {
        out.push(bytecode[i]);
        proof {
            assert(bytecode@.take(i + 1) =~= bytecode@.take(i as int).push(bytecode@[i as int]));
        }
        i += 1;
    }
    proof {
        assert(bytecode@.take(i as int) =~= bytecode@);
        assert(Seq::<Felt>::empty() + bytecode@ =~= bytecode@);
    }
    out
}

/// The hash of a program under a scheme. A program has one exactly when it
/// has a main function.
pub fn program_hash(program: &Program, scheme: HashScheme) -> (r: Option<Felt>)
    ensures
        r == spec_program_hash(*program, scheme),
        r is Some <==> program.main is Some,
{
    let main = match program.main {
        Some(main) => main,
        None => {
            return None;
        },
    };
    let mut names: Vec<&'static str> = Vec::new();
    let mut i: usize = 0;
    while i < program.builtins.len()
        invariant
            i <= program.builtins.len(),
            names@.map_values(|n: &'static str| n@) == builtin_names(
                program.builtins@.take(i as int),
            ),
            forall|j: int| 0 <= j < names@.len() ==> is_builtin_name((#[trigger] names@[j])@),
        decreases program.builtins.len() - i,
    {
        let name = program.builtins[i].name();
        proof {
            assert(program.builtins@.take(i + 1) =~= program.builtins@.take(i as int).push(
                program.builtins@[i as int],
            ));
            assert(names@.push(name).map_values(|n: &'static str| n@) =~= names@.map_values(
                |n: &'static str| n@,
            ).push(name@));
            assert(builtin_names(program.builtins@.take(i as int).push(program.builtins@[i as int]))
                =~= builtin_names(program.builtins@.take(i as int)).push(
                program.builtins@[i as int].spec_name(),
            ));
        }
        proof {
            assert(program.builtins@[i as int].spec_name() == name@);
            assert(is_builtin_name(name@));
        }
        names.push(name);
        i += 1;
    }
    proof {
        assert(program.builtins@.take(i as int) =~= program.builtins@);
    }
    let data = hash_preimage(scheme, &program.data);
    compute_program_hash_chain(BOOTLOADER_VERSION, main, &names, &data)
}

/// Whether `hash` is one of `hashes`.
pub fn contains_hash(hashes: &Vec<Felt>, hash: &Felt) -> (r: bool)
    ensures
        r == hashes@.contains(*hash),
{
    let mut i: usize = 0;
    while i < hashes.len()
        invariant
            i <= hashes.len(),
            forall|j: int| 0 <= j < i ==> hashes@[j] != *hash,
        decreases hashes.len() - i,
    {
        if hashes[i] == *hash {
            return true;
        }
        i += 1;
    }
    false
}

/// What the validation of a program with the given hash comes to: the hash
/// itself if it is supported, a hash mismatch if it is not, a load error if
/// there is no hash.
pub open spec fn validation_of(hash: Option<Felt>, supported: Seq<Felt>) -> Result<
    Felt,
    BootloaderError,
> {
    match hash {
        Some(hash) => if supported.contains(hash) {
            Ok(hash)
        } else {
            Err(BootloaderError::ProgramHashMismatch)
        },
        None => Err(BootloaderError::ProgramLoadError),
    }
}

/// Holds a program hash against the supported hashes.
pub fn validate_hash(hash: Option<Felt>, supported: &Vec<Felt>) -> (r: Result<
    Felt,
    BootloaderError,
>)
    ensures
        r == validation_of(hash, supported@),
{
    match hash {
        Some(hash) => {
            if contains_hash(supported, &hash) {
                Ok(hash)
            } else {
                Err(BootloaderError::ProgramHashMismatch)
            }
        },
        None => Err(BootloaderError::ProgramLoadError),
    }
}

/// Computes the hash of a task's program under the task's scheme and holds
/// it against the hashes that the configuration supports. The only program
/// without a hash is one without a main function: a program with one is
/// accepted exactly when its hash is supported, and is a hash mismatch when
/// it is not.
pub fn validate_task(task: &TaskSpec, config: &BootloaderConfig) -> (r: Result<
    Felt,
    BootloaderError,
>)
    ensures
        r == validation_of(
            spec_program_hash(task.spec_program(), task.spec_hash_scheme()),
            config.supported_program_hashes@,
        ),
        r == Err::<Felt, BootloaderError>(BootloaderError::ProgramLoadError)
            <==> task.spec_program().main is None,
        task.spec_program().main is Some ==> (r is Ok
            <==> config.supported_program_hashes@.contains(
            spec_program_hash(task.spec_program(), task.spec_hash_scheme()).unwrap(),
        )),
        task.spec_program().main is Some && r is Err ==> r == Err::<Felt, BootloaderError>(
            BootloaderError::ProgramHashMismatch,
        ),
{
    let hash = program_hash(task.program(), task.hash_scheme());
    validate_hash(hash, &config.supported_program_hashes)
}

/// Holds the hash computed of the bootloader's own program against the
/// configuration: it must be the expected one and be supported.
pub fn validate_bootloader_hash(config: &BootloaderConfig, computed: &Felt) -> (r: Result<
    (),
    BootloaderError,
>)
    ensures
        r == (if *computed == config.simple_bootloader_program_hash
            && config.supported_program_hashes@.contains(*computed) {
            Ok::<(), BootloaderError>(())
        } else {
            Err::<(), BootloaderError>(BootloaderError::ProgramHashMismatch)
        }),
{
    if *computed == config.simple_bootloader_program_hash && contains_hash(
        &config.supported_program_hashes,
        computed,
    ) {
        Ok(())
    } else {
        Err(BootloaderError::ProgramHashMismatch)
    }
}

/// A program whose hash is supported is accepted, under either scheme.
pub proof fn lemma_supported_program_accepted(
    program: Program,
    scheme: HashScheme,
    supported: Seq<Felt>,
)
    requires
        spec_program_hash(program, scheme) is Some,
        supported.contains(spec_program_hash(program, scheme).unwrap()),
    ensures
        validation_of(spec_program_hash(program, scheme), supported) is Ok,
{
}

/// A change to a program that changes its hash to one that is not supported
/// is rejected as a hash mismatch, under either scheme.
pub proof fn lemma_changed_program_rejected(
    changed: Program,
    scheme: HashScheme,
    supported: Seq<Felt>,
)
    requires
        spec_program_hash(changed, scheme) is Some,
        !supported.contains(spec_program_hash(changed, scheme).unwrap()),
    ensures
        validation_of(spec_program_hash(changed, scheme), supported) == Err::<
            Felt,
            BootloaderError,
        >(BootloaderError::ProgramHashMismatch),
{
}

} // verus!
