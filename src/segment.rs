//! The named OS shared-memory object that backs the shared record.

use vstd::prelude::*;
use shared_memory::{Shmem, ShmemConf, ShmemError};

verus! {

#[verifier::external_type_specification]
#[verifier::external_body]
pub struct ExShmem(shared_memory::Shmem);

#[verifier::external_type_specification]
#[verifier::external_body]
pub struct ExShmemError(shared_memory::ShmemError);

/// Why creating a mapping failed.
pub enum CreateFailure {
    /// A mapping of that name exists already.
    NameTaken,
    Other(ShmemError),
}

/// The name holds no NUL character: the OS layer unwraps an error code that
/// a path with one would not have.
pub open spec fn valid_os_id(os_id: Seq<char>) -> bool {
    forall|i: int| 0 <= i < os_id.len() ==> os_id[i] != '\0'
}

/// Relies on ShmemConf::create, with the size and the name given: it fails
/// with MapSizeZero on a zero size before asking the OS, and with
/// MappingIdExists where the name is taken.
#[verifier::external_body]
fn create_mapping(os_id: &str, size: usize) -> (r: Result<Shmem, CreateFailure>)
    requires
        valid_os_id(os_id@),
    ensures
        size == 0 ==> r matches Err(CreateFailure::Other(_)),
{
    match ShmemConf::new().size(size).os_id(os_id).create() {
        Ok(m) => Ok(m),
        Err(ShmemError::MappingIdExists) => Err(CreateFailure::NameTaken),
        Err(e) => Err(CreateFailure::Other(e)),
    }
}

/// Relies on ShmemConf::open, with the name given: opens the existing
/// mapping of that name.
#[verifier::external_body]
fn open_mapping(os_id: &str, size: usize) -> (r: Result<Shmem, ShmemError>) {
    ShmemConf::new().size(size).os_id(os_id).open()
}

/// What follows an attempt to create the mapping.
pub enum AfterCreate {
    /// The attempt settles it: the new mapping, or the error.
    Done(Result<Shmem, ShmemError>),
    /// The name is taken: open the existing mapping instead.
    OpenExisting,
}

/// A new mapping is kept, a taken name leads to opening the existing
/// mapping (never to creating it again), and any other failure is returned.
pub fn after_create(first: Result<Shmem, CreateFailure>) -> (r: AfterCreate)
    ensures
        (first matches Err(CreateFailure::NameTaken)) == (r is OpenExisting),
        first matches Ok(m) ==> r matches AfterCreate::Done(Ok(m2)) && m2 == m,
        first matches Err(CreateFailure::Other(e)) ==> r matches AfterCreate::Done(Err(e2)) && e2 == e,
{
    match first {
        Ok(m) => AfterCreate::Done(Ok(m)),
        Err(CreateFailure::NameTaken) => AfterCreate::OpenExisting,
        Err(CreateFailure::Other(e)) => AfterCreate::Done(Err(e)),
    }
}

/// Creates the mapping `os_id` of `size` bytes, or opens it where it exists
/// already; any other failure is returned, and nothing is published then.
/// The decision is `after_create`'s.
pub fn create(os_id: &str, size: usize) -> (r: Result<Shmem, ShmemError>)
    requires
        valid_os_id(os_id@),
    ensures
        size == 0 ==> r is Err,
{
    match after_create(create_mapping(os_id, size)) {
        AfterCreate::Done(r) => r,
        AfterCreate::OpenExisting => open_mapping(os_id, size),
    }
}

} // verus!
