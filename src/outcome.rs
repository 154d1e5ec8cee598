//! What a transaction reports back to the host: its status and the gas it used.
use crate::errors::{Location, StatusCode, VMError};
use crate::language::{AccountAddress, ModuleId};
use vstd::prelude::*;

verus! {

/// The outcome of publishing a module or executing a script.
#[derive(Debug, PartialEq, Eq)]
pub struct VmResult {
    pub status_code: StatusCode,
    pub gas_used: u64,
}

impl VmResult {
    pub fn new(status_code: StatusCode, gas_used: u64) -> (r: VmResult)
        ensures
            r.status_code == status_code,
            r.gas_used == gas_used,
    {
        VmResult { status_code, gas_used }
    }
}

/// The outcome of a transaction that was given `max_gas_amount` and has `remaining_gas` left:
/// executed when it succeeded, else the status of its error; the gas used is what was spent.
pub fn handle_vm_result(max_gas_amount: u64, remaining_gas: u64, result: Result<(), VMError>) -> (r:
    VmResult)
    requires
        remaining_gas <= max_gas_amount,
    ensures
        r.gas_used == max_gas_amount - remaining_gas,
        r.status_code == match result {
            Ok(_) => StatusCode::Executed,
            Err(e) => e.major_status,
        },
{
    let gas_used = max_gas_amount - remaining_gas;
    match result {
        Ok(_) => VmResult::new(StatusCode::Executed, gas_used),
        Err(err) => VmResult::new(err.major_status, gas_used),
    }
}

/// A module may only be published by the account it declares as its own: an error located at
/// the module otherwise.
pub fn check_module_sender(module_id: ModuleId, sender: &AccountAddress) -> (r: Result<
    ModuleId,
    VMError,
>)
    ensures
        match r {
            Ok(id) => module_id.address == *sender && id@ == module_id@,
            Err(e) => module_id.address != *sender && e.major_status
                == StatusCode::ModuleAddressDoesNotMatchSender && e.location == Location::Module(
                module_id,
            ),
        },
{
    if module_id.address.value != sender.value {
        Err(
            VMError {
                major_status: StatusCode::ModuleAddressDoesNotMatchSender,
                location: Location::Module(module_id),
            },
        )
    } else {
        Ok(module_id)
    }
}

} // verus!
