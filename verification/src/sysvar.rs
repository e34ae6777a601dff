use vstd::prelude::*;

verus! {

#[verifier::external_type_specification]
#[verifier::external_body]
pub struct ExSolanaProgramError(solana_program_error::ProgramError);

/// Reads `unix_timestamp` from the runtime's `Clock` sysvar through
/// `solana_sysvar`'s `Sysvar::get` for `Clock`. Nothing is claimed of the
/// result: it is the current time, and off-chain the call always fails.
#[verifier::external_body]
pub(crate) fn clock_unix_timestamp() -> (r: Result<i64, solana_program_error::ProgramError>) {
    <solana_sysvar::clock::Clock as solana_sysvar::Sysvar>::get().map(|clock| clock.unix_timestamp)
}

} // verus!
