//! What comes of the work on a candidate, told from what was fetched, what validation returned and
//! what storing returned.
use crate::primitives::{BlockId, CandidateReceipt, Collation, Extrinsic, H256, PoVBlock};
use crate::statement::{GenericStatement, Statement};
use crate::work::{
    completes, conclude, follows, verdict_of, Data, Evaluation, ParachainWork, PrimedParachainWork,
    Unstored, Validated, Validation, ValidationWork,
};
use vstd::prelude::*;

verus! {

/// A candidate that is known to be bad is said to be invalid. Its block is kept, and there is no
/// extrinsic data.
pub proof fn law_known_bad(
    hash: H256,
    collation: PoVBlock,
    validated: Validated,
    statement: &Statement,
    pov_block: &PoVBlock,
    extrinsic: Option<&Extrinsic>,
    parts: (Statement, Validation),
)
    requires
        call_ensures(Validated::known_bad, (hash, collation), validated),
        call_ensures(Validated::statement, (&validated,), statement),
        call_ensures(Validated::pov_block, (&validated,), pov_block),
        call_ensures(Validated::extrinsic, (&validated,), extrinsic),
        call_ensures(Validated::into_parts, (validated,), parts),
    ensures
        *statement == GenericStatement::<CandidateReceipt, H256>::Invalid(hash),
        *pov_block == collation,
        extrinsic is None,
        parts == (*statement, Validation::Invalid(collation)),
{
}

/// A candidate that is known to be good is said to be valid. Its block and its extrinsic data are
/// kept.
pub proof fn law_known_good(
    hash: H256,
    collation: PoVBlock,
    data: Extrinsic,
    validated: Validated,
    statement: &Statement,
    pov_block: &PoVBlock,
    extrinsic: Option<&Extrinsic>,
    parts: (Statement, Validation),
)
    requires
        call_ensures(Validated::known_good, (hash, collation, data), validated),
        call_ensures(Validated::statement, (&validated,), statement),
        call_ensures(Validated::pov_block, (&validated,), pov_block),
        call_ensures(Validated::extrinsic, (&validated,), extrinsic),
        call_ensures(Validated::into_parts, (validated,), parts),
    ensures
        *statement == GenericStatement::<CandidateReceipt, H256>::Valid(hash),
        *pov_block == collation,
        extrinsic == Some(&data),
        parts == (*statement, Validation::Valid(collation, data)),
{
}

/// A candidate that was collated locally is put forward with its receipt. Its block and its
/// extrinsic data are kept.
pub proof fn law_collated_local(
    receipt: CandidateReceipt,
    collation: PoVBlock,
    data: Extrinsic,
    validated: Validated,
    statement: &Statement,
    pov_block: &PoVBlock,
    extrinsic: Option<&Extrinsic>,
    parts: (Statement, Validation),
)
    requires
        call_ensures(Validated::collated_local, (receipt, collation, data), validated),
        call_ensures(Validated::statement, (&validated,), statement),
        call_ensures(Validated::pov_block, (&validated,), pov_block),
        call_ensures(Validated::extrinsic, (&validated,), extrinsic),
        call_ensures(Validated::into_parts, (validated,), parts),
    ensures
        *statement == GenericStatement::<CandidateReceipt, H256>::Candidate(receipt),
        *pov_block == collation,
        extrinsic == Some(&data),
        parts == (*statement, Validation::Valid(collation, data)),
{
}

/// There is no extrinsic data if and only if the candidate is said to be invalid, however the
/// result came about.
pub proof fn law_extrinsic_data_unless_invalid(
    validated: &Validated,
    statement: &Statement,
    extrinsic: Option<&Extrinsic>,
)
    requires
        call_ensures(Validated::statement, (validated,), statement),
        call_ensures(Validated::extrinsic, (validated,), extrinsic),
    ensures
        extrinsic is None <==> *statement is Invalid,
{
}

/// A result of validation is read as it is: the statement that it allows, the block, and the
/// extrinsic data where the block was found valid.
pub proof fn law_results_are_read(
    validated: Validated,
    statement: &Statement,
    pov_block: &PoVBlock,
    extrinsic: Option<&Extrinsic>,
    parts: (Statement, Validation),
)
    requires
        call_ensures(Validated::statement, (&validated,), statement),
        call_ensures(Validated::pov_block, (&validated,), pov_block),
        call_ensures(Validated::extrinsic, (&validated,), extrinsic),
        call_ensures(Validated::into_parts, (validated,), parts),
    ensures
        *statement == validated.said(),
        parts.0 == validated.said(),
        parts.1 == validated.found(),
        extrinsic is Some ==> parts.1 == Validation::Valid(*pov_block, *extrinsic->Some_0),
        extrinsic is None ==> parts.1 == Validation::Invalid(*pov_block),
{
}

/// Validation is in progress from its start until it is done, and is neither where it could not
/// be started.
pub proof fn law_progress(work: &ValidationWork, in_progress: bool, done: bool)
    requires
        call_ensures(ValidationWork::is_in_progress, (work,), in_progress),
        call_ensures(ValidationWork::is_done, (work,), done),
    ensures
        in_progress <==> *work == ValidationWork::InProgress,
        done <==> exists|validation: Validation| *work == ValidationWork::Done(validation),
{
    if done {
        assert(*work == ValidationWork::Done(work->Done_0));
    }
}

/// Work that is primed with a validation function is the same work, with that very function.
pub proof fn law_primed_work<Fetch, F>(
    work: ParachainWork<Fetch>,
    validate: F,
    primed: PrimedParachainWork<Fetch, F>,
) where F: FnOnce(&BlockId, &Collation) -> Result<Extrinsic, ()>
    requires
        call_ensures(ParachainWork::<Fetch>::prime_with::<F>, (work, validate), primed),
    ensures
        primed.inner == work,
        primed.validate == validate,
{
}

/// Work that is primed with the check of a collation is the same work. The check is told of the
/// limit that the work came with, and the verdict is the check's: the extrinsic data that it
/// returned, or a refusal where it refused.
pub proof fn law_work_primed_with_a_check<Fetch, V, E>(
    work: ParachainWork<Fetch>,
    validate_collation: V,
    id: &BlockId,
    collation: &Collation,
    verdict: Result<Extrinsic, ()>,
) where V: FnOnce(&BlockId, &Collation, Option<u64>) -> Result<Extrinsic, E>
    ensures
        forall|primed|
            #[trigger] call_ensures(
                ParachainWork::<Fetch>::prime::<V, E>,
                (work, validate_collation),
                primed,
            ) ==> {
                &&& primed.inner == work
                &&& call_requires(
                    validate_collation,
                    (id, collation, work.max_block_data_size),
                ) ==> call_requires(primed.validate, (id, collation))
                &&& call_ensures(primed.validate, (id, collation), verdict) ==> match verdict {
                    Ok(extrinsic) => call_ensures(
                        validate_collation,
                        (id, collation, work.max_block_data_size),
                        Ok(extrinsic),
                    ),
                    Err(_) => exists|error: E| #[trigger]
                        call_ensures(
                            validate_collation,
                            (id, collation, work.max_block_data_size),
                            Err(error),
                        ),
                }
            },
{
    let limit = work.max_block_data_size;
    assert forall|primed|
        #[trigger] call_ensures(
            ParachainWork::<Fetch>::prime::<V, E>,
            (work, validate_collation),
            primed,
        ) implies primed.inner == work && (call_requires(
        validate_collation,
        (id, collation, limit),
    ) ==> call_requires(primed.validate, (id, collation))) && (call_ensures(
        primed.validate,
        (id, collation),
        verdict,
    ) ==> match verdict {
        Ok(extrinsic) => call_ensures(
            validate_collation,
            (id, collation, limit),
            Ok(extrinsic),
        ),
        Err(_) => exists|error: E| #[trigger]
            call_ensures(validate_collation, (id, collation, limit), Err(error)),
    }) by {
        assert(primed.inner == work);
        if call_ensures(primed.validate, (id, collation), verdict) {
            assert(exists|outcome: Result<Extrinsic, E>| #[trigger]
                call_ensures(validate_collation, (id, collation, limit), outcome) && verdict
                    == verdict_of(outcome));
            let outcome = choose|outcome: Result<Extrinsic, E>| #[trigger]
                call_ensures(validate_collation, (id, collation, limit), outcome) && verdict
                    == verdict_of(outcome);
            if outcome is Err {
                assert(outcome == Err::<Extrinsic, E>(outcome->Err_0));
            } else {
                assert(outcome == Ok::<Extrinsic, E>(outcome->Ok_0));
            }
        }
    }
}

/// A refused candidate is said to be invalid at once. An accepted one is not stated to be anything
/// before its data is stored: the data is that of its block and the extrinsic data that the
/// verdict brought.
pub proof fn law_conclusion(
    relay_parent: H256,
    collation: Collation,
    verdict: Result<Extrinsic, ()>,
    evaluation: Evaluation,
)
    requires
        call_ensures(conclude, (relay_parent, collation, verdict), evaluation),
    ensures
        evaluation is MakeAvailable <==> verdict is Ok,
        evaluation is MakeAvailable ==> {
            let unstored = evaluation->MakeAvailable_0;
            &&& unstored.relay_parent == relay_parent
            &&& unstored.parachain_id == collation.receipt.parachain_index
            &&& unstored.candidate_hash == collation.receipt.candidate_hash
            &&& unstored.pov_block == collation.pov
            &&& unstored.extrinsic == verdict->Ok_0
        },
        evaluation is Ready ==> {
            let validated = evaluation->Ready_0;
            &&& validated.said() == Statement::Invalid(collation.receipt.candidate_hash)
            &&& validated.found() == Validation::Invalid(collation.pov)
        },
{
}

/// What is stored is what the candidate was found valid with. Once it is stored the candidate is
/// said to be valid, with the same block and the same extrinsic data. If it could not be stored,
/// the error is all there is.
pub proof fn law_storing<E>(
    unstored: Unstored,
    data: Data<'_>,
    outcome: Result<(), E>,
    result: Result<Validated, E>,
)
    requires
        call_ensures(Unstored::data, (&unstored,), data),
        call_ensures(Unstored::stored::<E>, (unstored, outcome), result),
    ensures
        data.relay_parent == unstored.relay_parent,
        data.parachain_id == unstored.parachain_id,
        data.candidate_hash == unstored.candidate_hash,
        *data.block_data == unstored.pov_block.block_data,
        data.extrinsic == Some(&unstored.extrinsic),
        result is Ok <==> outcome is Ok,
        result is Err ==> result->Err_0 == outcome->Err_0,
        result is Ok ==> {
            &&& result->Ok_0.said() == Statement::Valid(unstored.candidate_hash)
            &&& result->Ok_0.found() == Validation::Valid(unstored.pov_block, unstored.extrinsic)
        },
{
}

/// Once the block is fetched, validation is asked about that block and the candidate that the work
/// is on, on top of the relay-chain parent of the work. What follows is on that candidate.
pub proof fn law_evaluated_work<Fetch, F>(
    primed: PrimedParachainWork<Fetch, F>,
    pov_block: PoVBlock,
    evaluation: Evaluation,
) where F: FnOnce(&BlockId, &Collation) -> Result<Extrinsic, ()>
    requires
        call_ensures(PrimedParachainWork::<Fetch, F>::evaluate, (primed, pov_block), evaluation),
    ensures
        match evaluation {
            Evaluation::Ready(validated) => {
                &&& call_ensures(
                    primed.validate,
                    (
                        &BlockId(primed.inner.relay_parent),
                        &(Collation {
                            pov: pov_block,
                            receipt: primed.inner.work.candidate_receipt,
                        }),
                    ),
                    Err(()),
                )
                &&& validated.said() == Statement::Invalid(
                    primed.inner.work.candidate_receipt.candidate_hash,
                )
                &&& validated.found() == Validation::Invalid(pov_block)
            },
            Evaluation::MakeAvailable(unstored) => {
                &&& call_ensures(
                    primed.validate,
                    (
                        &BlockId(primed.inner.relay_parent),
                        &(Collation {
                            pov: pov_block,
                            receipt: primed.inner.work.candidate_receipt,
                        }),
                    ),
                    Ok(unstored.extrinsic),
                )
                &&& unstored.pov_block == pov_block
                &&& unstored.relay_parent == primed.inner.relay_parent
                &&& unstored.parachain_id == primed.inner.work.candidate_receipt.parachain_index
                &&& unstored.candidate_hash
                    == primed.inner.work.candidate_receipt.candidate_hash
            },
        },
{
    let collation = Collation {
        pov: pov_block,
        receipt: primed.inner.work.candidate_receipt,
    };
    let verdict = choose|verdict: Result<Extrinsic, ()>| #[trigger]
        call_ensures(
            primed.validate,
            (&BlockId(primed.inner.relay_parent), &collation),
            verdict,
        ) && follows(evaluation, primed.inner.relay_parent, collation, verdict);
    if verdict is Err {
        assert(verdict->Err_0 == ());
    }
}

/// Completed work holds the block that was fetched. Either the candidate is said to be valid: then
/// validation accepted that block, and the extrinsic data is what validation returned, the same
/// that was stored with success. Or the candidate is said to be invalid: then validation refused
/// the block, and there is no extrinsic data.
pub proof fn law_completed_work<Fetch, F, M, E>(
    primed: PrimedParachainWork<Fetch, F>,
    fetched: PoVBlock,
    make_available: M,
    validated: Validated,
    statement: &Statement,
    pov_block: &PoVBlock,
    extrinsic: Option<&Extrinsic>,
) where
    F: FnOnce(&BlockId, &Collation) -> Result<Extrinsic, ()>,
    M: FnOnce(Data<'_>) -> Result<(), E>,

    requires
        call_ensures(
            PrimedParachainWork::<Fetch, F>::complete::<M, E>,
            (primed, fetched, make_available),
            Ok(validated),
        ),
        call_ensures(Validated::statement, (&validated,), statement),
        call_ensures(Validated::pov_block, (&validated,), pov_block),
        call_ensures(Validated::extrinsic, (&validated,), extrinsic),
    ensures
        *pov_block == fetched,
        ({
            &&& extrinsic is Some
            &&& *statement == GenericStatement::<CandidateReceipt, H256>::Valid(
                primed.inner.work.candidate_receipt.candidate_hash,
            )
            &&& call_ensures(
                primed.validate,
                (
                    &BlockId(primed.inner.relay_parent),
                    &(Collation {
                        pov: fetched,
                        receipt: primed.inner.work.candidate_receipt,
                    }),
                ),
                Ok(*extrinsic->Some_0),
            )
            &&& call_ensures(
                make_available,
                (Data {
                    relay_parent: primed.inner.relay_parent,
                    parachain_id: primed.inner.work.candidate_receipt.parachain_index,
                    candidate_hash: primed.inner.work.candidate_receipt.candidate_hash,
                    block_data: &fetched.block_data,
                    extrinsic: Some(extrinsic->Some_0),
                },),
                Ok(()),
            )
        }) || ({
            &&& extrinsic is None
            &&& *statement == GenericStatement::<CandidateReceipt, H256>::Invalid(
                primed.inner.work.candidate_receipt.candidate_hash,
            )
            &&& call_ensures(
                primed.validate,
                (
                    &BlockId(primed.inner.relay_parent),
                    &(Collation {
                        pov: fetched,
                        receipt: primed.inner.work.candidate_receipt,
                    }),
                ),
                Err(()),
            )
        }),
{
    let collation = Collation { pov: fetched, receipt: primed.inner.work.candidate_receipt };
    let verdict = choose|verdict: Result<Extrinsic, ()>| #[trigger]
        call_ensures(
            primed.validate,
            (&BlockId(primed.inner.relay_parent), &collation),
            verdict,
        ) && completes(
            Ok::<Validated, E>(validated),
            primed.inner.relay_parent,
            collation,
            verdict,
            make_available,
        );
    if verdict is Err {
        assert(verdict->Err_0 == ());
    } else {
        let outcome = choose|outcome: Result<(), E>| #[trigger]
            call_ensures(
                make_available,
                (Data {
                    relay_parent: primed.inner.relay_parent,
                    parachain_id: primed.inner.work.candidate_receipt.parachain_index,
                    candidate_hash: primed.inner.work.candidate_receipt.candidate_hash,
                    block_data: &fetched.block_data,
                    extrinsic: Some(&verdict->Ok_0),
                },),
                outcome,
            ) && outcome is Ok;
        assert(outcome->Ok_0 == ());
    }
}

/// Work fails only if validation accepted the block and its data could not be stored, and then
/// with the error of storing it.
pub proof fn law_failed_work<Fetch, F, M, E>(
    primed: PrimedParachainWork<Fetch, F>,
    fetched: PoVBlock,
    make_available: M,
    error: E,
) where
    F: FnOnce(&BlockId, &Collation) -> Result<Extrinsic, ()>,
    M: FnOnce(Data<'_>) -> Result<(), E>,

    requires
        call_ensures(
            PrimedParachainWork::<Fetch, F>::complete::<M, E>,
            (primed, fetched, make_available),
            Err(error),
        ),
    ensures
        exists|extrinsic: Extrinsic|
            {
                &&& #[trigger] call_ensures(
                    primed.validate,
                    (
                        &BlockId(primed.inner.relay_parent),
                        &(Collation {
                            pov: fetched,
                            receipt: primed.inner.work.candidate_receipt,
                        }),
                    ),
                    Ok(extrinsic),
                )
                &&& call_ensures(
                    make_available,
                    (Data {
                    relay_parent: primed.inner.relay_parent,
                    parachain_id: primed.inner.work.candidate_receipt.parachain_index,
                    candidate_hash: primed.inner.work.candidate_receipt.candidate_hash,
                    block_data: &fetched.block_data,
                    extrinsic: Some(&extrinsic),
                },),
                    Err(error),
                )
            },
{
}

} // verus!
