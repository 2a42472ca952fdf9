//! When a trigger volume reports: each time an instigator is found inside
//! it, or the first time only.

use vstd::prelude::*;

verus! {

/// The two kinds of trigger volume.
#[derive(Debug, PartialEq, Eq, Structural, Clone, Copy)]
pub enum TriggerKind {
    /// Reports once, and never again.
    Once,
    /// Reports whenever an instigator is found inside it.
    Multiple,
}

/// What a trigger does when it has been tested against an instigator.
#[derive(Debug, PartialEq, Eq, Structural, Clone, Copy)]
pub struct TriggerResponse {
    /// Whether the trigger reports the instigator to its target.
    pub fire: bool,
    /// Whether the trigger has reported for good after this test.
    pub triggered: bool,
}

/// What a trigger of kind `kind` does when tested against an instigator:
/// it reports if the instigator is inside it, unless it is of the kind
/// that reports once and has done so.
pub open spec fn response_of(kind: TriggerKind, triggered: bool, inside: bool) -> TriggerResponse {
    let fire = inside && !(kind == TriggerKind::Once && triggered);
    TriggerResponse { fire, triggered: triggered || (fire && kind == TriggerKind::Once) }
}

/// Decides what a trigger does when it has been tested against an
/// instigator: `triggered` tells whether it has reported for good,
/// `inside` whether the instigator was found inside it.
pub fn respond(kind: TriggerKind, triggered: bool, inside: bool) -> (response: TriggerResponse)
    ensures
        response == response_of(kind, triggered, inside),
{
    let once = match kind {
        TriggerKind::Once => true,
        TriggerKind::Multiple => false,
    };
    let fire = inside && !(once && triggered);
    TriggerResponse { fire, triggered: triggered || (fire && once) }
}

/// How often a trigger reports over a series of tests, starting from the
/// state `triggered`.
pub open spec fn reports(kind: TriggerKind, triggered: bool, tests: Seq<bool>) -> nat
    decreases tests.len(),
{
    if tests.len() == 0 {
        0
    } else {
        let first = response_of(kind, triggered, tests[0]);
        (if first.fire {
            1nat
        } else {
            0nat
        }) + reports(kind, first.triggered, tests.skip(1))
    }
}

/// A trigger of the kind that reports once reports at most once, whatever
/// is tested against it and however often; one that has reported does not
/// report again.
pub proof fn lemma_once_reports_at_most_once(triggered: bool, tests: Seq<bool>)
    ensures
        reports(TriggerKind::Once, triggered, tests) <= 1,
        triggered ==> reports(TriggerKind::Once, triggered, tests) == 0,
    decreases tests.len(),
{
    if tests.len() > 0 {
        let first = response_of(TriggerKind::Once, triggered, tests[0]);
        lemma_once_reports_at_most_once(first.triggered, tests.skip(1));
    }
}

/// How often an instigator is found inside a trigger over a series of
/// tests.
pub open spec fn hits(tests: Seq<bool>) -> nat
    decreases tests.len(),
{
    if tests.len() == 0 {
        0
    } else {
        (if tests[0] {
            1nat
        } else {
            0nat
        }) + hits(tests.skip(1))
    }
}

/// A trigger of the kind that reports each time reports exactly as often
/// as an instigator is found inside it.
pub proof fn lemma_multiple_reports_each_time(triggered: bool, tests: Seq<bool>)
    ensures
        reports(TriggerKind::Multiple, triggered, tests) == hits(tests),
    decreases tests.len(),
{
    if tests.len() > 0 {
        let first = response_of(TriggerKind::Multiple, triggered, tests[0]);
        lemma_multiple_reports_each_time(first.triggered, tests.skip(1));
    }
}

} // verus!
