//! The aggregate engine: given current state and a command, produce the new
//! event or a rejection.
//!
//! The lifecycle is a two-state machine: an account is *unopened* until an
//! `AccountOpened` event is folded, and *open* afterwards.  Before an event is
//! emitted, the injected validation policy is consulted; its rejection
//! short-circuits with no event produced.

use vstd::prelude::*;
use crate::events::{BankAccountEvent, EventView};
use crate::commands::{BankAccountCommand, CommandView, CommandError, CommandErrorView};
use crate::aggregate::{AggregateState, StateView};

verus! {

/// Whether an unbounded integer fits in a 64-bit signed machine integer.
pub open spec fn fits_i64(x: int) -> bool {
    i64::MIN <= x <= i64::MAX
}

/// The lifecycle transition: the event a command produces against a given
/// state, or the error rejecting it.
///
/// - Unopened + `OpenAccount` emits `AccountOpened`; any other command against
///   an unopened account is `AggregateNotInitialized`.
/// - `OpenAccount` against an open account is `AlreadyOpened`.
/// - Deposits add to the balance, withdrawals and checks subtract from it; the
///   emitted event carries the resulting balance.  A result that does not fit
///   in a 64-bit signed integer is `BalanceOutOfRange`.
pub open spec fn transition(account_id: Seq<char>, s: StateView, c: CommandView) -> Result<
    EventView,
    CommandErrorView,
> {
    match c {
        CommandView::OpenAccount => if s.opened {
            Err(CommandErrorView::AlreadyOpened)
        } else {
            Ok(EventView::AccountOpened { account_id })
        },
        CommandView::DepositMoney { amount } => if !s.opened {
            Err(CommandErrorView::AggregateNotInitialized)
        } else if !fits_i64(s.balance + amount) {
            Err(CommandErrorView::BalanceOutOfRange)
        } else {
            Ok(EventView::CustomerDepositedMoney { amount, balance: s.balance + amount })
        },
        CommandView::WithdrawMoney { amount } => if !s.opened {
            Err(CommandErrorView::AggregateNotInitialized)
        } else if !fits_i64(s.balance - amount) {
            Err(CommandErrorView::BalanceOutOfRange)
        } else {
            Ok(EventView::CustomerWithdrewCash { amount, balance: s.balance - amount })
        },
        CommandView::WriteCheck { check_number, amount } => if !s.opened {
            Err(CommandErrorView::AggregateNotInitialized)
        } else if !fits_i64(s.balance - amount) {
            Err(CommandErrorView::BalanceOutOfRange)
        } else {
            Ok(EventView::CustomerWroteCheck {
                check_number,
                amount,
                balance: s.balance - amount,
            })
        },
    }
}

/// The model of an engine result.
pub open spec fn engine_result_view(r: Result<BankAccountEvent, CommandError>) -> Result<
    EventView,
    CommandErrorView,
> {
    match r {
        Ok(e) => Ok(e@),
        Err(e) => Err(e@),
    }
}

/// A pluggable business-rule check, consulted before a command is allowed to
/// produce an event.  Implementations declare their policy as a spec function
/// and must make `validate` agree with it, so that callers of the engine know
/// exactly which commands a given policy lets through.
pub trait CommandValidator: Sized {
    /// The policy itself: `Ok` to accept the command, or the reason to reject
    /// it.
    spec fn policy(&self, c: CommandView, s: StateView) -> Result<(), Seq<char>>;

    /// Runs the policy on one command against the current state.
    fn validate(&self, c: &BankAccountCommand, s: &AggregateState) -> (r: Result<(), String>)
        ensures
            r is Ok <==> self.policy(c@, s@) is Ok,
            r matches Err(reason) ==> self.policy(c@, s@) == Err::<(), Seq<char>>(reason@),
    ;
}

/// The reference policy: accepts every command unconditionally.
pub struct HappyPathValidator;

impl CommandValidator for HappyPathValidator {
    open spec fn policy(&self, c: CommandView, s: StateView) -> Result<(), Seq<char>> {
        Ok(())
    }

    fn validate(&self, c: &BankAccountCommand, s: &AggregateState) -> (r: Result<(), String>)
    {
        Ok(())
    }
}

/// A stricter policy: rejects a withdrawal or a check that would overdraw
/// the balance, and a check whose number was already used.
pub struct StrictValidator;

impl CommandValidator for StrictValidator {
    open spec fn policy(&self, c: CommandView, s: StateView) -> Result<(), Seq<char>> {
        match c {
            CommandView::OpenAccount => Ok(()),
            CommandView::DepositMoney { .. } => Ok(()),
            CommandView::WithdrawMoney { amount } => if amount > s.balance {
                Err("insufficient funds"@)
            } else {
                Ok(())
            },
            CommandView::WriteCheck { check_number, amount } => if s.written_checks.contains(
                check_number,
            ) {
                Err("check number already used"@)
            } else if amount > s.balance {
                Err("insufficient funds"@)
            } else {
                Ok(())
            },
        }
    }

    fn validate(&self, c: &BankAccountCommand, s: &AggregateState) -> (r: Result<(), String>)
    {
        match c {
            BankAccountCommand::OpenAccount => Ok(()),
            BankAccountCommand::DepositMoney { .. } => Ok(()),
            BankAccountCommand::WithdrawMoney { amount } => {
                if *amount > s.balance {
                    Err("insufficient funds".to_owned())
                } else {
                    Ok(())
                }
            },
            BankAccountCommand::WriteCheck { check_number, amount } => {
                if check_was_written(s, check_number) {
                    Err("check number already used".to_owned())
                } else if *amount > s.balance {
                    Err("insufficient funds".to_owned())
                } else {
                    Ok(())
                }
            },
        }
    }
}

/// Whether the state already records a check with this number.
fn check_was_written(s: &AggregateState, check_number: &String) -> (r: bool)
    ensures
        r == s@.written_checks.contains(check_number@),
{
    let mut i: usize = 0;
    while i < s.written_checks.len()
        invariant
            i <= s.written_checks@.len(),
            forall|j: int| 0 <= j < i ==> s@.written_checks[j] != check_number@,
        decreases s.written_checks@.len() - i,
    {
        if s.written_checks[i] == *check_number {
            proof {
                assert(s@.written_checks[i as int] == check_number@);
            }
            return true;
        }
        i = i + 1;
    }
    proof {
        if s@.written_checks.contains(check_number@) {
            let j = choose|j: int|
                0 <= j < s@.written_checks.len() && s@.written_checks[j] == check_number@;
            assert(s@.written_checks[j] != check_number@);
        }
    }
    false
}

/// The engine's whole decision: the lifecycle transition, gated by the
/// validation policy before emission.
pub open spec fn decide_spec<V: CommandValidator>(
    v: V,
    account_id: Seq<char>,
    s: StateView,
    c: CommandView,
) -> Result<EventView, CommandErrorView> {
    match transition(account_id, s, c) {
        Err(e) => Err(e),
        Ok(event) => match v.policy(c, s) {
            Err(reason) => Err(CommandErrorView::Rejected { reason }),
            Ok(()) => Ok(event),
        },
    }
}

/// Runs one command against the reconstructed state: determines the lifecycle
/// transition, consults the validator before emission, and returns the new
/// event or the rejection.  Produces no side effect.
pub fn decide<V: CommandValidator>(
    v: &V,
    account_id: &String,
    s: &AggregateState,
    c: &BankAccountCommand,
) -> (r: Result<BankAccountEvent, CommandError>)
    ensures
        engine_result_view(r) == decide_spec(*v, account_id@, s@, c@),
{
    let candidate: Result<BankAccountEvent, CommandError> = match c {
        BankAccountCommand::OpenAccount => {
            if s.opened {
                Err(CommandError::AlreadyOpened)
            } else {
                Ok(BankAccountEvent::AccountOpened { account_id: account_id.clone() })
            }
        },
        BankAccountCommand::DepositMoney { amount } => {
            if !s.opened {
                Err(CommandError::AggregateNotInitialized)
            } else {
                match s.balance.checked_add(*amount) {
                    None => Err(CommandError::BalanceOutOfRange),
                    Some(balance) => Ok(
                        BankAccountEvent::CustomerDepositedMoney { amount: *amount, balance },
                    ),
                }
            }
        },
        BankAccountCommand::WithdrawMoney { amount } => {
            if !s.opened {
                Err(CommandError::AggregateNotInitialized)
            } else {
                match s.balance.checked_sub(*amount) {
                    None => Err(CommandError::BalanceOutOfRange),
                    Some(balance) => Ok(
                        BankAccountEvent::CustomerWithdrewCash { amount: *amount, balance },
                    ),
                }
            }
        },
        BankAccountCommand::WriteCheck { check_number, amount } => {
            if !s.opened {
                Err(CommandError::AggregateNotInitialized)
            } else {
                match s.balance.checked_sub(*amount) {
                    None => Err(CommandError::BalanceOutOfRange),
                    Some(balance) => Ok(
                        BankAccountEvent::CustomerWroteCheck {
                            check_number: check_number.clone(),
                            amount: *amount,
                            balance,
                        },
                    ),
                }
            }
        },
    };
    match candidate {
        Err(e) => Err(e),
        Ok(event) => match v.validate(c, s) {
            Err(reason) => Err(CommandError::Rejected { reason }),
            Ok(()) => Ok(event),
        },
    }
}

} // verus!
