//! Commands: requested state changes, and the errors a command can produce.
//!
//! A command is never persisted; it exists only for the duration of one
//! command-processor invocation.

use vstd::prelude::*;

verus! {

/// A requested state change against one account.
pub enum BankAccountCommand {
    OpenAccount,
    DepositMoney { amount: i64 },
    WithdrawMoney { amount: i64 },
    WriteCheck { check_number: String, amount: i64 },
}

/// The mathematical model of a command.
pub enum CommandView {
    OpenAccount,
    DepositMoney { amount: int },
    WithdrawMoney { amount: int },
    WriteCheck { check_number: Seq<char>, amount: int },
}

impl View for BankAccountCommand {
    type V = CommandView;

    open spec fn view(&self) -> CommandView {
        match self {
            BankAccountCommand::OpenAccount => CommandView::OpenAccount,
            BankAccountCommand::DepositMoney { amount } => CommandView::DepositMoney {
                amount: *amount as int,
            },
            BankAccountCommand::WithdrawMoney { amount } => CommandView::WithdrawMoney {
                amount: *amount as int,
            },
            BankAccountCommand::WriteCheck { check_number, amount } => CommandView::WriteCheck {
                check_number: check_number@,
                amount: *amount as int,
            },
        }
    }
}

/// Why a command produced no event.
#[derive(Debug)]
pub enum CommandError {
    /// A business rule of the injected validation policy failed;
    /// user-correctable.
    Rejected { reason: String },
    /// The command is invalid for the account's lifecycle state: anything but
    /// `OpenAccount` was issued against an account with no events yet;
    /// user-correctable.
    AggregateNotInitialized,
    /// `OpenAccount` was issued against an account that is already open;
    /// user-correctable.
    AlreadyOpened,
    /// The resulting balance would not fit in a 64-bit signed integer; a
    /// machine-limit guard, user-correctable.
    BalanceOutOfRange,
    /// The optimistic append lost a race: the stream grew between state
    /// reconstruction and commit.
    ConcurrencyConflict,
}

/// The mathematical model of a command error.
pub enum CommandErrorView {
    Rejected { reason: Seq<char> },
    AggregateNotInitialized,
    AlreadyOpened,
    BalanceOutOfRange,
    ConcurrencyConflict,
}

impl View for CommandError {
    type V = CommandErrorView;

    open spec fn view(&self) -> CommandErrorView {
        match self {
            CommandError::Rejected { reason } => CommandErrorView::Rejected { reason: reason@ },
            CommandError::AggregateNotInitialized => CommandErrorView::AggregateNotInitialized,
            CommandError::AlreadyOpened => CommandErrorView::AlreadyOpened,
            CommandError::BalanceOutOfRange => CommandErrorView::BalanceOutOfRange,
            CommandError::ConcurrencyConflict => CommandErrorView::ConcurrencyConflict,
        }
    }
}

} // verus!
