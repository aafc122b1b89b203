//! Verified building blocks of a collection of small Rust study programs:
//! a singly linked list, an order state machine, account withdrawals,
//! a calculator, a delay-queue scheduler, a to-do store and a few
//! request/configuration helpers.

pub mod account;
pub mod auth;
pub mod calculator;
pub mod delay_queue;
pub mod greeter;
pub mod linked_list;
pub mod orders;
pub mod settings;
pub mod std_examples;
pub mod tasky;
pub mod transfer;

pub mod clock;
mod text;
