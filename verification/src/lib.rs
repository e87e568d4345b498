//! SpritEXAI Pay: payment orchestration for mobile financial services (bKash, Nagad).
//!
//! A merchant opens a [`charge`], directly or by a hosted [`checkout`], an [`invoice`] or a
//! [`payment_link`]. The customer sends money by phone; the confirmation SMS is forwarded,
//! read by a [`gateway`] or, where its format has drifted, by a language model ([`ai`]), and
//! ingested ([`sms`]): it settles the one charge that it matches into the [`ledger`], and a
//! signed [`webhook`] tells the merchant.
//!
//! The library decides; it does not read, write or send. What it asks of its database it
//! hands out as statements ([`store`]), and what these do to the money is modelled in
//! [`books`], where the promises that span functions are stated and proved.

pub mod activity;
pub mod ai;
pub mod auth;
pub mod books;
pub mod charge;
pub mod checkout;
pub mod checkout_page;
pub mod config;
pub mod crypto;
pub mod customer;
pub mod device;
pub mod domain;
pub mod fraud;
pub mod gateway;
pub mod http;
pub mod ids;
pub mod invoice;
pub mod json;
pub mod ledger;
pub mod merchant;
pub mod money;
pub mod payment_link;
pub mod reconcile;
pub mod settings;
pub mod sms;
pub mod store;
pub mod text;
pub mod webhook;
