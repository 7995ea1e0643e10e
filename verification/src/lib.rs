//! Verified mechanism logic for a family of ecological-credit contracts:
//! fee routing, dynamic supply, reputation signals, attestation bonding,
//! contribution rewards, credit-class voting, marketplace curation and
//! service escrow. Every contract is modelled as a plain state value and a
//! set of transitions; storage, message encoding and responses live outside.

pub mod money;
pub mod paging;
pub mod fee_router;
pub mod byte_order;
pub mod service_escrow;
pub mod credit_class_voting;
pub mod attestation_bonding;
pub mod dynamic_supply;
pub mod reputation_signal;
pub mod marketplace_curation;
pub mod contribution_rewards;
