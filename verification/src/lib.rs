//! Verified core of the LUCKY lottery, token, treasury and IGNIS canisters.
pub mod ids;
pub mod staking;
pub mod token;
pub mod token_upgrade;
pub mod emission;
pub mod tickets;
pub mod digest;
pub mod text;
pub mod topups;
pub mod treasury;
pub mod treasury_upgrade;
pub mod lottery;
pub mod lottery_upgrade;
pub mod ledger;
pub mod ignis;
pub mod voice;
