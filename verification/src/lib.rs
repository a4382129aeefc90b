//! Weekly meme contest backend: meme storage, voting with weekly power,
//! live and finalized leaderboards, week rollover and NFT minting records.
//! Every operation is a method on an explicit state value, so the host
//! canister keeps the state and hands in the caller and the clock.

pub mod ballot;
pub mod canister;
pub mod codec;
pub mod generation;
pub mod ids;
pub mod keyed;
pub mod laws;
pub mod leaderboard;
pub mod market;
pub mod memes;
pub mod minting;
pub mod model;
pub mod nft;
pub mod ranking;
pub mod reply;
pub mod rollover;
pub mod state;
pub mod voting;
pub mod text;
pub mod weekly;
pub mod weeks;
