//! Character, vendor and inventory rules of a world server: the decisions that
//! the packet handlers make, stated over plain values and proved.

pub mod guid;
pub mod codes;
pub mod creation;
pub mod slots;
pub mod inventory;
pub mod items;
pub mod vendor;
pub mod extended_cost;
pub mod equipment_cache;
pub mod stock;
pub mod login;
pub mod trade;
pub mod buying;
pub mod stats;
pub mod vendor_list;
pub mod bank;
pub mod session_flow;
pub mod visibility;
pub mod moving;
pub mod gossip;
pub mod query;
pub mod login_load;
pub mod roster;
pub mod purchase;
pub mod refund;
pub mod writes;
