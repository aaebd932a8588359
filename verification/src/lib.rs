//! Seat allocation for capacity-limited group events ("raids").
//!
//! Users ask for a seat in a raid: a main seat, or a place on the reserve.
//! Requests arrive from many handlers at once, so none of them changes a
//! seat itself. Each request is checked where it arrives ([`admission`],
//! [`creation`]), travels as an event through one stream ([`stream`]) and is
//! applied by a single writer ([`queue`]). After every change the promotion
//! engine ([`promotion`]) decides who moves from reserve to a main seat.
//! Timers are derived from the schedule of each raid whenever a process
//! starts ([`schedule`]).
//!
//! The library holds the decisions and proves them: what the engine
//! promotes ([`promotion`]), what applying an event does ([`queue`]), and
//! what holds of every run of events ([`replay`]). Reading the store, the
//! stream and the chat platform is left to the program around it.
//!
//! Times are microseconds since the Unix epoch. Identifiers of raids and
//! rows are 128-bit numbers, written as UUIDs ([`ids`]).

pub mod admission;
pub mod channels;
pub mod components;
pub mod counting;
pub mod creation;
pub mod datetime;
pub mod embeds;
pub mod emoji;
pub mod ids;
pub mod labels;
pub mod messages;
pub mod models;
pub mod names;
pub mod ordering;
pub mod ownership;
pub mod paging;
pub mod promotion;
pub mod queue;
pub mod raid_list;
pub mod replay;
pub mod role_admin;
pub mod roles;
pub mod roster;
pub mod schedule;
pub mod selection;
pub mod stream;
pub mod text;
pub mod weekly;
