//! Verified game rules of an open real-time-strategy skirmish: the online
//! war room and its host-authoritative protocol, production queues, saves
//! and replays, selection helpers and the walkability grid.

pub mod lobby;
pub mod team;
pub mod table;
pub mod lifecycle;
pub mod host;
pub mod netcmd;
pub mod production;
pub mod text;
pub mod save;
pub mod selection;
pub mod nav;
pub mod orders;
pub mod session;
pub mod war_room;
pub mod appearance;
pub mod support;
pub mod dispatch;
