pub mod agent;
pub mod bus;
pub mod channels;
pub mod clock;
pub mod config;
pub mod cron;
pub mod gateway;
pub mod memory;
pub mod paths;
pub mod provider;
pub mod security;
pub mod session;
pub mod skills;
pub mod sync;
pub mod text;
pub mod tools;
