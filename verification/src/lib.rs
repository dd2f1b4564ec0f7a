//! Request/response over publish/subscribe: the rules of a pair of proxies
//! that carry HTTP requests across Kafka topics and pair each reply with the
//! request that is waiting for it.
pub mod common;
pub mod pending;

pub mod kafka;
pub mod kafka_controller;

pub mod future;
pub mod sync;
pub mod sync_2;

pub mod response_proxy;
pub mod rest;
pub mod rest_api;

pub mod round_trip;

mod text;
