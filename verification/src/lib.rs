//! A verified model of DCQCN-style congestion control: a sender-side rate
//! controller that cuts its sending rate on congestion notifications and
//! recovers it through staged increase phases, driven by a discrete-time
//! simulation loop.

pub mod dyadic;
pub mod error;
pub mod event;
pub mod controller;
pub mod sim;
