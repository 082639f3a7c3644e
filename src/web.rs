//! What the poker server sends and receives, and how it maps onto the model.

pub mod dto;
