//! Settings of the transactional resources that a context can carry.

pub mod sea_orm_postgres;
