pub mod credit;
pub mod feed;
pub mod invoice;
pub mod payment;
