pub mod ascii;
pub mod bolt11;
pub mod cln;
pub mod config;
pub mod crypto;
pub mod domain;
pub mod feeder;
pub mod gateway;
pub mod ident;
pub mod informational;
pub mod json;
pub mod ledger;
pub mod lexical;
pub mod lnurl;
pub mod messaging;
pub mod migrate;
pub mod nostr;
pub mod openhab;
pub mod overlay;
pub mod presentation;
pub mod private_alert;
pub mod quotes;
pub mod service;
pub mod storage;
pub mod strike;
pub mod text;
pub mod timefmt;
pub mod url;
