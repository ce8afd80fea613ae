//! Study-progress aggregation core: a verified read-through cache contract
//! with shared expiry computation, together with the pure per-platform
//! logic that the cache serves.

pub mod anki;
pub mod api;
pub mod bunpro;
pub mod cacheable;
pub mod calendar;
pub mod codec;
pub mod expiry;
pub mod satori;
pub mod wanikani;
