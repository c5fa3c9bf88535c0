//! Sliding-window rate limiting for an HTTP API.
//!
//! Each client has a bucket that remembers when its latest requests were granted.
//! A request is granted as long as the client's window, and a shorter burst
//! window, hold fewer grants than their limits; the client is told what it has
//! left and, where it is refused, how long to wait. Buckets that see no traffic
//! are evicted.
//!
//! - [`request`], [`routes`] and [`tier`] tell who sent a request and for what;
//!   [`config`] holds the limits, the windows and the trusted clients.
//! - [`bucket`] decides on the requests of one client, [`table`] keeps the buckets
//!   of all, and [`state`] is the limiter itself.
//! - [`audit`] tells of trusted clients that pass the limiter by, and [`response`]
//!   of what was decided.
//! - [`clock`] and [`wall_clock`] hold time, [`text`] and [`lookup`] what is needed
//!   of texts.
//! - [`text_laws`], [`request_laws`], [`quota_laws`], [`bucket_laws`], [`table_laws`]
//!   and [`laws`] state what holds of all this, whatever clients do.

pub mod audit;
pub mod bucket;
pub mod bucket_laws;
pub mod clock;
pub mod config;
pub mod laws;
pub mod lookup;
pub mod quota_laws;
pub mod request;
pub mod request_laws;
pub mod response;
pub mod routes;
pub mod state;
pub mod table;
pub mod table_laws;
pub mod text;
pub mod text_laws;
pub mod tier;
pub mod wall_clock;
