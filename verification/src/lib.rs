//! Core of a small HTTP API service: the fixed user list behind
//! `GET /api/users` and the JSON rendering of its response body,
//! specified down to the exact characters served. The network listener,
//! routing and OpenAPI wiring live outside this library.

pub mod json;
pub mod users;
