//! Reverse image search over several unrelated backends, normalised into one
//! ranked-result model.
//!
//! The library is transport-free: it says which requests a lookup needs and
//! what each response means, and leaves the sending to the caller. A lookup
//! is a [`check::Check`]: it names the request to send next, takes the
//! response, and ends with an [`source::Output`] or an [`error::Error`].
//! Before a backend is asked, the `Content-Type` of the image's address has
//! to allow it ([`gate`]). Each backend is a [`source::Source`]:
//!
//! - [`source::saucenao`], a JSON interface that asks for a key;
//! - [`source::iqdb`], which answers with a page of tables;
//! - [`source::yandex`], which is asked twice and may answer with a
//!   challenge;
//! - [`source::fuzzysearch`], which finds images by hash and ranks its
//!   matches by score.
//!
//! Pages are read as flat lists of nodes ([`dom`]), bodies as JSON trees
//! ([`json`]), and scores are kept as exact fractions ([`similarity`]).

pub mod check;
pub mod dom;
pub mod error;
pub mod gate;
pub mod json;
pub mod similarity;
pub mod source;
pub mod text;
pub mod transport;
