//! Resolution of free-text place descriptions against a gazetteer of
//! countries, states and cities.
//!
//! A place is given as three texts: city, state and country. The texts are
//! normalized into key fragments ([`normalize`]), the fragments joined into
//! lookup keys, and the keys looked up in an index that lists, for every
//! city of the gazetteer, the keys under which it is found ([`keys`],
//! [`index`]). Alternate names come from an alias table ([`alias`]). A city
//! found with its state is a full match; a city found by city and country
//! alone is judged by a short list of rules ([`matcher`]). The records are
//! loaded once into a [`store::LocationStore`], against which
//! [`store::find_location`] resolves.
//!
//! Every executable function carries a contract over texts as `Seq<char>`
//! and over the gazetteer as [`index::Gazetteer`]; the contracts are proved.
//! What is taken on trust is named where it stands: the decomposition of
//! text by `unicode_normalization`, the multi-valued maps of `multimap`, and
//! the appending of a character to a string.

pub mod alias;
pub mod batch;
pub mod error;
pub mod index;
pub mod keys;
pub mod matcher;
pub mod matcher_laws;
pub mod multimaps;
pub mod normalize;
pub mod normalize_laws;
pub mod records;
pub mod seqs;
pub mod store;
pub mod table;
pub mod text;
