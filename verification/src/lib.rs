//! An interactive rewrite-session engine.
//!
//! A learner rewrites a mathematical expression one step at a time by
//! selecting sub-terms and picking one of the rule-derived next steps that
//! an injected rewrite engine offers.  This crate holds the session state
//! machine itself: step histories and their apply/rewind operations
//! ([`sequence`]), the multi-selection protocol ([`selection`]), the
//! worksheet of independent sequences ([`worksheet`]), the grouping of
//! automatically derived follow-up steps ([`grouping`]), and the conversion
//! of an expression tree into an aligned, taggable presentation-block tree
//! ([`block`]).  The rule engine and normalizer are collaborators behind
//! the [`engine::RewriteEngine`] trait; deciding which rewrites are
//! mathematically valid is their business, not this crate's.

pub mod block;
pub mod engine;
pub mod expression;
pub mod grouping;
pub mod mathvar;
pub mod selection;
pub mod sequence;
pub mod worksheet;
