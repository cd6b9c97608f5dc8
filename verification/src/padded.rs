//! Position words kept on cache lines of their own.

use cache_padded::CachePadded;
use vstd::prelude::*;

verus! {

/// `cache_padded::CachePadded`: a value aligned to the length of a cache
/// line.
#[verifier::external_type_specification]
#[verifier::external_body]
#[verifier::reject_recursive_types(T)]
pub struct ExCachePadded<T>(CachePadded<T>);

/// The word that a padded cell holds.
pub uninterp spec fn padded_word(p: CachePadded<usize>) -> usize;

/// `CachePadded::new`: the cell made from `word` holds `word`.
#[verifier::external_body]
#[allow(deprecated)]
pub(crate) fn padded_new(word: usize) -> (p: CachePadded<usize>)
    ensures
        padded_word(p) == word,
{
    CachePadded::new(word)
}

/// `CachePadded`'s `deref`: reads the word that the cell holds.
#[verifier::external_body]
pub(crate) fn padded_get(p: &CachePadded<usize>) -> (word: usize)
    ensures
        word == padded_word(*p),
{
    **p
}

/// `CachePadded`'s `deref_mut`: after the write the cell holds `word`.
#[verifier::external_body]
pub(crate) fn padded_set(p: &mut CachePadded<usize>, word: usize)
    ensures
        padded_word(*final(p)) == word,
{
    **p = word;
}

} // verus!
