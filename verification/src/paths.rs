//! Paths of files. A path need not be text: it is known by its bytes.

use std::collections::hash_map::DefaultHasher;
use std::hash::{Hash, Hasher};
use std::path::PathBuf;
use vstd::prelude::*;
use vstd::std_specs::hash::DefaultHasherAdditionalSpecFns;
use vstd::utf8::{decode_utf8, valid_utf8};

verus! {

/// Declares `std::path::PathBuf`, of which nothing is known but what the functions below say.
#[verifier::external_type_specification]
#[verifier::external_body]
pub struct ExPathBuf(PathBuf);

/// The bytes that a path holds, in the encoding of `OsStr::as_encoded_bytes`, which extends UTF-8
/// by what the platform allows beyond text.
pub uninterp spec fn path_bytes(path: PathBuf) -> Seq<u8>;

/// `Clone::clone` of `std::path::PathBuf` makes another path of the same bytes.
pub assume_specification[ <PathBuf as Clone>::clone ](path: &PathBuf) -> (copy: PathBuf)
    ensures
        path_bytes(copy) == path_bytes(*path),
;

/// What `Path::display` writes of a path of these bytes: the text that they encode, with
/// replacement characters for what is not text.
pub uninterp spec fn path_text(bytes: Seq<u8>) -> Seq<char>;

/// Calls `Path::display` and writes the path into a string. The text is a function of the bytes of
/// the path, and where they are UTF-8 it is the text that they encode.
#[verifier::external_body]
pub(crate) fn text_of_path(path: &PathBuf) -> (text: String)
    ensures
        text@ == path_text(path_bytes(*path)),
        valid_utf8(path_bytes(*path)) ==> text@ == decode_utf8(path_bytes(*path)),
{
    path.display().to_string()
}

/// The byte strings that the `Hash` of `std::path::PathBuf` feeds to a hasher for a path of these
/// bytes, in order, on the platform that the program is built for.
pub uninterp spec fn path_hash_input(bytes: Seq<u8>) -> Seq<Seq<u8>>;

/// Calls `Hash::hash` of `std::path::PathBuf`, which feeds a hasher what depends on the bytes of
/// the path alone. What it feeds is left unsaid.
#[verifier::external_body]
fn hash_path(path: &PathBuf, state: &mut DefaultHasher)
    ensures
        final(state)@ == old(state)@ + path_hash_input(path_bytes(*path)),
{
    path.hash(state)
}

/// The number that stands for a path of these bytes in the names of the cache.
pub open spec fn path_key(bytes: Seq<u8>) -> u64 {
    DefaultHasher::spec_finish(path_hash_input(bytes))
}

/// The number that stands for a path in the names of the cache.
pub(crate) fn key_of_path(path: &PathBuf) -> (key: u64)
    ensures
        key == path_key(path_bytes(*path)),
{
    let mut hasher = DefaultHasher::new();
    hash_path(path, &mut hasher);
    proof {
        assert(hasher@ =~= path_hash_input(path_bytes(*path)));
    }
    hasher.finish()
}

/// The components of a path of these bytes, as `Path::components` gives them, each by its bytes.
/// Paths are equal if their components are, and joining a relative path to another puts its
/// components behind those of the other.
pub uninterp spec fn path_components(bytes: Seq<u8>) -> Seq<Seq<u8>>;

/// Calls `Path::strip_prefix`, which gives the path that, joined to `base`, yields `path`, if the
/// components of `path` start with all those of `base`, and refuses every other `base`.
#[verifier::external_body]
pub(crate) fn path_below(path: &PathBuf, base: &PathBuf) -> (rest: Option<PathBuf>)
    ensures
        match rest {
            Some(rest) => path_components(path_bytes(*base)) + path_components(path_bytes(rest))
                == path_components(path_bytes(*path)),
            None => !path_components(path_bytes(*base)).is_prefix_of(
                path_components(path_bytes(*path)),
            ),
        },
{
    path.strip_prefix(base).ok().map(|rest| rest.to_owned())
}

} // verus!
