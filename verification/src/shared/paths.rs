//! Path text: joining, comparing as paths, lexical normalization of a
//! suffix, and the rendering of paths that are not UTF-8.
use vstd::prelude::*;

use crate::shared::error::{Error, WorkspaceError};
use crate::shared::text::{append_str, chars_of, decode_utf8_bytes, hex_byte, push_char, push_hex_byte};
use crate::shared::types::{is_dot, named_pieces, path_pieces, RelativePath};

verus! {

/// `base` joined with the relative path `rel` (`Path::join` for a relative
/// argument): a `/` is put between them unless `base` is empty or already
/// ends in one.
pub open spec fn join_spec(base: Seq<char>, rel: Seq<char>) -> Seq<char> {
    if base.len() == 0 {
        rel
    } else if base.last() == '/' {
        base + rel
    } else {
        base + seq!['/'] + rel
    }
}

/// The path begins at the root.
pub open spec fn is_rooted(p: Seq<char>) -> bool {
    p.len() > 0 && p[0] == '/'
}

/// The path is relative and begins with a `.` component: it is `.` or
/// begins with `./`.
pub open spec fn leads_with_cur_dir(p: Seq<char>) -> bool {
    !is_rooted(p) && is_dot(path_pieces(p)[0])
}

/// Two paths are the same path, component by component as `Path::components`
/// yields them on Unix: both begin at the root or neither does, both begin
/// with a `.` component or neither does, and they name the same pieces once
/// repeated separators, a trailing separator and every other `.` are dropped.
/// `..` is kept as it is.
pub open spec fn same_path(a: Seq<char>, b: Seq<char>) -> bool {
    &&& is_rooted(a) == is_rooted(b)
    &&& leads_with_cur_dir(a) == leads_with_cur_dir(b)
    &&& named_pieces(path_pieces(a)) == named_pieces(path_pieces(b))
}

/// Compares two paths as camino's `Utf8Path` does (`==`, which compares
/// the components that `Utf8Path::components` yields). The contract is the
/// normalization that method documents, written out for Unix paths.
#[verifier::external_body]
pub(crate) fn paths_equal(a: &str, b: &str) -> (r: bool)
    ensures
        r == same_path(a@, b@),
{
    camino::Utf8Path::new(a) == camino::Utf8Path::new(b)
}

/// Joins a relative path onto `base`.
pub fn join_path(base: &str, rel: &str) -> (r: String)
    ensures
        r@ == join_spec(base@, rel@),
{
    let bv = chars_of(base);
    let mut out = String::new();
    append_str(&mut out, base);
    if bv.len() > 0 && bv[bv.len() - 1] != '/' {
        push_char(&mut out, '/');
    }
    append_str(&mut out, rel);
    proof {
        if bv.len() == 0 {
            assert(out@ =~= rel@);
        } else if bv@.last() == '/' {
            assert(out@ =~= base@ + rel@);
        } else {
            assert(out@ =~= base@ + seq!['/'] + rel@);
        }
    }
    out
}

/// `base` joined with a validated relative path.
pub fn resolve_relative(base: &str, relative: &RelativePath) -> (r: String)
    ensures
        r@ == join_spec(base@, relative@),
{
    join_path(base, relative.as_str())
}

/// The lower-case hexadecimal rendering of a byte string.
pub open spec fn hex_bytes(bytes: Seq<u8>) -> Seq<char>
    decreases bytes.len(),
{
    if bytes.len() == 0 {
        Seq::empty()
    } else {
        hex_bytes(bytes.drop_last()) + hex_byte(bytes.last())
    }
}

/// How a path that is not UTF-8 is shown: its bytes in hexadecimal.
pub open spec fn non_utf8_description(bytes: Seq<u8>) -> Seq<char> {
    "non-UTF-8 bytes 0x"@ + hex_bytes(bytes)
}

/// Renders the raw bytes of a path that is not valid UTF-8.
pub fn describe_non_utf8_path(bytes: &Vec<u8>) -> (r: String)
    ensures
        r@ == non_utf8_description(bytes@),
{
    let mut rendered = String::new();
    append_str(&mut rendered, "non-UTF-8 bytes 0x");
    let mut i: usize = 0;
    while i < bytes.len()
        invariant
            i <= bytes.len(),
            rendered@ == "non-UTF-8 bytes 0x"@ + hex_bytes(bytes@.take(i as int)),
        decreases bytes.len() - i,
    {
        push_hex_byte(&mut rendered, bytes[i]);
        proof {
            assert(bytes@.take(i + 1).drop_last() =~= bytes@.take(i as int));
        }
        i = i + 1;
    }
    proof {
        assert(bytes@.take(bytes.len() as int) =~= bytes@);
    }
    rendered
}

/// A path given by its raw bytes, as text: the bytes must be UTF-8.
pub fn utf8_path_from_std(bytes: Vec<u8>) -> (r: Result<String, Error>)
    ensures
        vstd::utf8::valid_utf8(bytes@) ==> (r matches Ok(s) && s@ == vstd::utf8::decode_utf8(
            bytes@,
        )),
        !vstd::utf8::valid_utf8(bytes@) ==> (r matches Err(
            Error::Workspace(WorkspaceError::UnsupportedNonUtf8Path { path }),
        ) && path@ == non_utf8_description(bytes@)),
{
    let description = describe_non_utf8_path(&bytes);
    match decode_utf8_bytes(bytes) {
        Ok(s) => Ok(s),
        Err(_) => Err(Error::unsupported_non_utf8_path(description)),
    }
}

/// One component of a path, as `std::path::Path::components` yields them on
/// Unix.
#[derive(Debug)]
pub enum PathComponent {
    RootDir,
    CurDir,
    ParentDir,
    Normal(String),
}

/// The named components of a path below its root after applying `suffix`
/// to `base`: `..` drops the last name (never above the root), `.` and the
/// root are skipped, a name is appended.
pub open spec fn apply_components(base: Seq<Seq<char>>, suffix: Seq<PathComponent>) -> Seq<
    Seq<char>,
>
    decreases suffix.len(),
{
    if suffix.len() == 0 {
        base
    } else {
        let prev = apply_components(base, suffix.drop_last());
        match suffix.last() {
            PathComponent::RootDir => prev,
            PathComponent::CurDir => prev,
            PathComponent::ParentDir => if prev.len() == 0 {
                prev
            } else {
                prev.drop_last()
            },
            PathComponent::Normal(name) => prev.push(name@),
        }
    }
}

/// Appends the components of `suffix` to the absolute path whose names are
/// `base`, resolving `.` and `..` lexically.
pub fn append_normalized_suffix(base: &mut Vec<String>, suffix: &Vec<PathComponent>)
    ensures
        final(base)@.map_values(|s: String| s@) == apply_components(
            old(base)@.map_values(|s: String| s@),
            suffix@,
        ),
{
    let ghost start = base@.map_values(|s: String| s@);
    let mut i: usize = 0;
    proof {
        assert(suffix@.take(0) =~= Seq::<PathComponent>::empty());
    }
    while i < suffix.len()
        invariant
            i <= suffix.len(),
            base@.map_values(|s: String| s@) == apply_components(start, suffix@.take(i as int)),
        decreases suffix.len() - i,
    {
        let ghost prev = base@.map_values(|s: String| s@);
        proof {
            assert(suffix@.take(i + 1).drop_last() =~= suffix@.take(i as int));
            assert(suffix@.take(i + 1).last() == suffix@[i as int]);
        }
        match &suffix[i] {
            PathComponent::RootDir => {},
            PathComponent::CurDir => {},
            PathComponent::ParentDir => {
                if base.len() > 0 {
                    base.pop();
                    proof {
                        assert(base@.map_values(|s: String| s@) =~= prev.drop_last());
                    }
                }
            },
            PathComponent::Normal(name) => {
                base.push(name.clone());
                proof {
                    assert(base@.map_values(|s: String| s@) =~= prev.push(name@));
                }
            },
        }
        i = i + 1;
    }
    proof {
        assert(suffix@.take(suffix.len() as int) =~= suffix@);
    }
}

} // verus!
